use mun_core::backend::{Config, LinkerFlavor, OptimizationLevel, TargetSpec};
use mun_core::db::CompilerDatabase;
use mun_core::defs::ScopeDef;
use mun_core::ids::{CallableDef, FileId, FunctionId, Namespace, StructId, TypableDef};
use mun_core::memo::QueryKey;
use mun_core::ty::Ty;

fn test_config() -> Config {
    Config {
        target: TargetSpec {
            triple: b"x86_64-unknown-linux-gnu".to_vec(),
            cpu: b"generic".to_vec(),
            features: b"".to_vec(),
            arch: b"x86_64".to_vec(),
            linker_flavor: LinkerFlavor::Ld,
        },
        optimization_lvl: OptimizationLevel::Standard,
    }
}

fn find_fn(db: &mut CompilerDatabase, file: FileId, name: &[u8]) -> FunctionId {
    let scope = db.module_scope(file);
    for e in scope.entries.iter() {
        if e.name == name {
            if let ScopeDef::Function(f) = e.def {
                return f;
            }
        }
    }
    panic!("function not found");
}

fn find_struct(db: &mut CompilerDatabase, file: FileId, name: &[u8]) -> StructId {
    let scope = db.module_scope(file);
    for e in scope.entries.iter() {
        if e.name == name {
            if let ScopeDef::Struct(s) = e.def {
                return s;
            }
        }
    }
    panic!("struct not found");
}

#[test]
fn early_cutoff_body_edit_keeps_signature_revision() {
    let cfg = test_config();
    let mut db = CompilerDatabase::new(&cfg);
    let f = FileId(0);
    db.set_file_text(f, b"fn foo(int)->bool{1}\n".to_vec());
    let func = find_fn(&mut db, f, b"foo");
    let sig = db.callable_sig(CallableDef::Function(func));
    assert_eq!(sig.params, vec![Ty::Int]);
    assert_eq!(sig.ret, Ty::Bool);
    let key = QueryKey::CallableSig(CallableDef::Function(func));
    let changed_before = db.cell_changed_at(key).unwrap();

    // edit only the body text
    db.set_file_text(f, b"fn foo(int)->bool{2+2}\n".to_vec());
    let sig2 = db.callable_sig(CallableDef::Function(func));
    assert_eq!(sig2.params, vec![Ty::Int]);
    assert_eq!(sig2.ret, Ty::Bool);
    let changed_after = db.cell_changed_at(key).unwrap();
    assert_eq!(changed_before, changed_after);

    // the parse itself did change
    let parse_changed = db.cell_changed_at(QueryKey::Parse(f)).unwrap();
    assert_eq!(parse_changed, db.current_revision());
}

#[test]
fn signature_edit_does_move_signature_revision() {
    let cfg = test_config();
    let mut db = CompilerDatabase::new(&cfg);
    let f = FileId(0);
    db.set_file_text(f, b"fn foo(int)->bool{1}\n".to_vec());
    let func = find_fn(&mut db, f, b"foo");
    let key = QueryKey::CallableSig(CallableDef::Function(func));
    let _ = db.callable_sig(CallableDef::Function(func));
    let changed_before = db.cell_changed_at(key).unwrap();
    db.set_file_text(f, b"fn foo(float)->bool{1}\n".to_vec());
    let sig = db.callable_sig(CallableDef::Function(func));
    assert_eq!(sig.params, vec![Ty::Float]);
    let changed_after = db.cell_changed_at(key).unwrap();
    assert!(changed_after > changed_before);
}

#[test]
fn revision_monotonicity_across_edits() {
    let cfg = test_config();
    let mut db = CompilerDatabase::new(&cfg);
    let f = FileId(0);
    let keys = |func: FunctionId| {
        vec![
            QueryKey::Parse(f),
            QueryKey::ItemTree(f),
            QueryKey::FnData(func),
            QueryKey::CallableSig(CallableDef::Function(func)),
        ]
    };
    db.set_file_text(f, b"fn a(int)->int{0}\n".to_vec());
    let func = find_fn(&mut db, f, b"a");
    let _ = db.callable_sig(CallableDef::Function(func));
    let mut last: Vec<u64> = keys(func)
        .into_iter()
        .map(|k| db.cell_changed_at(k).unwrap())
        .collect();
    let edits: Vec<&[u8]> = vec![
        b"fn a(int)->int{1}\n",
        b"fn a(bool)->int{1}\n",
        b"fn a(bool)->int{1}\n",
        b"fn a(bool)->float{1}\nstruct X\n",
    ];
    for text in edits {
        db.set_file_text(f, text.to_vec());
        let _ = db.callable_sig(CallableDef::Function(func));
        let now: Vec<u64> = keys(func)
            .into_iter()
            .map(|k| db.cell_changed_at(k).unwrap())
            .collect();
        for (a, b) in last.iter().zip(now.iter()) {
            assert!(a <= b, "changed-revision moved backwards");
            assert!(*b <= db.current_revision());
        }
        last = now;
    }
}

#[test]
fn interning_stability_across_requery_and_unrelated_edit() {
    let cfg = test_config();
    let mut db = CompilerDatabase::new(&cfg);
    let f = FileId(0);
    db.set_file_text(f, b"struct A(int)\nstruct B(int)\nfn g()\n".to_vec());
    let a1 = find_struct(&mut db, f, b"A");
    let b1 = find_struct(&mut db, f, b"B");
    let g1 = find_fn(&mut db, f, b"g");
    // re-query of an unchanged file: identical stable identifiers
    let a2 = find_struct(&mut db, f, b"A");
    let b2 = find_struct(&mut db, f, b"B");
    assert_eq!(a1, a2);
    assert_eq!(b1, b2);
    // editing one declaration leaves the others' identifiers unchanged
    db.set_file_text(f, b"struct A(int)\nstruct B(float,bool)\nfn g()\n".to_vec());
    let a3 = find_struct(&mut db, f, b"A");
    let b3 = find_struct(&mut db, f, b"B");
    let g3 = find_fn(&mut db, f, b"g");
    assert_eq!(a1, a3);
    assert_eq!(b1, b3);
    assert_eq!(g1, g3);
}

#[test]
fn unchanged_requery_is_cached_at_same_revision() {
    let cfg = test_config();
    let mut db = CompilerDatabase::new(&cfg);
    let f = FileId(0);
    db.set_file_text(f, b"struct A(int)\n".to_vec());
    let s = find_struct(&mut db, f, b"A");
    let t1 = db.type_for_def(TypableDef::Struct(s), Namespace::Types);
    let c1 = db
        .cell_changed_at(QueryKey::TypeForDef(TypableDef::Struct(s), Namespace::Types))
        .unwrap();
    let t2 = db.type_for_def(TypableDef::Struct(s), Namespace::Types);
    let c2 = db
        .cell_changed_at(QueryKey::TypeForDef(TypableDef::Struct(s), Namespace::Types))
        .unwrap();
    assert_eq!(t1, t2);
    assert_eq!(c1, c2);
}

#[test]
fn rewriting_identical_text_changes_nothing_downstream() {
    let cfg = test_config();
    let mut db = CompilerDatabase::new(&cfg);
    let f = FileId(0);
    db.set_file_text(f, b"struct A(int)\n".to_vec());
    let _ = db.item_tree(f);
    let tree_changed = db.cell_changed_at(QueryKey::ItemTree(f)).unwrap();
    let rev_before = db.current_revision();
    db.set_file_text(f, b"struct A(int)\n".to_vec());
    let _ = db.item_tree(f);
    assert_eq!(db.current_revision(), rev_before + 1);
    // the text input changed revision moved, but the parse result was equal,
    // so the cutoff kept the item tree's changed-revision in place
    assert_eq!(db.cell_changed_at(QueryKey::ItemTree(f)).unwrap(), tree_changed);
}
