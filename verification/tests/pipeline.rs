use mun_core::backend::{Config, LinkerFlavor, OptimizationLevel, TargetSpec};
use mun_core::db::CompilerDatabase;
use mun_core::defs::ScopeDef;
use mun_core::ids::{CallableDef, FileId, Namespace, StructId, TypableDef, TypeAliasId};
use mun_core::parser::parse;
use mun_core::syntax::{Item, StructKind, TypeRef};
use mun_core::ty::{LowerDiagnostic, Ty};

fn test_config() -> Config {
    Config {
        target: TargetSpec {
            triple: b"x86_64-unknown-linux-gnu".to_vec(),
            cpu: b"generic".to_vec(),
            features: b"".to_vec(),
            arch: b"x86_64".to_vec(),
            linker_flavor: LinkerFlavor::Ld,
        },
        optimization_lvl: OptimizationLevel::Standard,
    }
}

fn find_struct(db: &mut CompilerDatabase, file: FileId, name: &[u8]) -> StructId {
    let scope = db.module_scope(file);
    for e in scope.entries.iter() {
        if e.name == name {
            if let ScopeDef::Struct(s) = e.def {
                return s;
            }
        }
    }
    panic!("struct not found");
}

fn find_alias(db: &mut CompilerDatabase, file: FileId, name: &[u8]) -> TypeAliasId {
    let scope = db.module_scope(file);
    for e in scope.entries.iter() {
        if e.name == name {
            if let ScopeDef::TypeAlias(a) = e.def {
                return a;
            }
        }
    }
    panic!("alias not found");
}

#[test]
fn parse_struct_forms() {
    let sf = parse(&b"struct U\nstruct T(int,float)\nstruct R{a:int,b:bool}\n".to_vec());
    assert_eq!(sf.items.len(), 3);
    match &sf.items[0] {
        Item::StructItem { name, kind, fields, .. } => {
            assert_eq!(name, b"U");
            assert_eq!(*kind, StructKind::Unit);
            assert_eq!(fields.len(), 0);
        }
        _ => panic!("expected unit struct"),
    }
    match &sf.items[1] {
        Item::StructItem { name, kind, fields, .. } => {
            assert_eq!(name, b"T");
            assert_eq!(*kind, StructKind::Tuple);
            assert_eq!(fields.len(), 2);
            assert!(matches!(&fields[0].type_ref, TypeRef::Path(p) if p == b"int"));
            assert!(matches!(&fields[1].type_ref, TypeRef::Path(p) if p == b"float"));
        }
        _ => panic!("expected tuple struct"),
    }
    match &sf.items[2] {
        Item::StructItem { name, kind, fields, .. } => {
            assert_eq!(name, b"R");
            assert_eq!(*kind, StructKind::Record);
            assert_eq!(fields.len(), 2);
            assert_eq!(fields[0].name, b"a");
            assert_eq!(fields[1].name, b"b");
        }
        _ => panic!("expected record struct"),
    }
}

#[test]
fn parse_is_total_on_garbage() {
    let sf = parse(&b"???\nstruct \nfn (int)\n".to_vec());
    assert_eq!(sf.items.len(), 3);
    for item in sf.items.iter() {
        assert!(matches!(item, Item::ErrorItem { .. }));
    }
}

#[test]
fn parse_fn_forms() {
    let sf = parse(&b"fn f(int,bool)->float{body}\nextern fn g(int)\n".to_vec());
    match &sf.items[0] {
        Item::FnItem { name, is_extern, params, ret, has_body, .. } => {
            assert_eq!(name, b"f");
            assert!(!is_extern);
            assert_eq!(params.len(), 2);
            assert!(matches!(ret, TypeRef::Path(p) if p == b"float"));
            assert!(*has_body);
        }
        _ => panic!("expected fn"),
    }
    match &sf.items[1] {
        Item::FnItem { name, is_extern, params, ret, has_body, .. } => {
            assert_eq!(name, b"g");
            assert!(*is_extern);
            assert_eq!(params.len(), 1);
            assert!(matches!(ret, TypeRef::Empty));
            assert!(!*has_body);
        }
        _ => panic!("expected extern fn"),
    }
}

#[test]
fn tuple_struct_constructor_types() {
    // the two namespaces of `struct Foo(int)`: a type, and a constructor function
    let cfg = test_config();
    let mut db = CompilerDatabase::new(&cfg);
    let f = FileId(0);
    db.set_file_text(f, b"struct Foo(int)\n".to_vec());
    let foo = find_struct(&mut db, f, b"Foo");
    let (tv, cv) = db.type_for_def(TypableDef::Struct(foo), Namespace::Values);
    assert_eq!(tv, Ty::FnDef(CallableDef::Struct(foo)));
    assert!(!cv);
    let (tt, ct) = db.type_for_def(TypableDef::Struct(foo), Namespace::Types);
    assert_eq!(tt, Ty::Struct(foo));
    assert!(!ct);
    // the constructor's signature is (int) -> Foo
    let sig = db.callable_sig(CallableDef::Struct(foo));
    assert_eq!(sig.params, vec![Ty::Int]);
    assert_eq!(sig.ret, Ty::Struct(foo));
}

#[test]
fn record_struct_value_type_is_itself() {
    let cfg = test_config();
    let mut db = CompilerDatabase::new(&cfg);
    let f = FileId(0);
    db.set_file_text(f, b"struct R{a:int}\n".to_vec());
    let r = find_struct(&mut db, f, b"R");
    let (tv, _) = db.type_for_def(TypableDef::Struct(r), Namespace::Values);
    assert_eq!(tv, Ty::Struct(r));
}

#[test]
fn self_referential_alias_recovers_with_one_diagnostic() {
    let cfg = test_config();
    let mut db = CompilerDatabase::new(&cfg);
    let f = FileId(0);
    db.set_file_text(f, b"type A=A\n".to_vec());
    let a = find_alias(&mut db, f, b"A");
    let (t, cyc) = db.type_for_def(TypableDef::TypeAlias(a), Namespace::Types);
    assert_eq!(t, Ty::Unknown);
    assert!(cyc);
    let lowered = db.lower_type_alias(a);
    assert_eq!(lowered.diagnostics.len(), 1);
    assert!(matches!(lowered.diagnostics[0], LowerDiagnostic::CyclicType { id: 0 }));
    assert_eq!(lowered.get(0), Ty::Unknown);
}

#[test]
fn mutual_alias_pair_recovers_with_one_diagnostic_each() {
    let cfg = test_config();
    let mut db = CompilerDatabase::new(&cfg);
    let f = FileId(0);
    db.set_file_text(f, b"type A=B\ntype B=A\n".to_vec());
    let a = find_alias(&mut db, f, b"A");
    let b = find_alias(&mut db, f, b"B");
    let (ta, ca) = db.type_for_def(TypableDef::TypeAlias(a), Namespace::Types);
    let (tb, cb) = db.type_for_def(TypableDef::TypeAlias(b), Namespace::Types);
    assert_eq!(ta, Ty::Unknown);
    assert_eq!(tb, Ty::Unknown);
    assert!(ca);
    assert!(cb);
    let la = db.lower_type_alias(a);
    assert_eq!(la.diagnostics.len(), 1);
    assert!(matches!(la.diagnostics[0], LowerDiagnostic::CyclicType { id: 0 }));
    let lb = db.lower_type_alias(b);
    assert_eq!(lb.diagnostics.len(), 1);
    assert!(matches!(lb.diagnostics[0], LowerDiagnostic::CyclicType { id: 0 }));
}

#[test]
fn alias_chain_resolves_through() {
    let cfg = test_config();
    let mut db = CompilerDatabase::new(&cfg);
    let f = FileId(0);
    db.set_file_text(f, b"struct S\ntype A=B\ntype B=S\n".to_vec());
    let s = find_struct(&mut db, f, b"S");
    let a = find_alias(&mut db, f, b"A");
    let (t, cyc) = db.type_for_def(TypableDef::TypeAlias(a), Namespace::Types);
    assert_eq!(t, Ty::Struct(s));
    assert!(!cyc);
    let la = db.lower_type_alias(a);
    assert_eq!(la.diagnostics.len(), 0);
}

#[test]
fn unresolved_name_gets_a_diagnostic() {
    let cfg = test_config();
    let mut db = CompilerDatabase::new(&cfg);
    let f = FileId(0);
    db.set_file_text(f, b"type A=Missing\n".to_vec());
    let a = find_alias(&mut db, f, b"A");
    let lowered = db.lower_type_alias(a);
    assert_eq!(lowered.diagnostics.len(), 1);
    assert!(matches!(lowered.diagnostics[0], LowerDiagnostic::UnresolvedType { id: 0 }));
    assert_eq!(lowered.get(0), Ty::Unknown);
}

#[test]
fn builtin_alias_and_markers() {
    let cfg = test_config();
    let mut db = CompilerDatabase::new(&cfg);
    let f = FileId(0);
    db.set_file_text(f, b"type A=int\ntype E=()\ntype N=!\n".to_vec());
    let a = find_alias(&mut db, f, b"A");
    let e = find_alias(&mut db, f, b"E");
    let n = find_alias(&mut db, f, b"N");
    assert_eq!(db.type_for_def(TypableDef::TypeAlias(a), Namespace::Types).0, Ty::Int);
    assert_eq!(db.type_for_def(TypableDef::TypeAlias(e), Namespace::Types).0, Ty::Empty);
    assert_eq!(db.type_for_def(TypableDef::TypeAlias(n), Namespace::Types).0, Ty::Never);
}

#[test]
fn fn_signature_lowers_all_annotations() {
    let cfg = test_config();
    let mut db = CompilerDatabase::new(&cfg);
    let f = FileId(0);
    db.set_file_text(f, b"struct S\nfn h(int,S,bool)->S{x}\n".to_vec());
    let s = find_struct(&mut db, f, b"S");
    let scope = db.module_scope(f);
    let mut func = None;
    for e in scope.entries.iter() {
        if let ScopeDef::Function(g) = e.def {
            func = Some(g);
        }
    }
    let func = func.unwrap();
    let sig = db.callable_sig(CallableDef::Function(func));
    assert_eq!(sig.params, vec![Ty::Int, Ty::Struct(s), Ty::Bool]);
    assert_eq!(sig.ret, Ty::Struct(s));
}

#[test]
fn tuple_fields_are_named_by_position() {
    let cfg = test_config();
    let mut db = CompilerDatabase::new(&cfg);
    let f = FileId(0);
    db.set_file_text(f, b"struct T(int,bool,float)\nstruct R{a:int}\n".to_vec());
    let t = find_struct(&mut db, f, b"T");
    let sd = db.struct_data(t);
    assert_eq!(sd.fields.len(), 3);
    assert_eq!(sd.fields[0].name, b"0");
    assert_eq!(sd.fields[1].name, b"1");
    assert_eq!(sd.fields[2].name, b"2");
    let r = find_struct(&mut db, f, b"R");
    let rd = db.struct_data(r);
    assert_eq!(rd.fields[0].name, b"a");
}

#[test]
fn lower_struct_fields() {
    let cfg = test_config();
    let mut db = CompilerDatabase::new(&cfg);
    let f = FileId(0);
    db.set_file_text(f, b"struct P{x:float,y:Nope}\n".to_vec());
    let p = find_struct(&mut db, f, b"P");
    let lowered = db.lower_struct(p);
    assert_eq!(lowered.get(0), Ty::Float);
    assert_eq!(lowered.get(1), Ty::Unknown);
    assert_eq!(lowered.diagnostics.len(), 1);
    assert!(matches!(lowered.diagnostics[0], LowerDiagnostic::UnresolvedType { id: 1 }));
}
