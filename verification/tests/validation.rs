use mun_core::backend::{Config, LinkerFlavor, OptimizationLevel, TargetSpec};
use mun_core::db::CompilerDatabase;
use mun_core::defs::ScopeDef;
use mun_core::ids::{FileId, FunctionId, TypeAliasId};
use mun_core::validator::{add_diagnostics, Diagnostic, DiagnosticSink, ExprValidator};

fn test_config() -> Config {
    Config {
        target: TargetSpec {
            triple: b"x86_64-unknown-linux-gnu".to_vec(),
            cpu: b"generic".to_vec(),
            features: b"".to_vec(),
            arch: b"x86_64".to_vec(),
            linker_flavor: LinkerFlavor::Ld,
        },
        optimization_lvl: OptimizationLevel::Standard,
    }
}

fn find_fn(db: &mut CompilerDatabase, file: FileId, name: &[u8]) -> FunctionId {
    let scope = db.module_scope(file);
    for e in scope.entries.iter() {
        if e.name == name {
            if let ScopeDef::Function(f) = e.def {
                return f;
            }
        }
    }
    panic!("function not found");
}

fn find_alias(db: &mut CompilerDatabase, file: FileId, name: &[u8]) -> TypeAliasId {
    let scope = db.module_scope(file);
    for e in scope.entries.iter() {
        if e.name == name {
            if let ScopeDef::TypeAlias(a) = e.def {
                return a;
            }
        }
    }
    panic!("alias not found");
}

#[test]
fn extern_with_body_yields_exactly_one_diagnostic() {
    let cfg = test_config();
    let mut db = CompilerDatabase::new(&cfg);
    let f = FileId(0);
    db.set_file_text(f, b"extern fn f(int)->int{1}\n".to_vec());
    let func = find_fn(&mut db, f, b"f");
    let v = ExprValidator::new(func, &mut db);
    let mut sink = DiagnosticSink::new();
    v.validate_body(&mut sink);
    assert_eq!(sink.len(), 1);
    assert!(matches!(sink.get(0), Diagnostic::ExternCannotHaveBody { .. }));
}

#[test]
fn extern_without_body_is_clean() {
    let cfg = test_config();
    let mut db = CompilerDatabase::new(&cfg);
    let f = FileId(0);
    db.set_file_text(f, b"extern fn f(int)->int\n".to_vec());
    let func = find_fn(&mut db, f, b"f");
    let v = ExprValidator::new(func, &mut db);
    let mut sink = DiagnosticSink::new();
    v.validate_body(&mut sink);
    assert_eq!(sink.len(), 0);
}

#[test]
fn non_extern_with_body_is_clean() {
    let cfg = test_config();
    let mut db = CompilerDatabase::new(&cfg);
    let f = FileId(0);
    db.set_file_text(f, b"struct S\nfn f(S)->S{x}\n".to_vec());
    let func = find_fn(&mut db, f, b"f");
    let v = ExprValidator::new(func, &mut db);
    let mut sink = DiagnosticSink::new();
    v.validate_body(&mut sink);
    assert_eq!(sink.len(), 0);
}

#[test]
fn extern_struct_param_yields_one_diagnostic_per_offender() {
    let cfg = test_config();
    let mut db = CompilerDatabase::new(&cfg);
    let f = FileId(0);
    db.set_file_text(f, b"struct S\nextern fn f(S,int,S)->int\n".to_vec());
    let func = find_fn(&mut db, f, b"f");
    let v = ExprValidator::new(func, &mut db);
    let mut sink = DiagnosticSink::new();
    v.validate_extern(&mut sink);
    assert_eq!(sink.len(), 2);
    assert!(matches!(sink.get(0), Diagnostic::ExternNonPrimitiveParam { .. }));
    assert!(matches!(sink.get(1), Diagnostic::ExternNonPrimitiveParam { .. }));
}

#[test]
fn extern_struct_return_yields_one_diagnostic() {
    let cfg = test_config();
    let mut db = CompilerDatabase::new(&cfg);
    let f = FileId(0);
    db.set_file_text(f, b"struct S\nextern fn f(int)->S\n".to_vec());
    let func = find_fn(&mut db, f, b"f");
    let v = ExprValidator::new(func, &mut db);
    let mut sink = DiagnosticSink::new();
    v.validate_extern(&mut sink);
    assert_eq!(sink.len(), 1);
    assert!(matches!(sink.get(0), Diagnostic::ExternNonPrimitiveParam { .. }));
}

#[test]
fn extern_body_and_struct_types_accumulate_in_order() {
    let cfg = test_config();
    let mut db = CompilerDatabase::new(&cfg);
    let f = FileId(0);
    db.set_file_text(f, b"struct S\nextern fn f(S)->S{x}\n".to_vec());
    let func = find_fn(&mut db, f, b"f");
    let v = ExprValidator::new(func, &mut db);
    let mut sink = DiagnosticSink::new();
    v.validate_extern(&mut sink);
    assert_eq!(sink.len(), 3);
    assert!(matches!(sink.get(0), Diagnostic::ExternCannotHaveBody { .. }));
    assert!(matches!(sink.get(1), Diagnostic::ExternNonPrimitiveParam { .. }));
    assert!(matches!(sink.get(2), Diagnostic::ExternNonPrimitiveParam { .. }));
}

#[test]
fn lowering_diagnostics_are_source_anchored() {
    let cfg = test_config();
    let mut db = CompilerDatabase::new(&cfg);
    let f = FileId(0);
    db.set_file_text(f, b"type A=Missing\n".to_vec());
    let a = find_alias(&mut db, f, b"A");
    let lowered = db.lower_type_alias(a);
    let data = db.type_alias_data(a);
    let mut sink = DiagnosticSink::new();
    add_diagnostics(&lowered, f, data.type_ref_source_map(), &mut sink);
    assert_eq!(sink.len(), 1);
    match sink.get(0) {
        Diagnostic::UnresolvedType { file, anchor } => {
            assert_eq!(file, f);
            // the annotation `Missing` starts after "type A="
            assert_eq!(anchor.line, 0);
            assert_eq!(anchor.start, 7);
            assert_eq!(anchor.len, 7);
        }
        _ => panic!("expected an unresolved-type diagnostic"),
    }
}
