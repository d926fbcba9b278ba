use mun_core::backend::{Config, LinkerFlavor, OptimizationLevel, TargetSpec};
use mun_core::db::{CompilerDatabase, InternDatabase, Upcast};
use mun_core::ids::{FileId, ItemLoc};
use mun_core::parser::parse;
use mun_core::syntax::{Item, StructKind, TypeRef};

fn test_config() -> Config {
    Config {
        target: TargetSpec {
            triple: b"x86_64-unknown-linux-gnu".to_vec(),
            cpu: b"generic".to_vec(),
            features: b"".to_vec(),
            arch: b"x86_64".to_vec(),
            linker_flavor: LinkerFlavor::Ld,
        },
        optimization_lvl: OptimizationLevel::Standard,
    }
}

#[test]
fn empty_text_parses_to_no_items() {
    let sf = parse(&Vec::new());
    assert_eq!(sf.items.len(), 0);
}

#[test]
fn empty_lines_are_skipped_but_keep_line_numbers() {
    let sf = parse(&b"struct A\n\nstruct B\n".to_vec());
    assert_eq!(sf.items.len(), 2);
    match &sf.items[0] {
        Item::StructItem { name, span, .. } => {
            assert_eq!(name, b"A");
            assert_eq!(span.line, 0);
        }
        _ => panic!("expected struct"),
    }
    match &sf.items[1] {
        Item::StructItem { name, span, .. } => {
            assert_eq!(name, b"B");
            assert_eq!(span.line, 2);
        }
        _ => panic!("expected struct"),
    }
}

#[test]
fn empty_tuple_struct_has_no_fields() {
    let sf = parse(&b"struct T()\n".to_vec());
    match &sf.items[0] {
        Item::StructItem { kind, fields, .. } => {
            assert_eq!(*kind, StructKind::Tuple);
            assert_eq!(fields.len(), 0);
        }
        _ => panic!("expected tuple struct"),
    }
}

#[test]
fn unterminated_struct_is_error_recovered() {
    let sf = parse(&b"struct A(int\nstruct B\n".to_vec());
    assert_eq!(sf.items.len(), 2);
    assert!(matches!(&sf.items[0], Item::ErrorItem { .. }));
    assert!(matches!(&sf.items[1], Item::StructItem { .. }));
}

#[test]
fn fn_without_return_annotation_returns_empty() {
    let sf = parse(&b"fn f(){x}\n".to_vec());
    match &sf.items[0] {
        Item::FnItem { params, ret, has_body, .. } => {
            assert_eq!(params.len(), 0);
            assert!(matches!(ret, TypeRef::Empty));
            assert!(*has_body);
        }
        _ => panic!("expected fn"),
    }
}

#[test]
fn record_field_without_colon_is_error_typed() {
    let sf = parse(&b"struct R{a}\n".to_vec());
    match &sf.items[0] {
        Item::StructItem { kind, fields, .. } => {
            assert_eq!(*kind, StructKind::Record);
            assert_eq!(fields.len(), 1);
            assert_eq!(fields[0].name, b"");
            assert!(matches!(fields[0].type_ref, TypeRef::Error));
        }
        _ => panic!("expected record struct"),
    }
}

#[test]
fn alias_annotation_span_points_at_the_annotation() {
    let sf = parse(&b"type Long=int\n".to_vec());
    match &sf.items[0] {
        Item::AliasItem { name, type_ref, ty_span, .. } => {
            assert_eq!(name, b"Long");
            assert!(matches!(type_ref, TypeRef::Path(p) if p == b"int"));
            // "type Long=" is ten bytes
            assert_eq!(ty_span.start, 10);
            assert_eq!(ty_span.len, 3);
        }
        _ => panic!("expected alias"),
    }
}

#[test]
fn interning_is_idempotent_through_the_trait() {
    let cfg = test_config();
    let mut db = CompilerDatabase::new(&cfg);
    let loc = ItemLoc { file: FileId(3), index: 7 };
    let a = db.intern_struct(loc);
    let b = db.intern_struct(loc);
    assert_eq!(a, b);
    let other = db.intern_struct(ItemLoc { file: FileId(3), index: 8 });
    assert_ne!(a, other);
    let c = db.intern_struct(loc);
    assert_eq!(a, c);
    // the same structural key in another table is its own identifier space
    let f = db.intern_function(loc);
    let f2 = db.intern_function(loc);
    assert_eq!(f, f2);
    let up: &CompilerDatabase = db.upcast();
    assert_eq!(up.current_revision(), 0);
}

#[test]
fn struct_kind_describes_itself() {
    assert_eq!(StructKind::Record.describe(), b"record".to_vec());
    assert_eq!(StructKind::Tuple.describe(), b"tuple".to_vec());
    assert_eq!(StructKind::Unit.describe(), b"unit struct".to_vec());
}
