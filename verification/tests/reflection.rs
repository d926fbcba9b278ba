use mun_core::reflection::{
    equals_argument_type, equals_return_type, type_guid, Guid, TypeGroup, TypeInfo,
};

#[test]
fn type_guid_is_the_md5_of_the_name() {
    let g = type_guid(&b"core::empty".to_vec());
    assert_eq!(g.b.len(), 16);
    let expected = md5::compute(b"core::empty").0.to_vec();
    assert_eq!(g.b, expected);
    // and it is not the name handed back
    assert_ne!(g.b, b"core::empty".to_vec());
}

#[test]
fn equal_names_share_a_guid_and_different_names_do_not() {
    let a = type_guid(&b"int".to_vec());
    let b = type_guid(&b"int".to_vec());
    let c = type_guid(&b"float".to_vec());
    assert_eq!(a.b, b.b);
    assert_ne!(a.b, c.b);
}

#[test]
fn argument_type_matches_by_guid() {
    let info = TypeInfo {
        name: b"int".to_vec(),
        guid: type_guid(&b"int".to_vec()),
        group: TypeGroup::FundamentalTypes,
    };
    assert!(equals_argument_type(&info, &type_guid(&b"int".to_vec()), &b"int".to_vec()).is_ok());
    let err = equals_argument_type(&info, &type_guid(&b"float".to_vec()), &b"float".to_vec());
    let (want, got) = err.unwrap_err();
    assert_eq!(want, b"int".to_vec());
    assert_eq!(got, b"float".to_vec());
}

#[test]
fn return_type_matches_fundamental_by_own_guid() {
    let info = TypeInfo {
        name: b"bool".to_vec(),
        guid: type_guid(&b"bool".to_vec()),
        group: TypeGroup::FundamentalTypes,
    };
    let struct_ref = type_guid(&b"struct-ref".to_vec());
    assert!(
        equals_return_type(&info, &type_guid(&b"bool".to_vec()), &b"bool".to_vec(), &struct_ref)
            .is_ok()
    );
    let err = equals_return_type(
        &info,
        &type_guid(&b"int".to_vec()),
        &b"int".to_vec(),
        &struct_ref,
    );
    let (want, got) = err.unwrap_err();
    assert_eq!(want, b"bool".to_vec());
    assert_eq!(got, b"int".to_vec());
}

#[test]
fn return_type_matches_structs_by_struct_reference_guid() {
    let info = TypeInfo {
        name: b"Foo".to_vec(),
        guid: type_guid(&b"Foo".to_vec()),
        group: TypeGroup::StructTypes,
    };
    let struct_ref = type_guid(&b"struct-ref".to_vec());
    assert!(
        equals_return_type(
            &info,
            &type_guid(&b"struct-ref".to_vec()),
            &b"struct-ref".to_vec(),
            &struct_ref
        )
        .is_ok()
    );
    let err = equals_return_type(
        &info,
        &type_guid(&b"i64".to_vec()),
        &b"i64".to_vec(),
        &struct_ref,
    );
    let (want, got) = err.unwrap_err();
    assert_eq!(want, b"struct".to_vec());
    assert_eq!(got, b"i64".to_vec());
}

#[test]
fn guid_struct_holds_its_bytes() {
    let g = Guid { b: vec![0u8; 16] };
    assert_eq!(g.b.len(), 16);
}
