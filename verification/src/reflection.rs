use vstd::prelude::*;
use crate::syntax::{bytes_clone, bytes_eq};

verus! {

/// The digest that the content-derived type identity is built from: a pure
/// function of the hashed bytes alone, the same in every process and on
/// every machine.
pub uninterp spec fn digest_of(data: Seq<u8>) -> Seq<u8>;

/// Relies on md5::compute: the digest is a function of the input bytes alone
/// and is always sixteen bytes long.
#[verifier::external_body]
fn md5_digest(data: &Vec<u8>) -> (r: Vec<u8>)
    ensures
        r@ == digest_of(data@),
        r@.len() == 16,
{
    md5::compute(data.as_slice()).0.to_vec()
}

/// A content-derived type identity: the digest of the type's name, used to
/// match type identities across compilation units.
#[derive(Debug)]
pub struct Guid {
    pub b: Vec<u8>,
}

/// Whether a type is a fundamental type or a struct type.
#[derive(Clone, Copy, PartialEq, Eq, Structural, Debug)]
pub enum TypeGroup {
    FundamentalTypes,
    StructTypes,
}

/// A compiled artifact's view of one type: its name, its identity, and which
/// group it belongs to.
#[derive(Debug)]
pub struct TypeInfo {
    pub name: Vec<u8>,
    pub guid: Guid,
    pub group: TypeGroup,
}

/// The identity of a type name.
pub fn type_guid(name: &Vec<u8>) -> (g: Guid)
    ensures
        g.b@ == digest_of(name@),
        g.b@.len() == 16,
{
    Guid { b: md5_digest(name) }
}

/// Whether the specified argument's type matches the `type_info`: success
/// exactly when the identities agree, else the pair of names to report.
pub fn equals_argument_type(type_info: &TypeInfo, arg_guid: &Guid, arg_name: &Vec<u8>) -> (r:
    Result<(), (Vec<u8>, Vec<u8>)>)
    ensures
        match r {
            Ok(u) => type_info.guid.b@ == arg_guid.b@,
            Err(p) => type_info.guid.b@ != arg_guid.b@ && p.0@ == type_info.name@ && p.1@
                == arg_name@,
        },
{
    if bytes_eq(&type_info.guid.b, &arg_guid.b) {
        Ok(())
    } else {
        Err((bytes_clone(&type_info.name), bytes_clone(arg_name)))
    }
}

pub open spec fn struct_word() -> Seq<u8> {
    seq![115u8, 116u8, 114u8, 117u8, 99u8, 116u8]
}

fn struct_word_vec() -> (r: Vec<u8>)
    ensures
        r@ == struct_word(),
{
    let mut v: Vec<u8> = Vec::new();
    v.push(115u8);
    v.push(116u8);
    v.push(114u8);
    v.push(117u8);
    v.push(99u8);
    v.push(116u8);
    proof {
        assert(v@ =~= struct_word());
    }
    v
}

/// Whether the specified return type matches the `type_info`: a fundamental
/// type is compared by its own identity, a struct type by the generic struct
/// reference's identity, with the names to report on a mismatch.
pub fn equals_return_type(
    type_info: &TypeInfo,
    ret_guid: &Guid,
    ret_name: &Vec<u8>,
    struct_ref_guid: &Guid,
) -> (r: Result<(), (Vec<u8>, Vec<u8>)>)
    ensures
        match r {
            Ok(u) => match type_info.group {
                TypeGroup::FundamentalTypes => type_info.guid.b@ == ret_guid.b@,
                TypeGroup::StructTypes => struct_ref_guid.b@ == ret_guid.b@,
            },
            Err(p) => match type_info.group {
                TypeGroup::FundamentalTypes => type_info.guid.b@ != ret_guid.b@ && p.0@
                    == type_info.name@ && p.1@ == ret_name@,
                TypeGroup::StructTypes => struct_ref_guid.b@ != ret_guid.b@ && p.0@ == struct_word()
                    && p.1@ == ret_name@,
            },
        },
{
    match type_info.group {
        TypeGroup::FundamentalTypes => {
            if bytes_eq(&type_info.guid.b, &ret_guid.b) {
                Ok(())
            } else {
                Err((bytes_clone(&type_info.name), bytes_clone(ret_name)))
            }
        },
        TypeGroup::StructTypes => {
            if bytes_eq(&struct_ref_guid.b, &ret_guid.b) {
                Ok(())
            } else {
                Err((struct_word_vec(), bytes_clone(ret_name)))
            }
        },
    }
}

} // verus!
