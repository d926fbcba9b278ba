use vstd::prelude::*;

verus! {

/// A handle to one source file, as the caller numbers them.
#[derive(Clone, Copy, PartialEq, Eq, Structural, Debug, Hash)]
pub struct FileId(pub u32);

/// A stable identifier minted by the struct interning table.
#[derive(Clone, Copy, PartialEq, Eq, Structural, Debug, Hash)]
pub struct StructId(pub usize);

/// A stable identifier minted by the function interning table.
#[derive(Clone, Copy, PartialEq, Eq, Structural, Debug, Hash)]
pub struct FunctionId(pub usize);

/// A stable identifier minted by the type-alias interning table.
#[derive(Clone, Copy, PartialEq, Eq, Structural, Debug, Hash)]
pub struct TypeAliasId(pub usize);

/// The structural key of an interned declaration: the defining file and the
/// declaration's position in that file's item tree.
#[derive(Clone, Copy, PartialEq, Eq, Structural, Debug, Hash)]
pub struct ItemLoc {
    pub file: FileId,
    pub index: usize,
}

/// The namespace in which a declared type is requested: a tuple struct names a
/// type in the type namespace and a constructor function in the value namespace.
#[derive(Clone, Copy, PartialEq, Eq, Structural, Debug, Hash)]
pub enum Namespace {
    Types,
    Values,
}

/// A built-in fundamental type.
#[derive(Clone, Copy, PartialEq, Eq, Structural, Debug, Hash)]
pub enum BuiltinType {
    Int,
    Float,
    Bool,
}

/// A declaration that has a declared type in some namespace.
#[derive(Clone, Copy, PartialEq, Eq, Structural, Debug, Hash)]
pub enum TypableDef {
    Function(FunctionId),
    BuiltinType(BuiltinType),
    Struct(StructId),
    TypeAlias(TypeAliasId),
}

/// A declaration that can be called: a function, or a tuple struct's constructor.
#[derive(Clone, Copy, PartialEq, Eq, Structural, Debug, Hash)]
pub enum CallableDef {
    Function(FunctionId),
    Struct(StructId),
}

impl CallableDef {
    /// True exactly when this callable is a function declaration.
    pub fn is_function(self) -> (r: bool)
        ensures
            r == matches!(self, CallableDef::Function(_)),
    {
        matches!(self, CallableDef::Function(_))
    }

    /// True exactly when this callable is a tuple struct's constructor.
    pub fn is_struct(self) -> (r: bool)
        ensures
            r == matches!(self, CallableDef::Struct(_)),
    {
        matches!(self, CallableDef::Struct(_))
    }
}

} // verus!
