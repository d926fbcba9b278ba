use vstd::prelude::*;

verus! {

/// A source anchor: the line of a declaration and a byte range within that line.
#[derive(Clone, Copy, PartialEq, Eq, Structural, Debug)]
pub struct Span {
    pub line: usize,
    pub start: usize,
    pub len: usize,
}

/// A syntactic occurrence of a type annotation, before semantic resolution.
#[derive(Debug)]
pub enum TypeRef {
    /// A dotted/plain name that must be resolved in scope.
    Path(Vec<u8>),
    /// An unparseable annotation; lowers to the unknown type without a diagnostic.
    Error,
    /// The explicit empty/unit marker `()`.
    Empty,
    /// The explicit never marker `!`.
    Never,
}

/// A struct's fields' data (record, tuple, or unit struct).
#[derive(Clone, Copy, PartialEq, Eq, Structural, Debug)]
pub enum StructKind {
    Record,
    Tuple,
    Unit,
}

impl StructKind {
    /// The kind rendered as a word, for messages.
    pub fn describe(self) -> (r: Vec<u8>)
        ensures
            r@ == match self {
                StructKind::Record => seq![114u8, 101u8, 99u8, 111u8, 114u8, 100u8],
                StructKind::Tuple => seq![116u8, 117u8, 112u8, 108u8, 101u8],
                StructKind::Unit => seq![
                    117u8, 110u8, 105u8, 116u8, 32u8, 115u8, 116u8, 114u8, 117u8, 99u8, 116u8,
                ],
            },
    {
        let mut v: Vec<u8> = Vec::new();
        match self {
            StructKind::Record => {
                v.push(114u8);
                v.push(101u8);
                v.push(99u8);
                v.push(111u8);
                v.push(114u8);
                v.push(100u8);
                proof {
                    assert(v@ =~= seq![114u8, 101u8, 99u8, 111u8, 114u8, 100u8]);
                }
            },
            StructKind::Tuple => {
                v.push(116u8);
                v.push(117u8);
                v.push(112u8);
                v.push(108u8);
                v.push(101u8);
                proof {
                    assert(v@ =~= seq![116u8, 117u8, 112u8, 108u8, 101u8]);
                }
            },
            StructKind::Unit => {
                v.push(117u8);
                v.push(110u8);
                v.push(105u8);
                v.push(116u8);
                v.push(32u8);
                v.push(115u8);
                v.push(116u8);
                v.push(114u8);
                v.push(117u8);
                v.push(99u8);
                v.push(116u8);
                proof {
                    assert(v@ =~= seq![
                        117u8, 110u8, 105u8, 116u8, 32u8, 115u8, 116u8, 114u8, 117u8, 99u8, 116u8,
                    ]);
                }
            },
        }
        v
    }
}

/// One field or parameter as parsed: a name (empty for positional entries),
/// the syntactic type annotation, and the annotation's source anchor.
#[derive(Debug)]
pub struct RawField {
    pub name: Vec<u8>,
    pub type_ref: TypeRef,
    pub span: Span,
}

/// A top-level declaration as parsed from one line of source text.
#[derive(Debug)]
pub enum Item {
    StructItem { name: Vec<u8>, kind: StructKind, fields: Vec<RawField>, span: Span },
    AliasItem { name: Vec<u8>, type_ref: TypeRef, ty_span: Span, span: Span },
    FnItem {
        name: Vec<u8>,
        is_extern: bool,
        params: Vec<RawField>,
        ret: TypeRef,
        ret_span: Span,
        has_body: bool,
        span: Span,
    },
    /// An error-recovered line: parsing is total and never fails.
    ErrorItem { span: Span },
}

/// The parsed form of one file: one item per nonempty line, error lines included.
#[derive(Debug)]
pub struct SourceFile {
    pub items: Vec<Item>,
}

// ---------------------------------------------------------------------------
// Structural equality at the specification level, over views.
// ---------------------------------------------------------------------------

pub open spec fn tr_eq(a: TypeRef, b: TypeRef) -> bool {
    match (a, b) {
        (TypeRef::Path(x), TypeRef::Path(y)) => x@ == y@,
        (TypeRef::Error, TypeRef::Error) => true,
        (TypeRef::Empty, TypeRef::Empty) => true,
        (TypeRef::Never, TypeRef::Never) => true,
        _ => false,
    }
}

pub open spec fn field_eq(a: RawField, b: RawField) -> bool {
    a.name@ == b.name@ && tr_eq(a.type_ref, b.type_ref) && a.span == b.span
}

pub open spec fn fields_eq(a: Seq<RawField>, b: Seq<RawField>) -> bool {
    a.len() == b.len() && forall|i: int| 0 <= i < a.len() ==> field_eq(a[i], b[i])
}

pub open spec fn item_eq(a: Item, b: Item) -> bool {
    match (a, b) {
        (
            Item::StructItem { name: n1, kind: k1, fields: f1, span: s1 },
            Item::StructItem { name: n2, kind: k2, fields: f2, span: s2 },
        ) => n1@ == n2@ && k1 == k2 && fields_eq(f1@, f2@) && s1 == s2,
        (
            Item::AliasItem { name: n1, type_ref: t1, ty_span: ts1, span: s1 },
            Item::AliasItem { name: n2, type_ref: t2, ty_span: ts2, span: s2 },
        ) => n1@ == n2@ && tr_eq(t1, t2) && ts1 == ts2 && s1 == s2,
        (
            Item::FnItem {
                name: n1, is_extern: e1, params: p1, ret: r1, ret_span: rs1, has_body: b1, span: s1,
            },
            Item::FnItem {
                name: n2, is_extern: e2, params: p2, ret: r2, ret_span: rs2, has_body: b2, span: s2,
            },
        ) => n1@ == n2@ && e1 == e2 && fields_eq(p1@, p2@) && tr_eq(r1, r2) && rs1 == rs2
            && b1 == b2 && s1 == s2,
        (Item::ErrorItem { span: s1 }, Item::ErrorItem { span: s2 }) => s1 == s2,
        _ => false,
    }
}

pub open spec fn items_eq(a: Seq<Item>, b: Seq<Item>) -> bool {
    a.len() == b.len() && forall|i: int| 0 <= i < a.len() ==> item_eq(a[i], b[i])
}

pub proof fn lemma_tr_eq_refl(a: TypeRef)
    ensures
        tr_eq(a, a),
{
}

pub proof fn lemma_tr_eq_sym(a: TypeRef, b: TypeRef)
    requires
        tr_eq(a, b),
    ensures
        tr_eq(b, a),
{
}

pub proof fn lemma_tr_eq_trans(a: TypeRef, b: TypeRef, c: TypeRef)
    requires
        tr_eq(a, b),
        tr_eq(b, c),
    ensures
        tr_eq(a, c),
{
}

pub proof fn lemma_fields_eq_trans(a: Seq<RawField>, b: Seq<RawField>, c: Seq<RawField>)
    requires
        fields_eq(a, b),
        fields_eq(b, c),
    ensures
        fields_eq(a, c),
{
    assert forall|i: int| 0 <= i < a.len() implies field_eq(a[i], c[i]) by {
        assert(field_eq(a[i], b[i]));
        assert(field_eq(b[i], c[i]));
        lemma_tr_eq_trans(a[i].type_ref, b[i].type_ref, c[i].type_ref);
    }
}

pub proof fn lemma_item_eq_trans(a: Item, b: Item, c: Item)
    requires
        item_eq(a, b),
        item_eq(b, c),
    ensures
        item_eq(a, c),
{
    match (a, b, c) {
        (
            Item::StructItem { fields: f1, .. },
            Item::StructItem { fields: f2, .. },
            Item::StructItem { fields: f3, .. },
        ) => {
            lemma_fields_eq_trans(f1@, f2@, f3@);
        },
        (
            Item::AliasItem { type_ref: t1, .. },
            Item::AliasItem { type_ref: t2, .. },
            Item::AliasItem { type_ref: t3, .. },
        ) => {
            lemma_tr_eq_trans(t1, t2, t3);
        },
        (
            Item::FnItem { params: p1, ret: r1, .. },
            Item::FnItem { params: p2, ret: r2, .. },
            Item::FnItem { params: p3, ret: r3, .. },
        ) => {
            lemma_fields_eq_trans(p1@, p2@, p3@);
            lemma_tr_eq_trans(r1, r2, r3);
        },
        _ => {},
    }
}

pub proof fn lemma_item_eq_refl(a: Item)
    ensures
        item_eq(a, a),
{
}

pub proof fn lemma_items_eq_refl(a: Seq<Item>)
    ensures
        items_eq(a, a),
{
    assert forall|i: int| 0 <= i < a.len() implies item_eq(a[i], a[i]) by {
        lemma_item_eq_refl(a[i]);
    }
}

// ---------------------------------------------------------------------------
// Executable deep equality and deep clone.
// ---------------------------------------------------------------------------

/// Byte-sequence equality, element by element.
pub fn bytes_eq(a: &Vec<u8>, b: &Vec<u8>) -> (r: bool)
    ensures
        r == (a@ == b@),
{
    if a.len() != b.len() {
        assert(a@ != b@);
        return false;
    }
    let mut i: usize = 0;
    while i < a.len()
        invariant
            0 <= i <= a.len(),
            a.len() == b.len(),
            forall|j: int| 0 <= j < i ==> a@[j] == b@[j],
        decreases a.len() - i,
    {
        if a[i] != b[i] {
            return false;
        }
        i += 1;
    }
    proof {
        assert(a@ =~= b@);
    }
    true
}

pub fn bytes_clone(a: &Vec<u8>) -> (r: Vec<u8>)
    ensures
        r@ == a@,
{
    let mut out: Vec<u8> = Vec::new();
    let mut i: usize = 0;
    while i < a.len()
        invariant
            0 <= i <= a.len(),
            out@ =~= a@.take(i as int),
        decreases a.len() - i,
    {
        out.push(a[i]);
        i += 1;
    }
    proof {
        assert(out@ =~= a@);
    }
    out
}

pub fn tr_eq_exec(a: &TypeRef, b: &TypeRef) -> (r: bool)
    ensures
        r == tr_eq(*a, *b),
{
    match (a, b) {
        (TypeRef::Path(x), TypeRef::Path(y)) => bytes_eq(x, y),
        (TypeRef::Error, TypeRef::Error) => true,
        (TypeRef::Empty, TypeRef::Empty) => true,
        (TypeRef::Never, TypeRef::Never) => true,
        _ => false,
    }
}

pub fn tr_clone(a: &TypeRef) -> (r: TypeRef)
    ensures
        tr_eq(r, *a),
{
    match a {
        TypeRef::Path(x) => TypeRef::Path(bytes_clone(x)),
        TypeRef::Error => TypeRef::Error,
        TypeRef::Empty => TypeRef::Empty,
        TypeRef::Never => TypeRef::Never,
    }
}

pub fn field_eq_exec(a: &RawField, b: &RawField) -> (r: bool)
    ensures
        r == field_eq(*a, *b),
{
    bytes_eq(&a.name, &b.name) && tr_eq_exec(&a.type_ref, &b.type_ref) && a.span == b.span
}

pub fn field_clone(a: &RawField) -> (r: RawField)
    ensures
        field_eq(r, *a),
{
    RawField { name: bytes_clone(&a.name), type_ref: tr_clone(&a.type_ref), span: a.span }
}

pub fn fields_eq_exec(a: &Vec<RawField>, b: &Vec<RawField>) -> (r: bool)
    ensures
        r == fields_eq(a@, b@),
{
    if a.len() != b.len() {
        return false;
    }
    let mut i: usize = 0;
    while i < a.len()
        invariant
            0 <= i <= a.len(),
            a.len() == b.len(),
            forall|j: int| 0 <= j < i ==> field_eq(a@[j], b@[j]),
        decreases a.len() - i,
    {
        if !field_eq_exec(&a[i], &b[i]) {
            return false;
        }
        i += 1;
    }
    true
}

pub fn fields_clone(a: &Vec<RawField>) -> (r: Vec<RawField>)
    ensures
        fields_eq(r@, a@),
{
    let mut out: Vec<RawField> = Vec::new();
    let mut i: usize = 0;
    while i < a.len()
        invariant
            0 <= i <= a.len(),
            out@.len() == i,
            forall|j: int| 0 <= j < i ==> field_eq(out@[j], a@[j]),
        decreases a.len() - i,
    {
        out.push(field_clone(&a[i]));
        i += 1;
    }
    out
}

pub fn item_eq_exec(a: &Item, b: &Item) -> (r: bool)
    ensures
        r == item_eq(*a, *b),
{
    match (a, b) {
        (
            Item::StructItem { name: n1, kind: k1, fields: f1, span: s1 },
            Item::StructItem { name: n2, kind: k2, fields: f2, span: s2 },
        ) => bytes_eq(n1, n2) && k1 == k2 && fields_eq_exec(f1, f2) && s1 == s2,
        (
            Item::AliasItem { name: n1, type_ref: t1, ty_span: ts1, span: s1 },
            Item::AliasItem { name: n2, type_ref: t2, ty_span: ts2, span: s2 },
        ) => bytes_eq(n1, n2) && tr_eq_exec(t1, t2) && ts1 == ts2 && s1 == s2,
        (
            Item::FnItem {
                name: n1, is_extern: e1, params: p1, ret: r1, ret_span: rs1, has_body: b1, span: s1,
            },
            Item::FnItem {
                name: n2, is_extern: e2, params: p2, ret: r2, ret_span: rs2, has_body: b2, span: s2,
            },
        ) => bytes_eq(n1, n2) && e1 == e2 && fields_eq_exec(p1, p2) && tr_eq_exec(r1, r2)
            && rs1 == rs2 && b1 == b2 && s1 == s2,
        (Item::ErrorItem { span: s1 }, Item::ErrorItem { span: s2 }) => s1 == s2,
        _ => false,
    }
}

pub fn item_clone(a: &Item) -> (r: Item)
    ensures
        item_eq(r, *a),
{
    match a {
        Item::StructItem { name, kind, fields, span } => Item::StructItem {
            name: bytes_clone(name),
            kind: *kind,
            fields: fields_clone(fields),
            span: *span,
        },
        Item::AliasItem { name, type_ref, ty_span, span } => Item::AliasItem {
            name: bytes_clone(name),
            type_ref: tr_clone(type_ref),
            ty_span: *ty_span,
            span: *span,
        },
        Item::FnItem { name, is_extern, params, ret, ret_span, has_body, span } => Item::FnItem {
            name: bytes_clone(name),
            is_extern: *is_extern,
            params: fields_clone(params),
            ret: tr_clone(ret),
            ret_span: *ret_span,
            has_body: *has_body,
            span: *span,
        },
        Item::ErrorItem { span } => Item::ErrorItem { span: *span },
    }
}

pub fn items_eq_exec(a: &Vec<Item>, b: &Vec<Item>) -> (r: bool)
    ensures
        r == items_eq(a@, b@),
{
    if a.len() != b.len() {
        return false;
    }
    let mut i: usize = 0;
    while i < a.len()
        invariant
            0 <= i <= a.len(),
            a.len() == b.len(),
            forall|j: int| 0 <= j < i ==> item_eq(a@[j], b@[j]),
        decreases a.len() - i,
    {
        if !item_eq_exec(&a[i], &b[i]) {
            return false;
        }
        i += 1;
    }
    true
}

pub fn items_clone(a: &Vec<Item>) -> (r: Vec<Item>)
    ensures
        items_eq(r@, a@),
{
    let mut out: Vec<Item> = Vec::new();
    let mut i: usize = 0;
    while i < a.len()
        invariant
            0 <= i <= a.len(),
            out@.len() == i,
            forall|j: int| 0 <= j < i ==> item_eq(out@[j], a@[j]),
        decreases a.len() - i,
    {
        out.push(item_clone(&a[i]));
        i += 1;
    }
    out
}

} // verus!
