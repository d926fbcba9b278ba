use vstd::prelude::*;
use crate::ids::{BuiltinType, FunctionId, StructId, TypeAliasId};
use crate::syntax::{
    bytes_clone, fields_eq, item_eq, items_clone, items_eq, tr_clone, tr_eq, tr_eq_exec, Item,
    Span, StructKind, TypeRef,
};

verus! {

/// The append-only arena of every syntactic type annotation of one declaration.
#[derive(Debug)]
pub struct TypeRefMap {
    pub entries: Vec<TypeRef>,
}

/// The source map from arena index back to the annotation's source anchor.
#[derive(Debug)]
pub struct TypeRefSourceMap {
    pub spans: Vec<Span>,
}

impl TypeRefSourceMap {
    /// The anchor of one type annotation; a zero span for an index the
    /// declaration never allocated.
    pub fn type_ref_span(&self, id: usize) -> (r: Span)
        ensures
            r == if id < self.spans@.len() {
                self.spans@[id as int]
            } else {
                (Span { line: 0, start: 0, len: 0 })
            },
    {
        if id < self.spans.len() {
            self.spans[id]
        } else {
            Span { line: 0, start: 0, len: 0 }
        }
    }
}

/// A single field of a record or tuple struct.
#[derive(Debug)]
pub struct StructFieldData {
    pub name: Vec<u8>,
    pub type_ref: usize,
}

/// A struct declaration's extracted data and its type-annotation arena.
#[derive(Debug)]
pub struct StructData {
    pub name: Vec<u8>,
    pub fields: Vec<StructFieldData>,
    pub kind: StructKind,
    pub type_ref_map: TypeRefMap,
    pub type_ref_source_map: TypeRefSourceMap,
}

impl StructData {
    pub fn type_ref_source_map(&self) -> (r: &TypeRefSourceMap)
        ensures
            r == &self.type_ref_source_map,
    {
        &self.type_ref_source_map
    }

    pub fn type_ref_map(&self) -> (r: &TypeRefMap)
        ensures
            r == &self.type_ref_map,
    {
        &self.type_ref_map
    }
}

/// A type alias declaration's extracted data and its annotation arena.
#[derive(Debug)]
pub struct TypeAliasData {
    pub name: Vec<u8>,
    pub type_ref_id: usize,
    pub type_ref_map: TypeRefMap,
    pub type_ref_source_map: TypeRefSourceMap,
}

impl TypeAliasData {
    pub fn type_ref_source_map(&self) -> (r: &TypeRefSourceMap)
        ensures
            r == &self.type_ref_source_map,
    {
        &self.type_ref_source_map
    }

    pub fn type_ref_map(&self) -> (r: &TypeRefMap)
        ensures
            r == &self.type_ref_map,
    {
        &self.type_ref_map
    }
}

/// A function declaration's extracted data: parameter and return annotations
/// by arena index, without the body.
#[derive(Debug)]
pub struct FnData {
    pub name: Vec<u8>,
    pub is_extern: bool,
    pub params: Vec<usize>,
    pub ret_type: usize,
    pub type_ref_map: TypeRefMap,
    pub type_ref_source_map: TypeRefSourceMap,
}

impl FnData {
    pub fn type_ref_source_map(&self) -> (r: &TypeRefSourceMap)
        ensures
            r == &self.type_ref_source_map,
    {
        &self.type_ref_source_map
    }

    pub fn type_ref_map(&self) -> (r: &TypeRefMap)
        ensures
            r == &self.type_ref_map,
    {
        &self.type_ref_map
    }
}

/// A function's body, reduced to what validation observes: whether the root
/// expression is present or the missing placeholder, and the declaration's
/// source anchor for diagnostics about the body.
#[derive(Clone, Copy, PartialEq, Eq, Structural, Debug)]
pub struct BodyData {
    pub root_missing: bool,
    pub decl_span: Span,
}

/// The per-file item tree: the flat list of top-level declarations, error
/// lines kept in place so positions of the others stay stable.
#[derive(Debug)]
pub struct ItemTree {
    pub items: Vec<Item>,
}

/// A declaration as it appears in a module's scope.
#[derive(Clone, Copy, PartialEq, Eq, Structural, Debug)]
pub enum ScopeDef {
    Struct(StructId),
    Function(FunctionId),
    TypeAlias(TypeAliasId),
    Builtin(BuiltinType),
}

/// One named entry of a module's scope.
#[derive(Debug)]
pub struct ScopeEntry {
    pub name: Vec<u8>,
    pub def: ScopeDef,
}

/// The name-to-declaration mapping used to resolve type references in a file:
/// the file's own declarations first, the built-in types after them.
#[derive(Debug)]
pub struct ModuleScope {
    pub entries: Vec<ScopeEntry>,
}

// ---------------------------------------------------------------------------
// Equality over views, with executable counterparts, for the engine's cutoff.
// ---------------------------------------------------------------------------

pub open spec fn trmap_eq(a: TypeRefMap, b: TypeRefMap) -> bool {
    a.entries@.len() == b.entries@.len() && forall|i: int|
        0 <= i < a.entries@.len() ==> tr_eq(a.entries@[i], b.entries@[i])
}

pub open spec fn srcmap_eq(a: TypeRefSourceMap, b: TypeRefSourceMap) -> bool {
    a.spans@ == b.spans@
}

pub open spec fn sfd_eq(a: StructFieldData, b: StructFieldData) -> bool {
    a.name@ == b.name@ && a.type_ref == b.type_ref
}

pub open spec fn sd_eq(a: StructData, b: StructData) -> bool {
    &&& a.name@ == b.name@
    &&& a.fields@.len() == b.fields@.len()
    &&& forall|i: int| 0 <= i < a.fields@.len() ==> sfd_eq(a.fields@[i], b.fields@[i])
    &&& a.kind == b.kind
    &&& trmap_eq(a.type_ref_map, b.type_ref_map)
    &&& srcmap_eq(a.type_ref_source_map, b.type_ref_source_map)
}

pub open spec fn ad_eq(a: TypeAliasData, b: TypeAliasData) -> bool {
    &&& a.name@ == b.name@
    &&& a.type_ref_id == b.type_ref_id
    &&& trmap_eq(a.type_ref_map, b.type_ref_map)
    &&& srcmap_eq(a.type_ref_source_map, b.type_ref_source_map)
}

pub open spec fn fd_eq(a: FnData, b: FnData) -> bool {
    &&& a.name@ == b.name@
    &&& a.is_extern == b.is_extern
    &&& a.params@ == b.params@
    &&& a.ret_type == b.ret_type
    &&& trmap_eq(a.type_ref_map, b.type_ref_map)
    &&& srcmap_eq(a.type_ref_source_map, b.type_ref_source_map)
}

pub open spec fn tree_eq(a: ItemTree, b: ItemTree) -> bool {
    items_eq(a.items@, b.items@)
}

pub open spec fn scope_entry_eq(a: ScopeEntry, b: ScopeEntry) -> bool {
    a.name@ == b.name@ && a.def == b.def
}

pub open spec fn scope_eq(a: ModuleScope, b: ModuleScope) -> bool {
    a.entries@.len() == b.entries@.len() && forall|i: int|
        0 <= i < a.entries@.len() ==> scope_entry_eq(a.entries@[i], b.entries@[i])
}

pub fn trmap_eq_exec(a: &TypeRefMap, b: &TypeRefMap) -> (r: bool)
    ensures
        r == trmap_eq(*a, *b),
{
    if a.entries.len() != b.entries.len() {
        return false;
    }
    let mut i: usize = 0;
    while i < a.entries.len()
        invariant
            0 <= i <= a.entries@.len(),
            a.entries@.len() == b.entries@.len(),
            forall|j: int| 0 <= j < i ==> tr_eq(a.entries@[j], b.entries@[j]),
        decreases a.entries@.len() - i,
    {
        if !tr_eq_exec(&a.entries[i], &b.entries[i]) {
            return false;
        }
        i += 1;
    }
    true
}

pub fn srcmap_eq_exec(a: &TypeRefSourceMap, b: &TypeRefSourceMap) -> (r: bool)
    ensures
        r == srcmap_eq(*a, *b),
{
    if a.spans.len() != b.spans.len() {
        return false;
    }
    let mut i: usize = 0;
    while i < a.spans.len()
        invariant
            0 <= i <= a.spans@.len(),
            a.spans@.len() == b.spans@.len(),
            forall|j: int| 0 <= j < i ==> a.spans@[j] == b.spans@[j],
        decreases a.spans@.len() - i,
    {
        if a.spans[i] != b.spans[i] {
            return false;
        }
        i += 1;
    }
    proof {
        assert(a.spans@ =~= b.spans@);
    }
    true
}

pub fn usizes_eq_exec(a: &Vec<usize>, b: &Vec<usize>) -> (r: bool)
    ensures
        r == (a@ == b@),
{
    if a.len() != b.len() {
        assert(a@ != b@);
        return false;
    }
    let mut i: usize = 0;
    while i < a.len()
        invariant
            0 <= i <= a@.len(),
            a@.len() == b@.len(),
            forall|j: int| 0 <= j < i ==> a@[j] == b@[j],
        decreases a@.len() - i,
    {
        if a[i] != b[i] {
            return false;
        }
        i += 1;
    }
    proof {
        assert(a@ =~= b@);
    }
    true
}

pub fn sd_eq_exec(a: &StructData, b: &StructData) -> (r: bool)
    ensures
        r == sd_eq(*a, *b),
{
    if !crate::syntax::bytes_eq(&a.name, &b.name) {
        return false;
    }
    if a.kind != b.kind {
        return false;
    }
    if a.fields.len() != b.fields.len() {
        return false;
    }
    let mut i: usize = 0;
    while i < a.fields.len()
        invariant
            0 <= i <= a.fields@.len(),
            a.fields@.len() == b.fields@.len(),
            forall|j: int| 0 <= j < i ==> sfd_eq(a.fields@[j], b.fields@[j]),
        decreases a.fields@.len() - i,
    {
        if !crate::syntax::bytes_eq(&a.fields[i].name, &b.fields[i].name)
            || a.fields[i].type_ref != b.fields[i].type_ref {
            return false;
        }
        i += 1;
    }
    trmap_eq_exec(&a.type_ref_map, &b.type_ref_map) && srcmap_eq_exec(
        &a.type_ref_source_map,
        &b.type_ref_source_map,
    )
}

pub fn ad_eq_exec(a: &TypeAliasData, b: &TypeAliasData) -> (r: bool)
    ensures
        r == ad_eq(*a, *b),
{
    crate::syntax::bytes_eq(&a.name, &b.name) && a.type_ref_id == b.type_ref_id && trmap_eq_exec(
        &a.type_ref_map,
        &b.type_ref_map,
    ) && srcmap_eq_exec(&a.type_ref_source_map, &b.type_ref_source_map)
}

pub fn fd_eq_exec(a: &FnData, b: &FnData) -> (r: bool)
    ensures
        r == fd_eq(*a, *b),
{
    crate::syntax::bytes_eq(&a.name, &b.name) && a.is_extern == b.is_extern && usizes_eq_exec(
        &a.params,
        &b.params,
    ) && a.ret_type == b.ret_type && trmap_eq_exec(&a.type_ref_map, &b.type_ref_map)
        && srcmap_eq_exec(&a.type_ref_source_map, &b.type_ref_source_map)
}

pub fn tree_eq_exec(a: &ItemTree, b: &ItemTree) -> (r: bool)
    ensures
        r == tree_eq(*a, *b),
{
    crate::syntax::items_eq_exec(&a.items, &b.items)
}

pub fn scope_eq_exec(a: &ModuleScope, b: &ModuleScope) -> (r: bool)
    ensures
        r == scope_eq(*a, *b),
{
    if a.entries.len() != b.entries.len() {
        return false;
    }
    let mut i: usize = 0;
    while i < a.entries.len()
        invariant
            0 <= i <= a.entries@.len(),
            a.entries@.len() == b.entries@.len(),
            forall|j: int| 0 <= j < i ==> scope_entry_eq(a.entries@[j], b.entries@[j]),
        decreases a.entries@.len() - i,
    {
        if !crate::syntax::bytes_eq(&a.entries[i].name, &b.entries[i].name)
            || a.entries[i].def != b.entries[i].def {
            return false;
        }
        i += 1;
    }
    true
}

pub fn trmap_clone(a: &TypeRefMap) -> (r: TypeRefMap)
    ensures
        trmap_eq(r, *a),
{
    let mut entries: Vec<TypeRef> = Vec::new();
    let mut i: usize = 0;
    while i < a.entries.len()
        invariant
            0 <= i <= a.entries@.len(),
            entries@.len() == i,
            forall|j: int| 0 <= j < i ==> tr_eq(entries@[j], a.entries@[j]),
        decreases a.entries@.len() - i,
    {
        entries.push(tr_clone(&a.entries[i]));
        i += 1;
    }
    TypeRefMap { entries }
}

pub fn srcmap_clone(a: &TypeRefSourceMap) -> (r: TypeRefSourceMap)
    ensures
        srcmap_eq(r, *a),
{
    let mut spans: Vec<Span> = Vec::new();
    let mut i: usize = 0;
    while i < a.spans.len()
        invariant
            0 <= i <= a.spans@.len(),
            spans@ =~= a.spans@.take(i as int),
        decreases a.spans@.len() - i,
    {
        spans.push(a.spans[i]);
        i += 1;
    }
    proof {
        assert(spans@ =~= a.spans@);
    }
    TypeRefSourceMap { spans }
}

pub fn usizes_clone(a: &Vec<usize>) -> (r: Vec<usize>)
    ensures
        r@ == a@,
{
    let mut out: Vec<usize> = Vec::new();
    let mut i: usize = 0;
    while i < a.len()
        invariant
            0 <= i <= a@.len(),
            out@ =~= a@.take(i as int),
        decreases a@.len() - i,
    {
        out.push(a[i]);
        i += 1;
    }
    proof {
        assert(out@ =~= a@);
    }
    out
}

pub fn sd_clone(a: &StructData) -> (r: StructData)
    ensures
        sd_eq(r, *a),
{
    let mut fields: Vec<StructFieldData> = Vec::new();
    let mut i: usize = 0;
    while i < a.fields.len()
        invariant
            0 <= i <= a.fields@.len(),
            fields@.len() == i,
            forall|j: int| 0 <= j < i ==> sfd_eq(fields@[j], a.fields@[j]),
        decreases a.fields@.len() - i,
    {
        fields.push(
            StructFieldData { name: bytes_clone(&a.fields[i].name), type_ref: a.fields[i].type_ref },
        );
        i += 1;
    }
    StructData {
        name: bytes_clone(&a.name),
        fields,
        kind: a.kind,
        type_ref_map: trmap_clone(&a.type_ref_map),
        type_ref_source_map: srcmap_clone(&a.type_ref_source_map),
    }
}

pub fn ad_clone(a: &TypeAliasData) -> (r: TypeAliasData)
    ensures
        ad_eq(r, *a),
{
    TypeAliasData {
        name: bytes_clone(&a.name),
        type_ref_id: a.type_ref_id,
        type_ref_map: trmap_clone(&a.type_ref_map),
        type_ref_source_map: srcmap_clone(&a.type_ref_source_map),
    }
}

pub fn fd_clone(a: &FnData) -> (r: FnData)
    ensures
        fd_eq(r, *a),
{
    FnData {
        name: bytes_clone(&a.name),
        is_extern: a.is_extern,
        params: usizes_clone(&a.params),
        ret_type: a.ret_type,
        type_ref_map: trmap_clone(&a.type_ref_map),
        type_ref_source_map: srcmap_clone(&a.type_ref_source_map),
    }
}

pub fn tree_clone(a: &ItemTree) -> (r: ItemTree)
    ensures
        tree_eq(r, *a),
{
    ItemTree { items: items_clone(&a.items) }
}

pub fn scope_clone(a: &ModuleScope) -> (r: ModuleScope)
    ensures
        scope_eq(r, *a),
{
    let mut entries: Vec<ScopeEntry> = Vec::new();
    let mut i: usize = 0;
    while i < a.entries.len()
        invariant
            0 <= i <= a.entries@.len(),
            entries@.len() == i,
            forall|j: int| 0 <= j < i ==> scope_entry_eq(entries@[j], a.entries@[j]),
        decreases a.entries@.len() - i,
    {
        entries.push(ScopeEntry { name: bytes_clone(&a.entries[i].name), def: a.entries[i].def });
        i += 1;
    }
    ModuleScope { entries }
}

// ---------------------------------------------------------------------------
// Extraction from the item tree: the definitions layer's pure computations.
// ---------------------------------------------------------------------------

/// The decimal digits of a number, for the positional names tuple fields
/// carry.
pub open spec fn dec_rep(n: nat) -> Seq<u8>
    decreases n,
{
    if n < 10 {
        seq![(48 + n) as u8]
    } else {
        dec_rep(n / 10) + seq![(48 + n % 10) as u8]
    }
}

/// The decimal name of one tuple-field position.
pub fn dec_of(n: usize) -> (r: Vec<u8>)
    ensures
        r@ == dec_rep(n as nat),
    decreases n,
{
    if n < 10 {
        let mut v: Vec<u8> = Vec::new();
        v.push(48 + (n as u8));
        proof {
            assert(v@ =~= dec_rep(n as nat));
        }
        v
    } else {
        let mut v = dec_of(n / 10);
        v.push(48 + ((n % 10) as u8));
        proof {
            assert(v@ =~= dec_rep(n as nat));
        }
        v
    }
}

/// What `struct_data_of` returns for each shape of item: for a struct item the
/// fields in order, each field's annotation at its own arena index; record
/// fields keep their written names and tuple fields are named by position;
/// the empty default for every other item.
pub open spec fn struct_data_rel(item: Item, sd: StructData) -> bool {
    match item {
        Item::StructItem { name, kind, fields, span } => {
            &&& sd.name@ == name@
            &&& sd.kind == kind
            &&& sd.fields@.len() == fields@.len()
            &&& sd.type_ref_map.entries@.len() == fields@.len()
            &&& sd.type_ref_source_map.spans@.len() == fields@.len()
            &&& forall|i: int| 0 <= i < fields@.len() ==> {
                &&& (#[trigger] sd.fields@[i]).name@ == (if kind == StructKind::Tuple {
                    dec_rep(i as nat)
                } else {
                    fields@[i].name@
                })
                &&& sd.fields@[i].type_ref == i
                &&& tr_eq(sd.type_ref_map.entries@[i], fields@[i].type_ref)
                &&& sd.type_ref_source_map.spans@[i] == fields@[i].span
            }
        },
        _ => {
            &&& sd.name@ == Seq::<u8>::empty()
            &&& sd.kind == StructKind::Unit
            &&& sd.fields@.len() == 0
            &&& sd.type_ref_map.entries@.len() == 0
            &&& sd.type_ref_source_map.spans@.len() == 0
        },
    }
}

pub fn struct_data_of(item: &Item) -> (sd: StructData)
    ensures
        struct_data_rel(*item, sd),
{
    match item {
        Item::StructItem { name, kind, fields, span: _ } => {
            let mut fds: Vec<StructFieldData> = Vec::new();
            let mut entries: Vec<TypeRef> = Vec::new();
            let mut spans: Vec<Span> = Vec::new();
            let mut i: usize = 0;
            while i < fields.len()
                invariant
                    0 <= i <= fields@.len(),
                    fds@.len() == i,
                    entries@.len() == i,
                    spans@.len() == i,
                    forall|j: int| 0 <= j < i ==> {
                        &&& (#[trigger] fds@[j]).name@ == (if *kind == StructKind::Tuple {
                            dec_rep(j as nat)
                        } else {
                            fields@[j].name@
                        })
                        &&& fds@[j].type_ref == j
                        &&& tr_eq(entries@[j], fields@[j].type_ref)
                        &&& spans@[j] == fields@[j].span
                    },
                decreases fields@.len() - i,
            {
                let field_name = if *kind == StructKind::Tuple {
                    dec_of(i)
                } else {
                    bytes_clone(&fields[i].name)
                };
                fds.push(StructFieldData { name: field_name, type_ref: i });
                entries.push(tr_clone(&fields[i].type_ref));
                spans.push(fields[i].span);
                i += 1;
            }
            StructData {
                name: bytes_clone(name),
                fields: fds,
                kind: *kind,
                type_ref_map: TypeRefMap { entries },
                type_ref_source_map: TypeRefSourceMap { spans },
            }
        },
        _ => StructData {
            name: Vec::new(),
            fields: Vec::new(),
            kind: StructKind::Unit,
            type_ref_map: TypeRefMap { entries: Vec::new() },
            type_ref_source_map: TypeRefSourceMap { spans: Vec::new() },
        },
    }
}

/// What `type_alias_data_of` returns: the single annotation at arena index 0.
pub open spec fn alias_data_rel(item: Item, ad: TypeAliasData) -> bool {
    match item {
        Item::AliasItem { name, type_ref, ty_span, span } => {
            &&& ad.name@ == name@
            &&& ad.type_ref_id == 0
            &&& ad.type_ref_map.entries@.len() == 1
            &&& tr_eq(ad.type_ref_map.entries@[0], type_ref)
            &&& ad.type_ref_source_map.spans@ == seq![ty_span]
        },
        _ => {
            &&& ad.name@ == Seq::<u8>::empty()
            &&& ad.type_ref_id == 0
            &&& ad.type_ref_map.entries@.len() == 1
            &&& (ad.type_ref_map.entries@[0] matches TypeRef::Error)
            &&& ad.type_ref_source_map.spans@ == seq![Span { line: 0, start: 0, len: 0 }]
        },
    }
}

pub fn type_alias_data_of(item: &Item) -> (ad: TypeAliasData)
    ensures
        alias_data_rel(*item, ad),
{
    match item {
        Item::AliasItem { name, type_ref, ty_span, span: _ } => {
            let mut entries: Vec<TypeRef> = Vec::new();
            entries.push(tr_clone(type_ref));
            let mut spans: Vec<Span> = Vec::new();
            spans.push(*ty_span);
            proof {
                assert(spans@ =~= seq![*ty_span]);
            }
            TypeAliasData {
                name: bytes_clone(name),
                type_ref_id: 0,
                type_ref_map: TypeRefMap { entries },
                type_ref_source_map: TypeRefSourceMap { spans },
            }
        },
        _ => {
            let mut entries: Vec<TypeRef> = Vec::new();
            entries.push(TypeRef::Error);
            let mut spans: Vec<Span> = Vec::new();
            spans.push(Span { line: 0, start: 0, len: 0 });
            proof {
                assert(spans@ =~= seq![Span { line: 0, start: 0, len: 0 }]);
            }
            TypeAliasData {
                name: Vec::new(),
                type_ref_id: 0,
                type_ref_map: TypeRefMap { entries },
                type_ref_source_map: TypeRefSourceMap { spans },
            }
        },
    }
}

/// What `fn_data_of` returns: parameter annotations at arena indices `0..n`,
/// the return annotation at index `n`. The body never enters this data, so an
/// edit that only changes a body leaves it unchanged.
pub open spec fn fn_data_rel(item: Item, fd: FnData) -> bool {
    match item {
        Item::FnItem { name, is_extern, params, ret, ret_span, has_body, span } => {
            &&& fd.name@ == name@
            &&& fd.is_extern == is_extern
            &&& fd.params@.len() == params@.len()
            &&& fd.ret_type == params@.len()
            &&& fd.type_ref_map.entries@.len() == params@.len() + 1
            &&& fd.type_ref_source_map.spans@.len() == params@.len() + 1
            &&& forall|i: int| 0 <= i < params@.len() ==> {
                &&& (#[trigger] fd.params@[i]) == i
                &&& tr_eq(fd.type_ref_map.entries@[i], params@[i].type_ref)
                &&& fd.type_ref_source_map.spans@[i] == params@[i].span
            }
            &&& tr_eq(fd.type_ref_map.entries@[params@.len() as int], ret)
            &&& fd.type_ref_source_map.spans@[params@.len() as int] == ret_span
        },
        _ => {
            &&& fd.name@ == Seq::<u8>::empty()
            &&& !fd.is_extern
            &&& fd.params@.len() == 0
            &&& fd.ret_type == 0
            &&& fd.type_ref_map.entries@.len() == 1
            &&& (fd.type_ref_map.entries@[0] matches TypeRef::Error)
            &&& fd.type_ref_source_map.spans@.len() == 1
        },
    }
}

pub fn fn_data_of(item: &Item) -> (fd: FnData)
    ensures
        fn_data_rel(*item, fd),
{
    match item {
        Item::FnItem { name, is_extern, params, ret, ret_span, has_body: _, span: _ } => {
            let mut idxs: Vec<usize> = Vec::new();
            let mut entries: Vec<TypeRef> = Vec::new();
            let mut spans: Vec<Span> = Vec::new();
            let mut i: usize = 0;
            while i < params.len()
                invariant
                    0 <= i <= params@.len(),
                    idxs@.len() == i,
                    entries@.len() == i,
                    spans@.len() == i,
                    forall|j: int| 0 <= j < i ==> {
                        &&& (#[trigger] idxs@[j]) == j
                        &&& tr_eq(entries@[j], params@[j].type_ref)
                        &&& spans@[j] == params@[j].span
                    },
                decreases params@.len() - i,
            {
                idxs.push(i);
                entries.push(tr_clone(&params[i].type_ref));
                spans.push(params[i].span);
                i += 1;
            }
            let ret_id = params.len();
            entries.push(tr_clone(ret));
            spans.push(*ret_span);
            FnData {
                name: bytes_clone(name),
                is_extern: *is_extern,
                params: idxs,
                ret_type: ret_id,
                type_ref_map: TypeRefMap { entries },
                type_ref_source_map: TypeRefSourceMap { spans },
            }
        },
        _ => {
            let mut entries: Vec<TypeRef> = Vec::new();
            entries.push(TypeRef::Error);
            let mut spans: Vec<Span> = Vec::new();
            spans.push(Span { line: 0, start: 0, len: 0 });
            FnData {
                name: Vec::new(),
                is_extern: false,
                params: Vec::new(),
                ret_type: 0,
                type_ref_map: TypeRefMap { entries },
                type_ref_source_map: TypeRefSourceMap { spans },
            }
        },
    }
}

/// What `body_of` returns: the root expression is the missing placeholder
/// exactly when the declaration carries no body text.
pub open spec fn body_rel(item: Item, b: BodyData) -> bool {
    match item {
        Item::FnItem { name, is_extern, params, ret, ret_span, has_body, span } => b.root_missing
            == !has_body && b.decl_span == span,
        _ => b.root_missing && b.decl_span == (Span { line: 0, start: 0, len: 0 }),
    }
}

pub fn body_of(item: &Item) -> (b: BodyData)
    ensures
        body_rel(*item, b),
{
    match item {
        Item::FnItem { has_body, span, .. } => BodyData { root_missing: !*has_body, decl_span: *span },
        _ => BodyData { root_missing: true, decl_span: Span { line: 0, start: 0, len: 0 } },
    }
}

/// Two function declarations agree on everything a signature is built from:
/// name, externness, parameter annotations and return annotation. Their
/// bodies and overall extents are free to differ.
pub open spec fn sig_shape_eq(a: Item, b: Item) -> bool {
    match (a, b) {
        (
            Item::FnItem {
                name: n1, is_extern: e1, params: p1, ret: r1, ret_span: rs1, has_body: _, span: _,
            },
            Item::FnItem {
                name: n2, is_extern: e2, params: p2, ret: r2, ret_span: rs2, has_body: _, span: _,
            },
        ) => n1@ == n2@ && e1 == e2 && fields_eq(p1@, p2@) && tr_eq(r1, r2) && rs1 == rs2,
        _ => false,
    }
}

/// Law (signatures ignore bodies): two function declarations of the same
/// signature shape extract equal function data, however their bodies differ.
/// With the engine's early cutoff, a body edit therefore recomputes the
/// function data to an equal value, keeps its changed-revision, and never
/// invalidates the signature above it.
pub proof fn lemma_fn_data_ignores_body(i1: Item, i2: Item, f1: FnData, f2: FnData)
    requires
        sig_shape_eq(i1, i2),
        fn_data_rel(i1, f1),
        fn_data_rel(i2, f2),
    ensures
        fd_eq(f1, f2),
{
    match (i1, i2) {
        (
            Item::FnItem {
                name: n1, is_extern: e1, params: p1, ret: r1, ret_span: rs1, has_body: _, span: _,
            },
            Item::FnItem {
                name: n2, is_extern: e2, params: p2, ret: r2, ret_span: rs2, has_body: _, span: _,
            },
        ) => {
            let n = p1@.len();
            assert(f1.params@.len() == n && f2.params@.len() == n);
            assert forall|i: int| 0 <= i < n implies f1.params@[i] == f2.params@[i] by {
                assert(f1.params@[i] == i);
                assert(f2.params@[i] == i);
            }
            assert(f1.params@ =~= f2.params@);
            assert forall|i: int| 0 <= i < n + 1 implies tr_eq(
                f1.type_ref_map.entries@[i],
                f2.type_ref_map.entries@[i],
            ) by {
                if i < n {
                    assert(f1.params@[i] == i);
                    assert(f2.params@[i] == i);
                    assert(crate::syntax::field_eq(p1@[i], p2@[i]));
                    crate::syntax::lemma_tr_eq_sym(f1.type_ref_map.entries@[i], p1@[i].type_ref);
                    crate::syntax::lemma_tr_eq_trans(
                        f1.type_ref_map.entries@[i],
                        p1@[i].type_ref,
                        p2@[i].type_ref,
                    );
                    crate::syntax::lemma_tr_eq_sym(f2.type_ref_map.entries@[i], p2@[i].type_ref);
                    crate::syntax::lemma_tr_eq_trans(
                        f1.type_ref_map.entries@[i],
                        p2@[i].type_ref,
                        f2.type_ref_map.entries@[i],
                    );
                } else {
                    crate::syntax::lemma_tr_eq_sym(f1.type_ref_map.entries@[i], r1);
                    crate::syntax::lemma_tr_eq_trans(f1.type_ref_map.entries@[i], r1, r2);
                    crate::syntax::lemma_tr_eq_sym(f2.type_ref_map.entries@[i], r2);
                    crate::syntax::lemma_tr_eq_trans(
                        f1.type_ref_map.entries@[i],
                        r2,
                        f2.type_ref_map.entries@[i],
                    );
                }
            }
            assert forall|i: int| 0 <= i < n + 1 implies f1.type_ref_source_map.spans@[i]
                == f2.type_ref_source_map.spans@[i] by {
                if i < n {
                    assert(f1.params@[i] == i);
                    assert(f2.params@[i] == i);
                    assert(crate::syntax::field_eq(p1@[i], p2@[i]));
                }
            }
            assert(f1.type_ref_source_map.spans@ =~= f2.type_ref_source_map.spans@);
        },
        _ => {},
    }
}

} // verus!
