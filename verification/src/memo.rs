use vstd::prelude::*;
use crate::defs::{
    ad_eq, ad_eq_exec, ad_clone, fd_eq, fd_eq_exec, fd_clone, scope_eq, scope_eq_exec, scope_clone,
    sd_eq, sd_eq_exec, sd_clone, tree_eq, tree_eq_exec, tree_clone, BodyData, FnData, ItemTree,
    ModuleScope, StructData, TypeAliasData,
};
use crate::ids::{CallableDef, FileId, FunctionId, Namespace, StructId, TypableDef, TypeAliasId};
use crate::syntax::{bytes_eq, bytes_clone, items_eq, items_clone, SourceFile};
use crate::ty::{
    lower_eq, lower_eq_exec, lower_clone, sig_eq, sig_eq_exec, sig_clone, FnSig, LowerBatchResult,
    Ty,
};

verus! {

/// The identity of one cached computation: the query and its argument.
#[derive(Clone, Copy, PartialEq, Eq, Structural, Debug)]
pub enum QueryKey {
    FileText(FileId),
    Parse(FileId),
    ItemTree(FileId),
    StructData(StructId),
    TypeAliasData(TypeAliasId),
    FnData(FunctionId),
    Body(FunctionId),
    ModuleScope(FileId),
    TypeForDef(TypableDef, Namespace),
    CallableSig(CallableDef),
    LowerStruct(StructId),
    LowerTypeAlias(TypeAliasId),
}

/// The layer of a query. A query only ever reads queries of strictly lower
/// layer, which is what bounds the verification walk: inputs at 0, syntax at
/// 1, the item tree at 2, per-declaration data and scopes at 3, declared
/// types at 4, signatures and batch lowering at 5.
pub open spec fn rank_of(k: QueryKey) -> int {
    match k {
        QueryKey::FileText(_) => 0,
        QueryKey::Parse(_) => 1,
        QueryKey::ItemTree(_) => 2,
        QueryKey::StructData(_) => 3,
        QueryKey::TypeAliasData(_) => 3,
        QueryKey::FnData(_) => 3,
        QueryKey::Body(_) => 3,
        QueryKey::ModuleScope(_) => 3,
        QueryKey::TypeForDef(_, _) => 4,
        QueryKey::CallableSig(_) => 5,
        QueryKey::LowerStruct(_) => 5,
        QueryKey::LowerTypeAlias(_) => 5,
    }
}

/// A cached value: one variant per query family, plus the total fallback for
/// a key whose subject does not exist.
#[derive(Debug)]
pub enum QueryValue {
    Missing,
    Text(Vec<u8>),
    Tree(SourceFile),
    Items(ItemTree),
    StructD(StructData),
    AliasD(TypeAliasData),
    FnD(FnData),
    BodyD(BodyData),
    Scope(ModuleScope),
    TyPair(Ty, bool),
    Sig(FnSig),
    Lower(LowerBatchResult),
}

/// Deep structural equality of two cached values, over views. This is the
/// comparison the engine's early cutoff uses.
pub open spec fn qv_eq(a: QueryValue, b: QueryValue) -> bool {
    match (a, b) {
        (QueryValue::Missing, QueryValue::Missing) => true,
        (QueryValue::Text(x), QueryValue::Text(y)) => x@ == y@,
        (QueryValue::Tree(x), QueryValue::Tree(y)) => items_eq(x.items@, y.items@),
        (QueryValue::Items(x), QueryValue::Items(y)) => tree_eq(x, y),
        (QueryValue::StructD(x), QueryValue::StructD(y)) => sd_eq(x, y),
        (QueryValue::AliasD(x), QueryValue::AliasD(y)) => ad_eq(x, y),
        (QueryValue::FnD(x), QueryValue::FnD(y)) => fd_eq(x, y),
        (QueryValue::BodyD(x), QueryValue::BodyD(y)) => x == y,
        (QueryValue::Scope(x), QueryValue::Scope(y)) => scope_eq(x, y),
        (QueryValue::TyPair(x, xc), QueryValue::TyPair(y, yc)) => x == y && xc == yc,
        (QueryValue::Sig(x), QueryValue::Sig(y)) => sig_eq(x, y),
        (QueryValue::Lower(x), QueryValue::Lower(y)) => lower_eq(x, y),
        _ => false,
    }
}

pub proof fn lemma_qv_eq_refl(a: QueryValue)
    ensures
        qv_eq(a, a),
{
    match a {
        QueryValue::Tree(x) => {
            crate::syntax::lemma_items_eq_refl(x.items@);
        },
        QueryValue::Items(x) => {
            crate::syntax::lemma_items_eq_refl(x.items@);
        },
        QueryValue::StructD(x) => {
            assert forall|i: int| 0 <= i < x.type_ref_map.entries@.len() implies crate::syntax::tr_eq(
                x.type_ref_map.entries@[i],
                x.type_ref_map.entries@[i],
            ) by {
                crate::syntax::lemma_tr_eq_refl(x.type_ref_map.entries@[i]);
            }
        },
        QueryValue::AliasD(x) => {
            assert forall|i: int| 0 <= i < x.type_ref_map.entries@.len() implies crate::syntax::tr_eq(
                x.type_ref_map.entries@[i],
                x.type_ref_map.entries@[i],
            ) by {
                crate::syntax::lemma_tr_eq_refl(x.type_ref_map.entries@[i]);
            }
        },
        QueryValue::FnD(x) => {
            assert forall|i: int| 0 <= i < x.type_ref_map.entries@.len() implies crate::syntax::tr_eq(
                x.type_ref_map.entries@[i],
                x.type_ref_map.entries@[i],
            ) by {
                crate::syntax::lemma_tr_eq_refl(x.type_ref_map.entries@[i]);
            }
        },
        _ => {},
    }
}

pub fn qv_eq_exec(a: &QueryValue, b: &QueryValue) -> (r: bool)
    ensures
        r == qv_eq(*a, *b),
{
    match (a, b) {
        (QueryValue::Missing, QueryValue::Missing) => true,
        (QueryValue::Text(x), QueryValue::Text(y)) => bytes_eq(x, y),
        (QueryValue::Tree(x), QueryValue::Tree(y)) => crate::syntax::items_eq_exec(
            &x.items,
            &y.items,
        ),
        (QueryValue::Items(x), QueryValue::Items(y)) => tree_eq_exec(x, y),
        (QueryValue::StructD(x), QueryValue::StructD(y)) => sd_eq_exec(x, y),
        (QueryValue::AliasD(x), QueryValue::AliasD(y)) => ad_eq_exec(x, y),
        (QueryValue::FnD(x), QueryValue::FnD(y)) => fd_eq_exec(x, y),
        (QueryValue::BodyD(x), QueryValue::BodyD(y)) => x == y,
        (QueryValue::TyPair(x, xc), QueryValue::TyPair(y, yc)) => x == y && xc == yc,
        (QueryValue::Scope(x), QueryValue::Scope(y)) => scope_eq_exec(x, y),
        (QueryValue::Sig(x), QueryValue::Sig(y)) => sig_eq_exec(x, y),
        (QueryValue::Lower(x), QueryValue::Lower(y)) => lower_eq_exec(x, y),
        _ => false,
    }
}

pub fn qv_clone(a: &QueryValue) -> (r: QueryValue)
    ensures
        qv_eq(r, *a),
{
    match a {
        QueryValue::Missing => QueryValue::Missing,
        QueryValue::Text(x) => QueryValue::Text(bytes_clone(x)),
        QueryValue::Tree(x) => QueryValue::Tree(SourceFile { items: items_clone(&x.items) }),
        QueryValue::Items(x) => QueryValue::Items(tree_clone(x)),
        QueryValue::StructD(x) => QueryValue::StructD(sd_clone(x)),
        QueryValue::AliasD(x) => QueryValue::AliasD(ad_clone(x)),
        QueryValue::FnD(x) => QueryValue::FnD(fd_clone(x)),
        QueryValue::BodyD(x) => QueryValue::BodyD(*x),
        QueryValue::Scope(x) => QueryValue::Scope(scope_clone(x)),
        QueryValue::TyPair(x, xc) => QueryValue::TyPair(*x, *xc),
        QueryValue::Sig(x) => QueryValue::Sig(sig_clone(x)),
        QueryValue::Lower(x) => QueryValue::Lower(lower_clone(x)),
    }
}

/// One Memo Cell: the last computed value, the revision at which the value
/// last changed (not merely recomputed), the revision at which it was last
/// verified, the queries read while computing it, in read order, and whether
/// the value came from cycle recovery (such a value is never verified by the
/// dependency walk and is recomputed in any later revision).
#[derive(Debug)]
pub struct Cell {
    pub key: QueryKey,
    pub value: QueryValue,
    pub changed_at: u64,
    pub verified_at: u64,
    pub deps: Vec<QueryKey>,
    pub cyclic: bool,
}

/// `i` is the first cell with key `k`.
pub open spec fn key_first(cells: Seq<Cell>, k: QueryKey, i: int) -> bool {
    0 <= i < cells.len() && cells[i].key == k && forall|j: int|
        0 <= j < i ==> (#[trigger] cells[j]).key != k
}

pub proof fn lemma_key_first_unique(cells: Seq<Cell>, k: QueryKey, i1: int, i2: int)
    requires
        key_first(cells, k, i1),
        key_first(cells, k, i2),
    ensures
        i1 == i2,
{
    if i1 < i2 {
        assert(cells[i1].key != k);
    }
    if i2 < i1 {
        assert(cells[i2].key != k);
    }
}

/// Every cell is within the ledger's bounds: its changed-revision never
/// exceeds its verified-revision nor the current global revision, each key
/// has one cell, and a derived cell's recorded dependencies sit in strictly
/// lower layers. An input cell (layer 0) records no dependencies.
pub open spec fn cell_ok(c: Cell, rev: u64) -> bool {
    &&& c.changed_at <= c.verified_at <= rev
    &&& forall|d: int| 0 <= d < c.deps@.len() ==> rank_of(#[trigger] c.deps@[d]) < rank_of(c.key)
}

pub open spec fn cells_wf(cells: Seq<Cell>, rev: u64) -> bool {
    &&& forall|i: int, j: int|
        0 <= i < j < cells.len() ==> (#[trigger] cells[i]).key != (#[trigger] cells[j]).key
    &&& forall|i: int| 0 <= i < cells.len() ==> cell_ok(#[trigger] cells[i], rev)
}

/// Find the cell of a key.
pub fn find_cell(cells: &Vec<Cell>, k: QueryKey) -> (r: Option<usize>)
    ensures
        match r {
            Some(i) => key_first(cells@, k, i as int),
            None => forall|i: int| 0 <= i < cells@.len() ==> (#[trigger] cells@[i]).key != k,
        },
{
    let mut i: usize = 0;
    while i < cells.len()
        invariant
            0 <= i <= cells@.len(),
            forall|j: int| 0 <= j < i ==> (#[trigger] cells@[j]).key != k,
        decreases cells@.len() - i,
    {
        if cells[i].key == k {
            return Some(i);
        }
        i += 1;
    }
    None
}

/// Append one read to the active computation's dependency list.
pub fn record_read(reads: &mut Vec<QueryKey>, k: QueryKey)
    ensures
        final(reads)@ == old(reads)@.push(k),
{
    reads.push(k);
}

pub fn keys_clone(a: &Vec<QueryKey>) -> (r: Vec<QueryKey>)
    ensures
        r@ == a@,
{
    let mut out: Vec<QueryKey> = Vec::new();
    let mut i: usize = 0;
    while i < a.len()
        invariant
            0 <= i <= a@.len(),
            out@ =~= a@.take(i as int),
        decreases a@.len() - i,
    {
        out.push(a[i]);
        i += 1;
    }
    proof {
        assert(out@ =~= a@);
    }
    out
}

} // verus!
