use vstd::prelude::*;
use crate::backend::{config_clone, config_eq, BackendCache, Config, TargetMachineHandle};
use crate::defs::{BodyData, ItemTree, ModuleScope, ScopeDef, ScopeEntry, TypeAliasData};
use crate::ids::{
    CallableDef, FileId, FunctionId, ItemLoc, Namespace, StructId, TypableDef, TypeAliasId,
};
use crate::intern::InternTable;
use crate::memo::{
    cells_wf, find_cell, key_first, keys_clone, qv_clone, qv_eq, qv_eq_exec, rank_of, record_read,
    Cell, QueryKey, QueryValue,
};
use crate::syntax::{bytes_clone, Item, SourceFile, Span};
use crate::ty::{
    fn_sig_for_fn, fn_sig_for_struct_constructor, lower_batch, resolve_alias, type_for_builtin,
    type_for_struct, type_for_struct_constructor, AliasEnv, Ty,
};

verus! {

/// The engine that owns every Memo Cell, the interning tables, the global
/// revision, the target configuration, and the backend resource slot.
pub struct CompilerDatabase {
    pub revision: u64,
    pub cells: Vec<Cell>,
    pub structs: InternTable,
    pub aliases: InternTable,
    pub functions: InternTable,
    pub config: Config,
    pub backend: BackendCache,
}

/// How one cell may change across one engine step at layer `bound`: its key
/// is fixed; its changed-revision and verified-revision never move backwards;
/// a value left equal keeps its changed-revision (the early cutoff); a cell
/// already verified at the current revision is not touched at all; a touched
/// cell is verified at the current revision; cells above the step's layer,
/// and input cells, are never touched.
pub open spec fn cell_evolved(ca: Cell, cb: Cell, rev: u64, bound: int) -> bool {
    &&& cb.key == ca.key
    &&& cb.changed_at >= ca.changed_at
    &&& cb.verified_at >= ca.verified_at
    &&& (qv_eq(cb.value, ca.value) ==> cb.changed_at == ca.changed_at)
    &&& (ca.verified_at == rev ==> cb == ca)
    &&& (cb != ca ==> cb.verified_at == rev)
    &&& (rank_of(ca.key) > bound ==> cb == ca)
    &&& (rank_of(ca.key) == 0 ==> cb == ca)
}

/// How the whole engine may change across one step at layer `bound`: the
/// revision, configuration and backend slot stay; interning tables only grow;
/// no cell disappears and every surviving cell evolves per `cell_evolved`;
/// any cell the step adds sits at or below the step's layer.
pub open spec fn evolved(a: CompilerDatabase, b: CompilerDatabase, bound: int) -> bool {
    &&& b.revision == a.revision
    &&& b.config == a.config
    &&& b.backend == a.backend
    &&& a.structs.locs@.is_prefix_of(b.structs.locs@)
    &&& a.aliases.locs@.is_prefix_of(b.aliases.locs@)
    &&& a.functions.locs@.is_prefix_of(b.functions.locs@)
    &&& b.cells@.len() >= a.cells@.len()
    &&& forall|i: int|
        0 <= i < a.cells@.len() ==> cell_evolved(
            #[trigger] a.cells@[i],
            #[trigger] b.cells@[i],
            a.revision,
            bound,
        )
    &&& forall|i: int|
        a.cells@.len() <= i < b.cells@.len() ==> rank_of((#[trigger] b.cells@[i]).key) <= bound
}

pub proof fn lemma_evolved_refl(a: CompilerDatabase, bound: int)
    ensures
        evolved(a, a, bound),
{
    assert(a.structs.locs@.is_prefix_of(a.structs.locs@));
    assert(a.aliases.locs@.is_prefix_of(a.aliases.locs@));
    assert(a.functions.locs@.is_prefix_of(a.functions.locs@));
    assert forall|i: int| 0 <= i < a.cells@.len() implies cell_evolved(
        #[trigger] a.cells@[i],
        #[trigger] a.cells@[i],
        a.revision,
        bound,
    ) by {}
}

pub proof fn lemma_prefix_trans<T>(a: Seq<T>, b: Seq<T>, c: Seq<T>)
    requires
        a.is_prefix_of(b),
        b.is_prefix_of(c),
    ensures
        a.is_prefix_of(c),
{
    assert(a =~= c.subrange(0, a.len() as int));
}

/// A step at a lower layer is also a step at any higher layer.
pub proof fn lemma_evolved_widen(a: CompilerDatabase, b: CompilerDatabase, b1: int, b2: int)
    requires
        evolved(a, b, b1),
        b1 <= b2,
    ensures
        evolved(a, b, b2),
{
    assert forall|i: int| 0 <= i < a.cells@.len() implies cell_evolved(
        #[trigger] a.cells@[i],
        #[trigger] b.cells@[i],
        a.revision,
        b2,
    ) by {
        assert(cell_evolved(a.cells@[i], b.cells@[i], a.revision, b1));
    }
}

/// Engine steps compose: within one revision, a cell modified once is then
/// verified at that revision and no later step of the sequence touches it
/// again, so the cutoff and monotonicity clauses survive composition.
pub proof fn lemma_evolved_trans(
    a: CompilerDatabase,
    b: CompilerDatabase,
    c: CompilerDatabase,
    bound: int,
)
    requires
        evolved(a, b, bound),
        evolved(b, c, bound),
    ensures
        evolved(a, c, bound),
{
    lemma_prefix_trans(a.structs.locs@, b.structs.locs@, c.structs.locs@);
    lemma_prefix_trans(a.aliases.locs@, b.aliases.locs@, c.aliases.locs@);
    lemma_prefix_trans(a.functions.locs@, b.functions.locs@, c.functions.locs@);
    assert forall|i: int| 0 <= i < a.cells@.len() implies cell_evolved(
        #[trigger] a.cells@[i],
        #[trigger] c.cells@[i],
        a.revision,
        bound,
    ) by {
        assert(cell_evolved(a.cells@[i], b.cells@[i], a.revision, bound));
        assert(cell_evolved(b.cells@[i], c.cells@[i], b.revision, bound));
        if b.cells@[i] != a.cells@[i] {
            assert(b.cells@[i].verified_at == a.revision);
            assert(c.cells@[i] == b.cells@[i]);
        }
    }
    assert forall|i: int| a.cells@.len() <= i < c.cells@.len() implies rank_of(
        (#[trigger] c.cells@[i]).key,
    ) <= bound by {
        if i < b.cells@.len() {
            assert(cell_evolved(b.cells@[i], c.cells@[i], b.revision, bound));
        }
    }
}

// ---------------------------------------------------------------------------
// What each query's cached value says, stated against the ledger itself: the
// value a key's cell holds, and one value specification per query family,
// each tying the stored value to the cells of the layers below it.
// ---------------------------------------------------------------------------

/// The value a key's cell holds; the missing value when it has no cell.
pub open spec fn cell_value(db: CompilerDatabase, key: QueryKey) -> QueryValue {
    if exists|i: int| #[trigger] key_first(db.cells@, key, i) {
        db.cells@[choose|i: int| #[trigger] key_first(db.cells@, key, i)].value
    } else {
        QueryValue::Missing
    }
}

pub proof fn lemma_cell_value_at(db: CompilerDatabase, key: QueryKey, i: int)
    requires
        key_first(db.cells@, key, i),
    ensures
        cell_value(db, key) == db.cells@[i].value,
{
    let j = choose|j: int| #[trigger] key_first(db.cells@, key, j);
    crate::memo::lemma_key_first_unique(db.cells@, key, j, i);
}

/// A query result just handed back is the key's cell value, and the cell is
/// verified at the current revision.
pub proof fn lemma_eval_cell(db: CompilerDatabase, key: QueryKey, r: QueryValue)
    requires
        exists|i: int|
            #[trigger] key_first(db.cells@, key, i) && db.cells@[i].verified_at == db.revision
                && qv_eq(r, db.cells@[i].value),
    ensures
        qv_eq(r, cell_value(db, key)),
        exists|i: int|
            #[trigger] key_first(db.cells@, key, i) && db.cells@[i].verified_at == db.revision,
{
    let i = choose|i: int|
        #[trigger] key_first(db.cells@, key, i) && db.cells@[i].verified_at == db.revision
            && qv_eq(r, db.cells@[i].value);
    lemma_cell_value_at(db, key, i);
}

/// A key has a cell verified at the current revision.
pub open spec fn fresh_cell(db: CompilerDatabase, key: QueryKey) -> bool {
    exists|i: int|
        #[trigger] key_first(db.cells@, key, i) && db.cells@[i].verified_at == db.revision
}

/// A cell verified at the current revision is untouched by any engine step of
/// the same revision, so its value survives later reads.
pub proof fn lemma_fresh_value_preserved(
    a: CompilerDatabase,
    b: CompilerDatabase,
    bound: int,
    key: QueryKey,
)
    requires
        evolved(a, b, bound),
        exists|i: int|
            #[trigger] key_first(a.cells@, key, i) && a.cells@[i].verified_at == a.revision,
    ensures
        cell_value(b, key) == cell_value(a, key),
        exists|i: int|
            #[trigger] key_first(b.cells@, key, i) && b.cells@[i].verified_at == b.revision,
{
    let i = choose|i: int|
        #[trigger] key_first(a.cells@, key, i) && a.cells@[i].verified_at == a.revision;
    assert(cell_evolved(a.cells@[i], b.cells@[i], a.revision, bound));
    assert forall|j: int| 0 <= j < i implies (#[trigger] b.cells@[j]).key != key by {
        assert(cell_evolved(a.cells@[j], b.cells@[j], a.revision, bound));
    }
    assert(key_first(b.cells@, key, i));
    lemma_cell_value_at(a, key, i);
    lemma_cell_value_at(b, key, i);
}

/// An engine write that touches only one key's cell leaves every other
/// key's cell value as it was.
proof fn lemma_untouched_values(a: CompilerDatabase, b: CompilerDatabase, key: QueryKey)
    requires
        b.cells@.len() >= a.cells@.len(),
        forall|i: int| 0 <= i < a.cells@.len() ==> (#[trigger] b.cells@[i]).key == a.cells@[i].key,
        forall|i: int|
            0 <= i < a.cells@.len() && a.cells@[i].key != key ==> b.cells@[i] == a.cells@[i],
        forall|i: int|
            a.cells@.len() <= i < b.cells@.len() ==> (#[trigger] b.cells@[i]).key == key,
    ensures
        forall|k: QueryKey| k != key ==> #[trigger] cell_value(b, k) == cell_value(a, k),
{
    assert forall|k: QueryKey| k != key implies #[trigger] cell_value(b, k) == cell_value(a, k) by {
        if exists|i: int| #[trigger] key_first(a.cells@, k, i) {
            let i = choose|i: int| #[trigger] key_first(a.cells@, k, i);
            assert forall|j: int| 0 <= j < i implies (#[trigger] b.cells@[j]).key != k by {
                assert(b.cells@[j].key == a.cells@[j].key);
            }
            assert(key_first(b.cells@, k, i));
            lemma_cell_value_at(a, k, i);
            lemma_cell_value_at(b, k, i);
        } else {
            if exists|i: int| #[trigger] key_first(b.cells@, k, i) {
                let i = choose|i: int| #[trigger] key_first(b.cells@, k, i);
                if i < a.cells@.len() {
                    assert(a.cells@[i].key == k);
                    assert forall|j: int| 0 <= j < i implies (#[trigger] a.cells@[j]).key != k by {
                        assert(b.cells@[j].key == a.cells@[j].key);
                    }
                    assert(key_first(a.cells@, k, i));
                    assert(false);
                } else {
                    assert(b.cells@[i].key == key);
                    assert(false);
                }
            }
        }
    }
}

/// Likeness to a cell's value depends on the ledger only through that one
/// cell value, so it survives any step that leaves the cell value unchanged.
pub proof fn lemma_scope_like_transfer(
    a: CompilerDatabase,
    b: CompilerDatabase,
    f: FileId,
    scope: ModuleScope,
)
    requires
        scope_like_cell(a, f, scope),
        cell_value(b, QueryKey::ModuleScope(f)) == cell_value(a, QueryKey::ModuleScope(f)),
    ensures
        scope_like_cell(b, f, scope),
{
    match cell_value(a, QueryKey::ModuleScope(f)) {
        QueryValue::Scope(s0) => {
            assert(cell_value(b, QueryKey::ModuleScope(f)) == QueryValue::Scope(s0));
        },
        _ => {},
    }
}

pub proof fn lemma_ad_like_transfer(
    a: CompilerDatabase,
    b: CompilerDatabase,
    id: TypeAliasId,
    ad: TypeAliasData,
)
    requires
        ad_like_cell(a, id, ad),
        cell_value(b, QueryKey::TypeAliasData(id)) == cell_value(a, QueryKey::TypeAliasData(id)),
    ensures
        ad_like_cell(b, id, ad),
{
    match cell_value(a, QueryKey::TypeAliasData(id)) {
        QueryValue::AliasD(d) => {
            assert(cell_value(b, QueryKey::TypeAliasData(id)) == QueryValue::AliasD(d));
        },
        _ => {},
    }
}

pub proof fn lemma_sd_like_transfer(
    a: CompilerDatabase,
    b: CompilerDatabase,
    id: StructId,
    sd: crate::defs::StructData,
)
    requires
        sd_like_cell(a, id, sd),
        cell_value(b, QueryKey::StructData(id)) == cell_value(a, QueryKey::StructData(id)),
    ensures
        sd_like_cell(b, id, sd),
{
    match cell_value(a, QueryKey::StructData(id)) {
        QueryValue::StructD(d) => {
            assert(cell_value(b, QueryKey::StructData(id)) == QueryValue::StructD(d));
        },
        _ => {},
    }
}

pub proof fn lemma_fd_like_transfer(
    a: CompilerDatabase,
    b: CompilerDatabase,
    id: FunctionId,
    fd: crate::defs::FnData,
)
    requires
        fd_like_cell(a, id, fd),
        cell_value(b, QueryKey::FnData(id)) == cell_value(a, QueryKey::FnData(id)),
    ensures
        fd_like_cell(b, id, fd),
{
    match cell_value(a, QueryKey::FnData(id)) {
        QueryValue::FnD(d) => {
            assert(cell_value(b, QueryKey::FnData(id)) == QueryValue::FnD(d));
        },
        _ => {},
    }
}

/// A query's value specification reads only strictly lower cells and the
/// interning tables, so a write to the query's own cell leaves it standing.
proof fn lemma_value_post_stable(
    a: CompilerDatabase,
    b: CompilerDatabase,
    key: QueryKey,
    v: QueryValue,
)
    requires
        value_post(a, key, v),
        forall|k: QueryKey| k != key ==> #[trigger] cell_value(b, k) == cell_value(a, k),
        b.structs == a.structs,
        b.aliases == a.aliases,
        b.functions == a.functions,
    ensures
        value_post(b, key, v),
{
    match key {
        QueryKey::FileText(_) => {},
        QueryKey::Parse(f) => {
            assert(cell_value(b, QueryKey::FileText(f)) == cell_value(a, QueryKey::FileText(f)));
        },
        QueryKey::ItemTree(f) => {
            assert(cell_value(b, QueryKey::Parse(f)) == cell_value(a, QueryKey::Parse(f)));
        },
        QueryKey::StructData(si) => {
            if si.0 < a.structs.locs@.len() {
                let loc = a.structs.locs@[si.0 as int];
                assert(cell_value(b, QueryKey::ItemTree(loc.file)) == cell_value(
                    a,
                    QueryKey::ItemTree(loc.file),
                ));
                match v {
                    QueryValue::StructD(sd) => {
                        let item = choose|item: Item|
                            #[trigger] located_item_ok(a, loc, item)
                                && crate::defs::struct_data_rel(item, sd);
                        assert(located_item_ok(b, loc, item));
                    },
                    _ => {},
                }
            }
        },
        QueryKey::TypeAliasData(al) => {
            if al.0 < a.aliases.locs@.len() {
                let loc = a.aliases.locs@[al.0 as int];
                assert(cell_value(b, QueryKey::ItemTree(loc.file)) == cell_value(
                    a,
                    QueryKey::ItemTree(loc.file),
                ));
                match v {
                    QueryValue::AliasD(ad) => {
                        let item = choose|item: Item|
                            #[trigger] located_item_ok(a, loc, item)
                                && crate::defs::alias_data_rel(item, ad);
                        assert(located_item_ok(b, loc, item));
                    },
                    _ => {},
                }
            }
        },
        QueryKey::FnData(fi) => {
            if fi.0 < a.functions.locs@.len() {
                let loc = a.functions.locs@[fi.0 as int];
                assert(cell_value(b, QueryKey::ItemTree(loc.file)) == cell_value(
                    a,
                    QueryKey::ItemTree(loc.file),
                ));
                match v {
                    QueryValue::FnD(fd) => {
                        let item = choose|item: Item|
                            #[trigger] located_item_ok(a, loc, item)
                                && crate::defs::fn_data_rel(item, fd);
                        assert(located_item_ok(b, loc, item));
                    },
                    _ => {},
                }
            }
        },
        QueryKey::Body(fi) => {
            if fi.0 < a.functions.locs@.len() {
                let loc = a.functions.locs@[fi.0 as int];
                assert(cell_value(b, QueryKey::ItemTree(loc.file)) == cell_value(
                    a,
                    QueryKey::ItemTree(loc.file),
                ));
                match v {
                    QueryValue::BodyD(bd) => {
                        let item = choose|item: Item|
                            #[trigger] located_item_ok(a, loc, item) && crate::defs::body_rel(
                                item,
                                bd,
                            );
                        assert(located_item_ok(b, loc, item));
                    },
                    _ => {},
                }
            }
        },
        QueryKey::ModuleScope(f) => {
            assert(cell_value(b, QueryKey::ItemTree(f)) == cell_value(a, QueryKey::ItemTree(f)));
            match v {
                QueryValue::Scope(sc) => {
                    let items = choose|items: Seq<Item>|
                        #[trigger] items_like_cell(a, f, items) && scope_rel(a, f, items, sc);
                    assert(items_like_cell(b, f, items));
                    assert forall|idx: int| 0 <= idx < items.len() implies #[trigger] scope_entry_for(
                        f,
                        b.structs.locs@,
                        b.aliases.locs@,
                        b.functions.locs@,
                        items,
                        idx,
                        sc.entries@[decl_count(items, idx)],
                    ) by {
                        assert(scope_entry_for(
                            f,
                            a.structs.locs@,
                            a.aliases.locs@,
                            a.functions.locs@,
                            items,
                            idx,
                            sc.entries@[decl_count(items, idx)],
                        ));
                    }
                    assert(scope_rel(b, f, items, sc));
                },
                _ => {},
            }
        },
        QueryKey::TypeForDef(d, n) => {
            match (d, n) {
                (TypableDef::Struct(si), Namespace::Values) => {
                    assert(cell_value(b, QueryKey::StructData(si)) == cell_value(
                        a,
                        QueryKey::StructData(si),
                    ));
                },
                (TypableDef::TypeAlias(al), Namespace::Types) => {
                    if al.0 < a.aliases.locs@.len() {
                        let fl = a.aliases.locs@[al.0 as int].file;
                        match v {
                            QueryValue::TyPair(t, c) => {
                                let (scope, env) = choose|
                                    scope: ModuleScope,
                                    env: crate::ty::AliasEnv,
                                |
                                    scope_like_cell(a, fl, scope) && #[trigger] alias_env_like(
                                        a,
                                        scope,
                                        env,
                                    ) && ((t, c) == crate::ty::spec_resolve_alias(scope, env, al)
                                        || env.ids@.len() + 1 > usize::MAX);
                                assert(cell_value(b, QueryKey::ModuleScope(fl)) == cell_value(
                                    a,
                                    QueryKey::ModuleScope(fl),
                                ));
                                lemma_scope_like_transfer(a, b, fl, scope);
                                assert forall|j: int| 0 <= j < env.ids@.len() implies #[trigger] ad_like_cell(
                                    b,
                                    env.ids@[j],
                                    env.datas@[j],
                                ) by {
                                    assert(ad_like_cell(a, env.ids@[j], env.datas@[j]));
                                    assert(cell_value(b, QueryKey::TypeAliasData(env.ids@[j]))
                                        == cell_value(a, QueryKey::TypeAliasData(env.ids@[j])));
                                    lemma_ad_like_transfer(a, b, env.ids@[j], env.datas@[j]);
                                }
                                assert(alias_env_like(b, scope, env));
                            },
                            _ => {},
                        }
                    }
                },
                _ => {},
            }
        },
        QueryKey::CallableSig(cd) => {
            match cd {
                CallableDef::Function(fi) => {
                    if fi.0 < a.functions.locs@.len() {
                        let fl = a.functions.locs@[fi.0 as int].file;
                        match v {
                            QueryValue::Sig(sig) => {
                                let (fd, scope, tys) = choose|
                                    fd: crate::defs::FnData,
                                    scope: ModuleScope,
                                    tys: Seq<(Ty, bool)>,
                                |
                                    #[trigger] fd_like_cell(a, fi, fd) && scope_like_cell(
                                        a,
                                        fl,
                                        scope,
                                    ) && #[trigger] tys_like_cells(a, scope, tys) && sig_fn_rel(
                                        fd,
                                        scope,
                                        tys,
                                        sig,
                                    );
                                assert(cell_value(b, QueryKey::FnData(fi)) == cell_value(
                                    a,
                                    QueryKey::FnData(fi),
                                ));
                                lemma_fd_like_transfer(a, b, fi, fd);
                                assert(cell_value(b, QueryKey::ModuleScope(fl)) == cell_value(
                                    a,
                                    QueryKey::ModuleScope(fl),
                                ));
                                lemma_scope_like_transfer(a, b, fl, scope);
                                lemma_tys_like_transfer(a, b, scope, tys);
                            },
                            _ => {},
                        }
                    }
                },
                CallableDef::Struct(si) => {
                    if si.0 < a.structs.locs@.len() {
                        let fl = a.structs.locs@[si.0 as int].file;
                        match v {
                            QueryValue::Sig(sig) => {
                                let (sd, scope, tys) = choose|
                                    sd: crate::defs::StructData,
                                    scope: ModuleScope,
                                    tys: Seq<(Ty, bool)>,
                                |
                                    #[trigger] sd_like_cell(a, si, sd) && scope_like_cell(
                                        a,
                                        fl,
                                        scope,
                                    ) && #[trigger] tys_like_cells(a, scope, tys) && sig_ctor_rel(
                                        sd,
                                        scope,
                                        tys,
                                        si,
                                        sig,
                                    );
                                assert(cell_value(b, QueryKey::StructData(si)) == cell_value(
                                    a,
                                    QueryKey::StructData(si),
                                ));
                                lemma_sd_like_transfer(a, b, si, sd);
                                assert(cell_value(b, QueryKey::ModuleScope(fl)) == cell_value(
                                    a,
                                    QueryKey::ModuleScope(fl),
                                ));
                                lemma_scope_like_transfer(a, b, fl, scope);
                                lemma_tys_like_transfer(a, b, scope, tys);
                            },
                            _ => {},
                        }
                    }
                },
            }
        },
        QueryKey::LowerStruct(si) => {
            if si.0 < a.structs.locs@.len() {
                let fl = a.structs.locs@[si.0 as int].file;
                match v {
                    QueryValue::Lower(l) => {
                        let (sd, scope, tys) = choose|
                            sd: crate::defs::StructData,
                            scope: ModuleScope,
                            tys: Seq<(Ty, bool)>,
                        |
                            #[trigger] sd_like_cell(a, si, sd) && scope_like_cell(a, fl, scope)
                                && #[trigger] tys_like_cells(a, scope, tys) && lower_rel(
                                sd.type_ref_map.entries@,
                                scope,
                                tys,
                                l,
                            );
                        assert(cell_value(b, QueryKey::StructData(si)) == cell_value(
                            a,
                            QueryKey::StructData(si),
                        ));
                        lemma_sd_like_transfer(a, b, si, sd);
                        assert(cell_value(b, QueryKey::ModuleScope(fl)) == cell_value(
                            a,
                            QueryKey::ModuleScope(fl),
                        ));
                        lemma_scope_like_transfer(a, b, fl, scope);
                        lemma_tys_like_transfer(a, b, scope, tys);
                    },
                    _ => {},
                }
            }
        },
        QueryKey::LowerTypeAlias(al) => {
            if al.0 < a.aliases.locs@.len() {
                let fl = a.aliases.locs@[al.0 as int].file;
                match v {
                    QueryValue::Lower(l) => {
                        let (ad, scope, tys) = choose|
                            ad: TypeAliasData,
                            scope: ModuleScope,
                            tys: Seq<(Ty, bool)>,
                        |
                            #[trigger] ad_like_cell(a, al, ad) && scope_like_cell(a, fl, scope)
                                && #[trigger] tys_like_cells(a, scope, tys) && lower_rel(
                                ad.type_ref_map.entries@,
                                scope,
                                tys,
                                l,
                            );
                        assert(cell_value(b, QueryKey::TypeAliasData(al)) == cell_value(
                            a,
                            QueryKey::TypeAliasData(al),
                        ));
                        lemma_ad_like_transfer(a, b, al, ad);
                        assert(cell_value(b, QueryKey::ModuleScope(fl)) == cell_value(
                            a,
                            QueryKey::ModuleScope(fl),
                        ));
                        lemma_scope_like_transfer(a, b, fl, scope);
                        lemma_tys_like_transfer(a, b, scope, tys);
                    },
                    _ => {},
                }
            }
        },
    }
}

proof fn lemma_tys_like_transfer(
    a: CompilerDatabase,
    b: CompilerDatabase,
    scope: ModuleScope,
    tys: Seq<(Ty, bool)>,
)
    requires
        tys_like_cells(a, scope, tys),
        forall|k: QueryKey|
            (k matches QueryKey::TypeForDef(_, _)) ==> #[trigger] cell_value(b, k) == cell_value(
                a,
                k,
            ),
    ensures
        tys_like_cells(b, scope, tys),
{
    assert forall|j: int| 0 <= j < tys.len() implies (#[trigger] tys[j]) == ty_pair_of(
        cell_value(b, QueryKey::TypeForDef(typable_of(scope.entries@[j].def), Namespace::Types)),
    ) by {
        assert(cell_value(
            b,
            QueryKey::TypeForDef(typable_of(scope.entries@[j].def), Namespace::Types),
        ) == cell_value(
            a,
            QueryKey::TypeForDef(typable_of(scope.entries@[j].def), Namespace::Types),
        ));
    }
}

/// The validator's captured body agrees with the body cell.
pub open spec fn body_like_cell(db: CompilerDatabase, fi: FunctionId, b: crate::defs::BodyData) -> bool {
    match cell_value(db, QueryKey::Body(fi)) {
        QueryValue::BodyD(bb) => b == bb,
        _ => crate::defs::body_rel(zero_err_item(), b),
    }
}

/// The validator's captured signature agrees with the signature cell.
pub open spec fn sig_like_cell(db: CompilerDatabase, fi: FunctionId, sig: crate::ty::FnSig) -> bool {
    match cell_value(db, QueryKey::CallableSig(CallableDef::Function(fi))) {
        QueryValue::Sig(sg) => crate::ty::sig_eq(sig, sg),
        _ => sig.params@.len() == 0 && sig.ret == Ty::Unknown,
    }
}

pub proof fn lemma_body_like_transfer(
    a: CompilerDatabase,
    b: CompilerDatabase,
    fi: FunctionId,
    bd: crate::defs::BodyData,
)
    requires
        body_like_cell(a, fi, bd),
        cell_value(b, QueryKey::Body(fi)) == cell_value(a, QueryKey::Body(fi)),
    ensures
        body_like_cell(b, fi, bd),
{
    match cell_value(a, QueryKey::Body(fi)) {
        QueryValue::BodyD(bb) => {
            assert(cell_value(b, QueryKey::Body(fi)) == QueryValue::BodyD(bb));
        },
        _ => {},
    }
}

/// The current text of a file: its input cell's bytes, empty when unset.
pub open spec fn input_text(db: CompilerDatabase, f: FileId) -> Seq<u8> {
    match cell_value(db, QueryKey::FileText(f)) {
        QueryValue::Text(t) => t@,
        _ => Seq::<u8>::empty(),
    }
}

/// What the parse query stores: the total parse of the file's current text.
pub open spec fn parse_post(db: CompilerDatabase, f: FileId, v: QueryValue) -> bool {
    v matches QueryValue::Tree(sf) && crate::parser::parse_rel(input_text(db, f), sf)
}

/// The items the file's item-tree cell holds, empty when it holds none.
pub open spec fn tree_items(db: CompilerDatabase, f: FileId) -> Seq<Item> {
    match cell_value(db, QueryKey::ItemTree(f)) {
        QueryValue::Items(t) => t.items@,
        _ => Seq::<Item>::empty(),
    }
}

/// What the item-tree query stores: the declarations of the parse cell.
pub open spec fn item_tree_post(db: CompilerDatabase, f: FileId, v: QueryValue) -> bool {
    v matches QueryValue::Items(t) && (match cell_value(db, QueryKey::Parse(f)) {
        QueryValue::Tree(sf) => crate::syntax::items_eq(t.items@, sf.items@),
        _ => t.items@.len() == 0,
    })
}

/// `item` is the declaration at `loc` in its file's current item tree, or the
/// error placeholder when the tree has no such position.
pub open spec fn located_item_ok(db: CompilerDatabase, loc: ItemLoc, item: Item) -> bool {
    if (loc.index as int) < tree_items(db, loc.file).len() {
        crate::syntax::item_eq(item, tree_items(db, loc.file)[loc.index as int])
    } else {
        item matches Item::ErrorItem { .. }
    }
}

/// What the struct-data query stores: for a minted identifier, the data
/// extracted from the declaration at its interned location; for an identifier
/// no table minted, the missing value.
pub open spec fn struct_data_post(db: CompilerDatabase, s: StructId, v: QueryValue) -> bool {
    if s.0 < db.structs.locs@.len() {
        v matches QueryValue::StructD(sd) && exists|item: Item|
            #[trigger] located_item_ok(db, db.structs.locs@[s.0 as int], item)
                && crate::defs::struct_data_rel(item, sd)
    } else {
        v matches QueryValue::Missing
    }
}

pub open spec fn alias_data_post(db: CompilerDatabase, a: TypeAliasId, v: QueryValue) -> bool {
    if a.0 < db.aliases.locs@.len() {
        v matches QueryValue::AliasD(ad) && exists|item: Item|
            #[trigger] located_item_ok(db, db.aliases.locs@[a.0 as int], item)
                && crate::defs::alias_data_rel(item, ad)
    } else {
        v matches QueryValue::Missing
    }
}

pub open spec fn fn_data_post(db: CompilerDatabase, f: FunctionId, v: QueryValue) -> bool {
    if f.0 < db.functions.locs@.len() {
        v matches QueryValue::FnD(fd) && exists|item: Item|
            #[trigger] located_item_ok(db, db.functions.locs@[f.0 as int], item)
                && crate::defs::fn_data_rel(item, fd)
    } else {
        v matches QueryValue::Missing
    }
}

pub open spec fn body_post(db: CompilerDatabase, f: FunctionId, v: QueryValue) -> bool {
    if f.0 < db.functions.locs@.len() {
        v matches QueryValue::BodyD(b) && exists|item: Item|
            #[trigger] located_item_ok(db, db.functions.locs@[f.0 as int], item)
                && crate::defs::body_rel(item, b)
    } else {
        v matches QueryValue::Missing
    }
}

/// The number of declarations (non-error items) among the first `n` items.
pub open spec fn decl_count(items: Seq<Item>, n: int) -> int
    decreases n,
{
    if n <= 0 {
        0
    } else {
        decl_count(items, n - 1) + (if items[n - 1] matches Item::ErrorItem { .. } {
            0int
        } else {
            1int
        })
    }
}

pub proof fn lemma_decl_count_mono(items: Seq<Item>, a: int, b: int)
    requires
        0 <= a <= b,
    ensures
        decl_count(items, a) <= decl_count(items, b),
        decl_count(items, b) <= decl_count(items, a) + (b - a),
    decreases b - a,
{
    if a < b {
        lemma_decl_count_mono(items, a, b - 1);
    }
}

/// A scope entry carries a declaration's name, and a stable identifier that
/// the right interning table resolves back to the declaration's structural
/// key (this file, this item-tree position).
pub open spec fn scope_entry_for(
    f: FileId,
    slocs: Seq<ItemLoc>,
    alocs: Seq<ItemLoc>,
    flocs: Seq<ItemLoc>,
    items: Seq<Item>,
    idx: int,
    e: ScopeEntry,
) -> bool {
    match items[idx] {
        Item::StructItem { name, .. } => e.name@ == name@ && (e.def matches ScopeDef::Struct(s)
            && crate::intern::loc_first(slocs, ItemLoc { file: f, index: idx as usize }, s.0 as int)),
        Item::AliasItem { name, .. } => e.name@ == name@ && (e.def matches ScopeDef::TypeAlias(a)
            && crate::intern::loc_first(alocs, ItemLoc { file: f, index: idx as usize }, a.0 as int)),
        Item::FnItem { name, .. } => e.name@ == name@ && (e.def matches ScopeDef::Function(fu)
            && crate::intern::loc_first(flocs, ItemLoc { file: f, index: idx as usize }, fu.0 as int)),
        Item::ErrorItem { .. } => true,
    }
}

pub open spec fn name_int() -> Seq<u8> {
    seq![105u8, 110u8, 116u8]
}

pub open spec fn name_float() -> Seq<u8> {
    seq![102u8, 108u8, 111u8, 97u8, 116u8]
}

pub open spec fn name_bool() -> Seq<u8> {
    seq![98u8, 111u8, 111u8, 108u8]
}

/// A scope ends with the three built-in fundamental types, in this order.
pub open spec fn builtin_tail_ok(s: ModuleScope) -> bool {
    let n = s.entries@.len() as int;
    &&& n >= 3
    &&& s.entries@[n - 3].name@ == name_int() && s.entries@[n - 3].def == ScopeDef::Builtin(
        crate::ids::BuiltinType::Int,
    )
    &&& s.entries@[n - 2].name@ == name_float() && s.entries@[n - 2].def == ScopeDef::Builtin(
        crate::ids::BuiltinType::Float,
    )
    &&& s.entries@[n - 1].name@ == name_bool() && s.entries@[n - 1].def == ScopeDef::Builtin(
        crate::ids::BuiltinType::Bool,
    )
}

/// What the module-scope query stores, relative to a file's items: one entry
/// per declaration in item order, interned in the engine's tables, with the
/// built-in types after them.
pub open spec fn scope_rel(db: CompilerDatabase, f: FileId, items: Seq<Item>, s: ModuleScope) -> bool {
    &&& s.entries@.len() as int == decl_count(items, items.len() as int) + 3
    &&& forall|idx: int|
        0 <= idx < items.len() ==> #[trigger] scope_entry_for(
            f,
            db.structs.locs@,
            db.aliases.locs@,
            db.functions.locs@,
            items,
            idx,
            s.entries@[decl_count(items, idx)],
        )
    &&& builtin_tail_ok(s)
}

/// `items` are (equal to) the file's current item-tree cell contents.
pub open spec fn items_like_cell(db: CompilerDatabase, f: FileId, items: Seq<Item>) -> bool {
    match cell_value(db, QueryKey::ItemTree(f)) {
        QueryValue::Items(t) => crate::syntax::items_eq(items, t.items@),
        _ => items.len() == 0,
    }
}

pub open spec fn scope_post(db: CompilerDatabase, f: FileId, v: QueryValue) -> bool {
    v matches QueryValue::Scope(s) && exists|items: Seq<Item>|
        #[trigger] items_like_cell(db, f, items) && scope_rel(db, f, items, s)
}

pub open spec fn typable_of(d: ScopeDef) -> TypableDef {
    match d {
        ScopeDef::Struct(s) => TypableDef::Struct(s),
        ScopeDef::Function(fu) => TypableDef::Function(fu),
        ScopeDef::TypeAlias(a) => TypableDef::TypeAlias(a),
        ScopeDef::Builtin(b) => TypableDef::BuiltinType(b),
    }
}

pub open spec fn ty_pair_of(v: QueryValue) -> (Ty, bool) {
    match v {
        QueryValue::TyPair(t, c) => (t, c),
        _ => (Ty::Unknown, false),
    }
}

/// The declared-type table that signature building and lowering read: one
/// `(type, cycle flag)` per scope entry, straight out of the declared-type
/// cells.
pub open spec fn tys_like_cells(db: CompilerDatabase, scope: ModuleScope, tys: Seq<(Ty, bool)>) -> bool {
    &&& tys.len() == scope.entries@.len()
    &&& forall|j: int|
        0 <= j < tys.len() ==> (#[trigger] tys[j]) == ty_pair_of(
            cell_value(
                db,
                QueryKey::TypeForDef(typable_of(scope.entries@[j].def), Namespace::Types),
            ),
        )
}

pub open spec fn scope_like_cell(db: CompilerDatabase, f: FileId, scope: ModuleScope) -> bool {
    match cell_value(db, QueryKey::ModuleScope(f)) {
        QueryValue::Scope(s0) => crate::defs::scope_eq(scope, s0),
        _ => scope.entries@.len() == 0,
    }
}

pub open spec fn zero_err_item() -> Item {
    Item::ErrorItem { span: Span { line: 0, start: 0, len: 0 } }
}

pub open spec fn sd_like_cell(db: CompilerDatabase, s: StructId, sd: crate::defs::StructData) -> bool {
    match cell_value(db, QueryKey::StructData(s)) {
        QueryValue::StructD(d) => crate::defs::sd_eq(sd, d),
        _ => crate::defs::struct_data_rel(zero_err_item(), sd),
    }
}

pub open spec fn ad_like_cell(db: CompilerDatabase, a: TypeAliasId, ad: TypeAliasData) -> bool {
    match cell_value(db, QueryKey::TypeAliasData(a)) {
        QueryValue::AliasD(d) => crate::defs::ad_eq(ad, d),
        _ => crate::defs::alias_data_rel(zero_err_item(), ad),
    }
}

pub open spec fn fd_like_cell(db: CompilerDatabase, fi: FunctionId, fd: crate::defs::FnData) -> bool {
    match cell_value(db, QueryKey::FnData(fi)) {
        QueryValue::FnD(d) => crate::defs::fd_eq(fd, d),
        _ => crate::defs::fn_data_rel(zero_err_item(), fd),
    }
}

/// The alias identifiers among the first `n` scope entries, in scope order.
pub open spec fn alias_ids_upto(entries: Seq<ScopeEntry>, n: int) -> Seq<TypeAliasId>
    decreases n,
{
    if n <= 0 {
        Seq::<TypeAliasId>::empty()
    } else {
        alias_ids_upto(entries, n - 1) + (match entries[n - 1].def {
            ScopeDef::TypeAlias(a) => seq![a],
            _ => Seq::<TypeAliasId>::empty(),
        })
    }
}

/// The alias environment resolution runs over: the scope's aliases in order,
/// each with the data its cell holds.
pub open spec fn alias_env_like(db: CompilerDatabase, scope: ModuleScope, env: crate::ty::AliasEnv) -> bool {
    &&& env.ids@ == alias_ids_upto(scope.entries@, scope.entries@.len() as int)
    &&& env.datas@.len() == env.ids@.len()
    &&& forall|j: int|
        0 <= j < env.ids@.len() ==> #[trigger] ad_like_cell(db, env.ids@[j], env.datas@[j])
}

/// What the declared-type query stores: the namespace rules of the language,
/// with the alias case resolved through the cached scope and alias data.
pub open spec fn type_for_def_post(
    db: CompilerDatabase,
    def: TypableDef,
    ns: Namespace,
    v: QueryValue,
) -> bool {
    v matches QueryValue::TyPair(t, c) && (match (def, ns) {
        (TypableDef::BuiltinType(b), Namespace::Types) => t == crate::ty::spec_type_for_builtin(b)
            && !c,
        (TypableDef::Function(fi), Namespace::Values) => t == Ty::FnDef(CallableDef::Function(fi))
            && !c,
        (TypableDef::Struct(si), Namespace::Types) => t == Ty::Struct(si) && !c,
        (TypableDef::Struct(si), Namespace::Values) => !c && (match cell_value(
            db,
            QueryKey::StructData(si),
        ) {
            QueryValue::StructD(sd) => t == (if sd.kind == crate::syntax::StructKind::Tuple {
                Ty::FnDef(CallableDef::Struct(si))
            } else {
                Ty::Struct(si)
            }),
            _ => t == Ty::Unknown,
        }),
        (TypableDef::TypeAlias(al), Namespace::Types) => {
            if al.0 < db.aliases.locs@.len() {
                exists|scope: ModuleScope, env: crate::ty::AliasEnv|
                    scope_like_cell(db, db.aliases.locs@[al.0 as int].file, scope)
                        && #[trigger] alias_env_like(db, scope, env) && ((t, c)
                        == crate::ty::spec_resolve_alias(scope, env, al) || env.ids@.len() + 1
                        > usize::MAX)
            } else {
                t == Ty::Unknown && !c
            }
        },
        _ => t == Ty::Unknown && !c,
    })
}

/// A function signature against the cached data: each parameter annotation
/// lowered in order, then the return annotation.
pub open spec fn sig_fn_rel(
    fd: crate::defs::FnData,
    scope: ModuleScope,
    tys: Seq<(Ty, bool)>,
    sig: crate::ty::FnSig,
) -> bool {
    &&& sig.params@.len() == fd.params@.len()
    &&& forall|j: int|
        0 <= j < fd.params@.len() ==> (#[trigger] sig.params@[j]) == crate::ty::spec_lower_at(
            fd.type_ref_map.entries@,
            scope,
            tys,
            fd.params@[j] as int,
        )
    &&& sig.ret == crate::ty::spec_lower_at(fd.type_ref_map.entries@, scope, tys, fd.ret_type as int)
}

/// A tuple constructor signature against the cached data: each field
/// annotation lowered in order, returning the struct's own type.
pub open spec fn sig_ctor_rel(
    sd: crate::defs::StructData,
    scope: ModuleScope,
    tys: Seq<(Ty, bool)>,
    si: StructId,
    sig: crate::ty::FnSig,
) -> bool {
    &&& sig.params@.len() == sd.fields@.len()
    &&& forall|j: int|
        0 <= j < sd.fields@.len() ==> (#[trigger] sig.params@[j]) == crate::ty::spec_lower_at(
            sd.type_ref_map.entries@,
            scope,
            tys,
            sd.fields@[j].type_ref as int,
        )
    &&& sig.ret == Ty::Struct(si)
}

/// What the signature query stores.
pub open spec fn sig_post(db: CompilerDatabase, cd: CallableDef, v: QueryValue) -> bool {
    match cd {
        CallableDef::Function(fi) => {
            if fi.0 < db.functions.locs@.len() {
                v matches QueryValue::Sig(sig) && exists|
                    fd: crate::defs::FnData,
                    scope: ModuleScope,
                    tys: Seq<(Ty, bool)>,
                |
                    #[trigger] fd_like_cell(db, fi, fd) && scope_like_cell(
                        db,
                        db.functions.locs@[fi.0 as int].file,
                        scope,
                    ) && #[trigger] tys_like_cells(db, scope, tys) && sig_fn_rel(fd, scope, tys, sig)
            } else {
                v matches QueryValue::Missing
            }
        },
        CallableDef::Struct(si) => {
            if si.0 < db.structs.locs@.len() {
                v matches QueryValue::Sig(sig) && exists|
                    sd: crate::defs::StructData,
                    scope: ModuleScope,
                    tys: Seq<(Ty, bool)>,
                |
                    #[trigger] sd_like_cell(db, si, sd) && scope_like_cell(
                        db,
                        db.structs.locs@[si.0 as int].file,
                        scope,
                    ) && #[trigger] tys_like_cells(db, scope, tys) && sig_ctor_rel(
                        sd,
                        scope,
                        tys,
                        si,
                        sig,
                    )
            } else {
                v matches QueryValue::Missing
            }
        },
    }
}

/// A batch lowering against the cached data: a type for every arena index
/// and exactly the diagnostics the arena provokes.
pub open spec fn lower_rel(
    entries: Seq<crate::syntax::TypeRef>,
    scope: ModuleScope,
    tys: Seq<(Ty, bool)>,
    l: crate::ty::LowerBatchResult,
) -> bool {
    &&& l.type_ref_to_type@.len() == entries.len()
    &&& forall|i: int|
        0 <= i < entries.len() ==> (#[trigger] l.type_ref_to_type@[i]) == crate::ty::spec_lower_ty(
            entries,
            scope,
            tys,
            i,
        )
    &&& l.diagnostics@ == crate::ty::spec_lower_diags(entries, scope, tys, entries.len() as int)
}

/// What the two batch-lowering queries store.
pub open spec fn lower_struct_post(db: CompilerDatabase, si: StructId, v: QueryValue) -> bool {
    if si.0 < db.structs.locs@.len() {
        v matches QueryValue::Lower(l) && exists|
            sd: crate::defs::StructData,
            scope: ModuleScope,
            tys: Seq<(Ty, bool)>,
        |
            #[trigger] sd_like_cell(db, si, sd) && scope_like_cell(
                db,
                db.structs.locs@[si.0 as int].file,
                scope,
            ) && #[trigger] tys_like_cells(db, scope, tys) && lower_rel(
                sd.type_ref_map.entries@,
                scope,
                tys,
                l,
            )
    } else {
        v matches QueryValue::Missing
    }
}

pub open spec fn lower_alias_post(db: CompilerDatabase, al: TypeAliasId, v: QueryValue) -> bool {
    if al.0 < db.aliases.locs@.len() {
        v matches QueryValue::Lower(l) && exists|
            ad: TypeAliasData,
            scope: ModuleScope,
            tys: Seq<(Ty, bool)>,
        |
            #[trigger] ad_like_cell(db, al, ad) && scope_like_cell(
                db,
                db.aliases.locs@[al.0 as int].file,
                scope,
            ) && #[trigger] tys_like_cells(db, scope, tys) && lower_rel(
                ad.type_ref_map.entries@,
                scope,
                tys,
                l,
            )
    } else {
        v matches QueryValue::Missing
    }
}

/// What every query stores, dispatched by key.
pub open spec fn value_post(db: CompilerDatabase, key: QueryKey, v: QueryValue) -> bool {
    match key {
        QueryKey::FileText(_) => true,
        QueryKey::Parse(f) => parse_post(db, f, v),
        QueryKey::ItemTree(f) => item_tree_post(db, f, v),
        QueryKey::StructData(s) => struct_data_post(db, s, v),
        QueryKey::TypeAliasData(a) => alias_data_post(db, a, v),
        QueryKey::FnData(fi) => fn_data_post(db, fi, v),
        QueryKey::Body(fi) => body_post(db, fi, v),
        QueryKey::ModuleScope(f) => scope_post(db, f, v),
        QueryKey::TypeForDef(d, n) => type_for_def_post(db, d, n, v),
        QueryKey::CallableSig(cd) => sig_post(db, cd, v),
        QueryKey::LowerStruct(si) => lower_struct_post(db, si, v),
        QueryKey::LowerTypeAlias(al) => lower_alias_post(db, al, v),
    }
}

impl CompilerDatabase {
    /// The engine's own invariant: the ledger is well formed and the
    /// interning tables hold no duplicate structural key.
    pub open spec fn wf(self) -> bool {
        &&& cells_wf(self.cells@, self.revision)
        &&& self.structs.wf()
        &&& self.aliases.wf()
        &&& self.functions.wf()
    }

    /// Constructs a new database with the given configuration.
    pub fn new(config: &Config) -> (r: CompilerDatabase)
        ensures
            r.wf(),
            r.revision == 0,
            r.cells@.len() == 0,
            config_eq(r.config, *config),
            r.backend.cached matches Option::None,
            r.backend.next_token == 0,
            r.structs.locs@.len() == 0,
            r.aliases.locs@.len() == 0,
            r.functions.locs@.len() == 0,
    {
        CompilerDatabase {
            revision: 0,
            cells: Vec::new(),
            structs: InternTable::new(),
            aliases: InternTable::new(),
            functions: InternTable::new(),
            config: config_clone(config),
            backend: BackendCache::new(),
        }
    }

    /// Applies a configuration to the database. This is an input mutation:
    /// the global revision moves.
    pub fn set_config(&mut self, config: &Config)
        requires
            old(self).wf(),
            old(self).revision < u64::MAX,
        ensures
            final(self).wf(),
            final(self).revision == old(self).revision + 1,
            config_eq(final(self).config, *config),
            final(self).cells@ == old(self).cells@,
            final(self).structs == old(self).structs,
            final(self).aliases == old(self).aliases,
            final(self).functions == old(self).functions,
            final(self).backend == old(self).backend,
    {
        self.revision = self.revision + 1;
        self.config = config_clone(config);
        proof {
            assert forall|i: int| 0 <= i < self.cells@.len() implies crate::memo::cell_ok(
                #[trigger] self.cells@[i],
                self.revision,
            ) by {
                assert(crate::memo::cell_ok(self.cells@[i], old(self).revision));
            }
        }
    }

    /// Mutates the text of one file: bumps the global revision and sets the
    /// input cell's value, changed-revision and verified-revision to the new
    /// revision. No other cell is touched.
    pub fn set_file_text(&mut self, file: FileId, text: Vec<u8>)
        requires
            old(self).wf(),
            old(self).revision < u64::MAX,
        ensures
            final(self).wf(),
            final(self).revision == old(self).revision + 1,
            final(self).structs == old(self).structs,
            final(self).aliases == old(self).aliases,
            final(self).functions == old(self).functions,
            final(self).backend == old(self).backend,
            final(self).config == old(self).config,
            // every other cell, and every prior changed-revision, is untouched
            forall|i: int|
                0 <= i < old(self).cells@.len() && old(self).cells@[i].key != QueryKey::FileText(
                    file,
                ) ==> final(self).cells@[i] == old(self).cells@[i],
            forall|i: int|
                0 <= i < old(self).cells@.len() ==> (#[trigger] final(self).cells@[i]).key == old(
                    self,
                ).cells@[i].key,
            old(self).cells@.len() <= final(self).cells@.len() <= old(self).cells@.len() + 1,
            forall|k: QueryKey|
                k != QueryKey::FileText(file) ==> #[trigger] cell_value(*final(self), k)
                    == cell_value(*old(self), k),
            // the input's cell exists, carries the text, and changed now
            exists|i: int|
                #[trigger] key_first(final(self).cells@, QueryKey::FileText(file), i)
                    && final(self).cells@[i].changed_at == final(self).revision && final(self).cells@[i].value == QueryValue::Text(text),
    {
        self.revision = self.revision + 1;
        proof {
            assert forall|i: int| 0 <= i < self.cells@.len() implies crate::memo::cell_ok(
                #[trigger] self.cells@[i],
                self.revision,
            ) by {
                assert(crate::memo::cell_ok(self.cells@[i], old(self).revision));
            }
        }
        let key = QueryKey::FileText(file);
        let newcell = Cell {
            key,
            value: QueryValue::Text(text),
            changed_at: self.revision,
            verified_at: self.revision,
            deps: Vec::new(),
            cyclic: false,
        };
        match find_cell(&self.cells, key) {
            Some(i) => {
                self.cells[i] = newcell;
                proof {
                    assert(key_first(self.cells@, key, i as int));
                    lemma_untouched_values(*old(self), *self, key);
                }
            },
            None => {
                let ghost n = self.cells@.len();
                self.cells.push(newcell);
                proof {
                    assert(key_first(self.cells@, key, n as int));
                    lemma_untouched_values(*old(self), *self, key);
                }
            },
        }
    }

    /// The global revision.
    pub fn current_revision(&self) -> (r: u64)
        ensures
            r == self.revision,
    {
        self.revision
    }

    /// The revision at which a query's cached value last changed, if the
    /// query has a cell at all. Read-only introspection of the ledger.
    pub fn cell_changed_at(&self, key: QueryKey) -> (r: Option<u64>)
        ensures
            match r {
                Some(c) => exists|i: int|
                    #[trigger] key_first(self.cells@, key, i) && self.cells@[i].changed_at == c,
                None => forall|i: int|
                    0 <= i < self.cells@.len() ==> (#[trigger] self.cells@[i]).key != key,
            },
    {
        match find_cell(&self.cells, key) {
            Some(i) => Some(self.cells[i].changed_at),
            None => None,
        }
    }

    /// The backend resource for the current configuration: rebuilt only when
    /// the configuration inputs changed, and cached outside the memo table.
    pub fn target_machine(&mut self) -> (h: TargetMachineHandle)
        requires
            old(self).wf(),
            old(self).backend.next_token < u64::MAX,
        ensures
            final(self).wf(),
            final(self).revision == old(self).revision,
            final(self).cells@ == old(self).cells@,
            final(self).config == old(self).config,
            match old(self).backend.cached {
                Some(p) => {
                    if config_eq(p.0, old(self).config) {
                        h == p.1 && final(self).backend == old(self).backend
                    } else {
                        h.token == old(self).backend.next_token && final(self).backend.next_token
                            == old(self).backend.next_token + 1 && (final(self).backend.cached
                            matches Some(q) && q.1 == h && config_eq(q.0, old(self).config))
                    }
                },
                None => h.token == old(self).backend.next_token && final(self).backend.next_token
                    == old(self).backend.next_token + 1 && (final(self).backend.cached matches Some(
                    q,
                ) && q.1 == h && config_eq(q.0, old(self).config)),
            },
    {
        self.backend.get(&self.config)
    }

    // -----------------------------------------------------------------------
    // The ledger's two write operations: store after a recomputation, and
    // the green mark after a successful dependency walk.
    // -----------------------------------------------------------------------

    /// Record a computed value: compare it with the cached one and keep the
    /// old changed-revision when they are equal (the early cutoff), else
    /// stamp the current revision; either way the cell is now verified.
    fn store(&mut self, key: QueryKey, value: QueryValue, deps: Vec<QueryKey>, cyclic: bool)
        requires
            old(self).wf(),
            rank_of(key) >= 1,
            forall|d: int| 0 <= d < deps@.len() ==> rank_of(#[trigger] deps@[d]) < rank_of(key),
            forall|i: int|
                key_first(old(self).cells@, key, i) ==> old(self).cells@[i].verified_at < old(self).revision,
        ensures
            final(self).wf(),
            evolved(*old(self), *final(self), rank_of(key)),
            forall|i: int|
                0 <= i < old(self).cells@.len() && old(self).cells@[i].key != key ==> final(self).cells@[i] == old(self).cells@[i],
            exists|i: int|
                #[trigger] key_first(final(self).cells@, key, i) && final(self).cells@[i].verified_at
                    == final(self).revision && final(self).cells@[i].value == value && final(self).cells@[i].cyclic == cyclic,
            forall|k: QueryKey|
                k != key ==> #[trigger] cell_value(*final(self), k) == cell_value(*old(self), k),
            final(self).structs == old(self).structs,
            final(self).aliases == old(self).aliases,
            final(self).functions == old(self).functions,
    {
        let rev = self.revision;
        match find_cell(&self.cells, key) {
            Some(i) => {
                let keep = qv_eq_exec(&value, &self.cells[i].value);
                let changed_at = if keep {
                    self.cells[i].changed_at
                } else {
                    rev
                };
                let newcell = Cell { key, value, changed_at, verified_at: rev, deps, cyclic };
                proof {
                    assert(crate::memo::cell_ok(old(self).cells@[i as int], old(self).revision));
                }
                self.cells[i] = newcell;
                proof {
                    assert(key_first(self.cells@, key, i as int));
                    assert(self.structs.locs@.is_prefix_of(self.structs.locs@));
                    assert(self.aliases.locs@.is_prefix_of(self.aliases.locs@));
                    assert(self.functions.locs@.is_prefix_of(self.functions.locs@));
                    assert forall|p: int| 0 <= p < old(self).cells@.len() implies cell_evolved(
                        #[trigger] old(self).cells@[p],
                        #[trigger] self.cells@[p],
                        old(self).revision,
                        rank_of(key),
                    ) by {}
                    lemma_untouched_values(*old(self), *self, key);
                }
            },
            None => {
                let ghost n = self.cells@.len();
                let newcell = Cell { key, value, changed_at: rev, verified_at: rev, deps, cyclic };
                self.cells.push(newcell);
                proof {
                    assert(key_first(self.cells@, key, n as int));
                    assert(self.structs.locs@.is_prefix_of(self.structs.locs@));
                    assert(self.aliases.locs@.is_prefix_of(self.aliases.locs@));
                    assert(self.functions.locs@.is_prefix_of(self.functions.locs@));
                    assert forall|p: int| 0 <= p < old(self).cells@.len() implies cell_evolved(
                        #[trigger] old(self).cells@[p],
                        #[trigger] self.cells@[p],
                        old(self).revision,
                        rank_of(key),
                    ) by {}
                    lemma_untouched_values(*old(self), *self, key);
                }
            },
        }
    }

    /// Mark a cell verified at the current revision without recomputing: the
    /// dependency walk found every dependency's changed-revision at or below
    /// this cell's previous verified-revision.
    fn mark_green(&mut self, i: usize)
        requires
            old(self).wf(),
            i < old(self).cells@.len(),
            old(self).cells@[i as int].verified_at < old(self).revision,
            rank_of(old(self).cells@[i as int].key) >= 1,
        ensures
            final(self).wf(),
            evolved(*old(self), *final(self), rank_of(old(self).cells@[i as int].key)),
            forall|p: int|
                0 <= p < old(self).cells@.len() && p != i ==> final(self).cells@[p] == old(self).cells@[p],
            final(self).cells@.len() == old(self).cells@.len(),
            final(self).cells@[i as int].key == old(self).cells@[i as int].key,
            final(self).cells@[i as int].verified_at == final(self).revision,
            qv_eq(final(self).cells@[i as int].value, old(self).cells@[i as int].value),
            forall|k: QueryKey|
                k != old(self).cells@[i as int].key ==> #[trigger] cell_value(*final(self), k)
                    == cell_value(*old(self), k),
            final(self).structs == old(self).structs,
            final(self).aliases == old(self).aliases,
            final(self).functions == old(self).functions,
    {
        let rev = self.revision;
        let newcell = Cell {
            key: self.cells[i].key,
            value: qv_clone(&self.cells[i].value),
            changed_at: self.cells[i].changed_at,
            verified_at: rev,
            deps: keys_clone(&self.cells[i].deps),
            cyclic: self.cells[i].cyclic,
        };
        proof {
            assert(crate::memo::cell_ok(old(self).cells@[i as int], old(self).revision));
        }
        self.cells[i] = newcell;
        proof {
            assert(self.structs.locs@.is_prefix_of(self.structs.locs@));
            assert(self.aliases.locs@.is_prefix_of(self.aliases.locs@));
            assert(self.functions.locs@.is_prefix_of(self.functions.locs@));
            assert forall|p: int| 0 <= p < old(self).cells@.len() implies cell_evolved(
                #[trigger] old(self).cells@[p],
                #[trigger] self.cells@[p],
                old(self).revision,
                rank_of(old(self).cells@[i as int].key),
            ) by {}
            lemma_untouched_values(*old(self), *self, old(self).cells@[i as int].key);
        }
    }

    /// A fresh copy of a key's cached value.
    fn value_back(&self, key: QueryKey) -> (r: QueryValue)
        requires
            exists|i: int| #[trigger] key_first(self.cells@, key, i),
        ensures
            exists|i: int|
                #[trigger] key_first(self.cells@, key, i) && qv_eq(r, self.cells@[i].value),
    {
        match find_cell(&self.cells, key) {
            Some(i) => qv_clone(&self.cells[i].value),
            None => {
                proof {
                    let w = choose|i: int| #[trigger] key_first(self.cells@, key, i);
                    assert(self.cells@[w].key != key);
                }
                QueryValue::Missing
            },
        }
    }

    /// Walk a stale cell's recorded dependencies in the order they were read,
    /// re-validating each, and report whether every one of them last changed
    /// at or before this cell's previous verified-revision.
    fn try_green(&mut self, key: QueryKey, i: usize, Ghost(b): Ghost<int>) -> (ok: bool)
        requires
            old(self).wf(),
            b == rank_of(key),
            b >= 1,
            key_first(old(self).cells@, key, i as int),
            old(self).cells@[i as int].verified_at < old(self).revision,
        ensures
            final(self).wf(),
            evolved(*old(self), *final(self), b - 1),
            b <= 2 ==> final(self).structs == old(self).structs && final(self).aliases == old(
                self,
            ).aliases && final(self).functions == old(self).functions,
        decreases b, 0int,
    {
        let v0 = self.cells[i].verified_at;
        let deps = keys_clone(&self.cells[i].deps);
        let ghost db0 = *self;
        proof {
            lemma_evolved_refl(db0, b - 1);
            assert(crate::memo::cell_ok(db0.cells@[i as int], db0.revision));
        }
        let mut j: usize = 0;
        while j < deps.len()
            invariant
                self.wf(),
                db0 == *old(self),
                evolved(db0, *self, b - 1),
                b == rank_of(key),
                b >= 1,
                b <= 2 ==> self.structs == db0.structs && self.aliases == db0.aliases
                    && self.functions == db0.functions,
                forall|d: int| 0 <= d < deps@.len() ==> rank_of(#[trigger] deps@[d]) < b,
            decreases deps@.len() - j,
        {
            let d = deps[j];
            let ghost mid = *self;
            let _ = self.eval(d);
            proof {
                lemma_evolved_widen(mid, *self, rank_of(d), b - 1);
                lemma_evolved_trans(db0, mid, *self, b - 1);
            }
            let ca: u64 = match find_cell(&self.cells, d) {
                Some(di) => self.cells[di].changed_at,
                None => 0,
            };
            if ca > v0 {
                return false;
            }
            j += 1;
        }
        true
    }

    // -----------------------------------------------------------------------
    // The computation of each query, reading lower layers through `eval` and
    // appending each read to the active dependency list.
    // -----------------------------------------------------------------------

    fn compute_parse(&mut self, f: FileId) -> (out: (QueryValue, Vec<QueryKey>))
        requires
            old(self).wf(),
        ensures
            final(self).wf(),
            evolved(*old(self), *final(self), 0int),
            forall|d: int| 0 <= d < out.1@.len() ==> rank_of(#[trigger] out.1@[d]) < 1,
            parse_post(*final(self), f, out.0),
            final(self).structs == old(self).structs,
            final(self).aliases == old(self).aliases,
            final(self).functions == old(self).functions,
        decreases 1int, 0int,
    {
        let mut reads: Vec<QueryKey> = Vec::new();
        let tv = self.eval(QueryKey::FileText(f));
        record_read(&mut reads, QueryKey::FileText(f));
        proof {
            assert(qv_eq(tv, cell_value(*self, QueryKey::FileText(f))));
        }
        let text: Vec<u8> = match tv {
            QueryValue::Text(t) => t,
            _ => Vec::new(),
        };
        proof {
            assert(text@ == input_text(*self, f));
        }
        let sf = crate::parser::parse(&text);
        (QueryValue::Tree(sf), reads)
    }

    fn compute_item_tree(&mut self, f: FileId) -> (out: (QueryValue, Vec<QueryKey>))
        requires
            old(self).wf(),
        ensures
            final(self).wf(),
            evolved(*old(self), *final(self), 1int),
            forall|d: int| 0 <= d < out.1@.len() ==> rank_of(#[trigger] out.1@[d]) < 2,
            item_tree_post(*final(self), f, out.0),
            final(self).structs == old(self).structs,
            final(self).aliases == old(self).aliases,
            final(self).functions == old(self).functions,
        decreases 2int, 0int,
    {
        let mut reads: Vec<QueryKey> = Vec::new();
        let tv = self.eval(QueryKey::Parse(f));
        record_read(&mut reads, QueryKey::Parse(f));
        proof {
            lemma_eval_cell(*self, QueryKey::Parse(f), tv);
        }
        let items: Vec<Item> = match tv {
            QueryValue::Tree(sf) => sf.items,
            _ => Vec::new(),
        };
        (QueryValue::Items(ItemTree { items }), reads)
    }

    /// The item of one interned declaration, out of its file's item tree.
    fn item_at(&mut self, loc: ItemLoc, reads: &mut Vec<QueryKey>, Ghost(b): Ghost<int>) -> (item:
        Item)
        requires
            old(self).wf(),
            b >= 3,
        ensures
            final(self).wf(),
            evolved(*old(self), *final(self), 2int),
            final(reads)@.len() >= old(reads)@.len(),
            forall|d: int| 0 <= d < old(reads)@.len() ==> final(reads)@[d] == old(reads)@[d],
            forall|d: int|
                old(reads)@.len() <= d < final(reads)@.len() ==> rank_of(#[trigger] final(reads)@[d])
                    <= 2,
            located_item_ok(*final(self), loc, item),
            final(self).structs == old(self).structs,
            final(self).aliases == old(self).aliases,
            final(self).functions == old(self).functions,
        decreases 2int, 2int,
    {
        let tv = self.eval(QueryKey::ItemTree(loc.file));
        record_read(reads, QueryKey::ItemTree(loc.file));
        proof {
            lemma_eval_cell(*self, QueryKey::ItemTree(loc.file), tv);
        }
        let items: Vec<Item> = match tv {
            QueryValue::Items(t) => t.items,
            _ => Vec::new(),
        };
        proof {
            assert(crate::syntax::items_eq(items@, tree_items(*self, loc.file)));
        }
        if loc.index < items.len() {
            let it = crate::syntax::item_clone(&items[loc.index]);
            proof {
                crate::syntax::lemma_item_eq_trans(
                    it,
                    items@[loc.index as int],
                    tree_items(*self, loc.file)[loc.index as int],
                );
            }
            it
        } else {
            Item::ErrorItem { span: Span { line: 0, start: 0, len: 0 } }
        }
    }

    fn compute_struct_data(&mut self, s: StructId) -> (out: (QueryValue, Vec<QueryKey>))
        requires
            old(self).wf(),
        ensures
            final(self).wf(),
            evolved(*old(self), *final(self), 2int),
            forall|d: int| 0 <= d < out.1@.len() ==> rank_of(#[trigger] out.1@[d]) < 3,
            struct_data_post(*final(self), s, out.0),
            final(self).structs == old(self).structs,
            final(self).aliases == old(self).aliases,
            final(self).functions == old(self).functions,
        decreases 3int, 0int,
    {
        let mut reads: Vec<QueryKey> = Vec::new();
        match self.structs.lookup(s.0) {
            None => {
                proof {
                    lemma_evolved_refl(*self, 2int);
                }
                (QueryValue::Missing, reads)
            },
            Some(loc) => {
                let item = self.item_at(loc, &mut reads, Ghost(3int));
                let d = crate::defs::struct_data_of(&item);
                proof {
                    assert(located_item_ok(*self, loc, item));
                }
                (QueryValue::StructD(d), reads)
            },
        }
    }

    fn compute_alias_data(&mut self, a: TypeAliasId) -> (out: (QueryValue, Vec<QueryKey>))
        requires
            old(self).wf(),
        ensures
            final(self).wf(),
            evolved(*old(self), *final(self), 2int),
            forall|d: int| 0 <= d < out.1@.len() ==> rank_of(#[trigger] out.1@[d]) < 3,
            alias_data_post(*final(self), a, out.0),
            final(self).structs == old(self).structs,
            final(self).aliases == old(self).aliases,
            final(self).functions == old(self).functions,
        decreases 3int, 0int,
    {
        let mut reads: Vec<QueryKey> = Vec::new();
        match self.aliases.lookup(a.0) {
            None => {
                proof {
                    lemma_evolved_refl(*self, 2int);
                }
                (QueryValue::Missing, reads)
            },
            Some(loc) => {
                let item = self.item_at(loc, &mut reads, Ghost(3int));
                let d = crate::defs::type_alias_data_of(&item);
                proof {
                    assert(located_item_ok(*self, loc, item));
                }
                (QueryValue::AliasD(d), reads)
            },
        }
    }

    fn compute_fn_data(&mut self, f: FunctionId) -> (out: (QueryValue, Vec<QueryKey>))
        requires
            old(self).wf(),
        ensures
            final(self).wf(),
            evolved(*old(self), *final(self), 2int),
            forall|d: int| 0 <= d < out.1@.len() ==> rank_of(#[trigger] out.1@[d]) < 3,
            fn_data_post(*final(self), f, out.0),
            final(self).structs == old(self).structs,
            final(self).aliases == old(self).aliases,
            final(self).functions == old(self).functions,
        decreases 3int, 0int,
    {
        let mut reads: Vec<QueryKey> = Vec::new();
        match self.functions.lookup(f.0) {
            None => {
                proof {
                    lemma_evolved_refl(*self, 2int);
                }
                (QueryValue::Missing, reads)
            },
            Some(loc) => {
                let item = self.item_at(loc, &mut reads, Ghost(3int));
                let d = crate::defs::fn_data_of(&item);
                proof {
                    assert(located_item_ok(*self, loc, item));
                }
                (QueryValue::FnD(d), reads)
            },
        }
    }

    fn compute_body(&mut self, f: FunctionId) -> (out: (QueryValue, Vec<QueryKey>))
        requires
            old(self).wf(),
        ensures
            final(self).wf(),
            evolved(*old(self), *final(self), 2int),
            forall|d: int| 0 <= d < out.1@.len() ==> rank_of(#[trigger] out.1@[d]) < 3,
            body_post(*final(self), f, out.0),
            final(self).structs == old(self).structs,
            final(self).aliases == old(self).aliases,
            final(self).functions == old(self).functions,
        decreases 3int, 0int,
    {
        let mut reads: Vec<QueryKey> = Vec::new();
        match self.functions.lookup(f.0) {
            None => {
                proof {
                    lemma_evolved_refl(*self, 2int);
                }
                (QueryValue::Missing, reads)
            },
            Some(loc) => {
                let item = self.item_at(loc, &mut reads, Ghost(3int));
                let d = crate::defs::body_of(&item);
                proof {
                    assert(located_item_ok(*self, loc, item));
                }
                (QueryValue::BodyD(d), reads)
            },
        }
    }

    fn compute_module_scope(&mut self, f: FileId) -> (out: (QueryValue, Vec<QueryKey>))
        requires
            old(self).wf(),
        ensures
            final(self).wf(),
            evolved(*old(self), *final(self), 2int),
            forall|d: int| 0 <= d < out.1@.len() ==> rank_of(#[trigger] out.1@[d]) < 3,
            scope_post(*final(self), f, out.0),
        decreases 3int, 0int,
    {
        let mut reads: Vec<QueryKey> = Vec::new();
        let tv = self.eval(QueryKey::ItemTree(f));
        record_read(&mut reads, QueryKey::ItemTree(f));
        proof {
            lemma_eval_cell(*self, QueryKey::ItemTree(f), tv);
        }
        let items: Vec<Item> = match tv {
            QueryValue::Items(t) => t.items,
            _ => Vec::new(),
        };
        proof {
            assert(items_like_cell(*self, f, items@));
        }
        let ghost db1 = *self;
        let mut entries: Vec<ScopeEntry> = Vec::new();
        let mut idx: usize = 0;
        while idx < items.len()
            invariant
                self.wf(),
                evolved(db1, *self, 2int),
                0 <= idx <= items@.len(),
                entries@.len() as int == decl_count(items@, idx as int),
                forall|k: int|
                    0 <= k < idx ==> #[trigger] scope_entry_for(
                        f,
                        self.structs.locs@,
                        self.aliases.locs@,
                        self.functions.locs@,
                        items@,
                        k,
                        entries@[decl_count(items@, k)],
                    ),
            decreases items@.len() - idx,
        {
            let ghost mid = *self;
            let ghost e0 = entries@;
            match &items[idx] {
                Item::StructItem { name, .. } => {
                    let id = self.structs.intern(ItemLoc { file: f, index: idx });
                    entries.push(
                        ScopeEntry { name: bytes_clone(name), def: ScopeDef::Struct(StructId(id)) },
                    );
                    proof {
                        assert(self.structs.locs@[id as int] == ItemLoc { file: f, index: idx });
                        assert(crate::intern::loc_first(
                            self.structs.locs@,
                            ItemLoc { file: f, index: idx },
                            id as int,
                        ));
                    }
                },
                Item::AliasItem { name, .. } => {
                    let id = self.aliases.intern(ItemLoc { file: f, index: idx });
                    entries.push(
                        ScopeEntry {
                            name: bytes_clone(name),
                            def: ScopeDef::TypeAlias(TypeAliasId(id)),
                        },
                    );
                    proof {
                        assert(crate::intern::loc_first(
                            self.aliases.locs@,
                            ItemLoc { file: f, index: idx },
                            id as int,
                        ));
                    }
                },
                Item::FnItem { name, .. } => {
                    let id = self.functions.intern(ItemLoc { file: f, index: idx });
                    entries.push(
                        ScopeEntry {
                            name: bytes_clone(name),
                            def: ScopeDef::Function(FunctionId(id)),
                        },
                    );
                    proof {
                        assert(crate::intern::loc_first(
                            self.functions.locs@,
                            ItemLoc { file: f, index: idx },
                            id as int,
                        ));
                    }
                },
                Item::ErrorItem { .. } => {},
            }
            proof {
                lemma_evolved_refl(mid, 2int);
                assert(evolved(mid, *self, 2int));
                lemma_evolved_trans(db1, mid, *self, 2int);
                lemma_decl_count_mono(items@, 0, idx as int);
                assert forall|k: int| 0 <= k < idx + 1 implies #[trigger] scope_entry_for(
                    f,
                    self.structs.locs@,
                    self.aliases.locs@,
                    self.functions.locs@,
                    items@,
                    k,
                    entries@[decl_count(items@, k)],
                ) by {
                    if k < idx {
                        lemma_decl_count_mono(items@, 0, k);
                        lemma_decl_count_mono(items@, k + 1, idx as int);
                        assert(scope_entry_for(
                            f,
                            mid.structs.locs@,
                            mid.aliases.locs@,
                            mid.functions.locs@,
                            items@,
                            k,
                            e0[decl_count(items@, k)],
                        ));
                        if !(items@[k] matches Item::ErrorItem { .. }) {
                            assert(decl_count(items@, k + 1) == decl_count(items@, k) + 1);
                            assert(decl_count(items@, k) < e0.len());
                            assert(entries@[decl_count(items@, k)] == e0[decl_count(items@, k)]);
                        }
                        match items@[k] {
                            Item::StructItem { .. } => {
                                let e = e0[decl_count(items@, k)];
                                match e.def {
                                    ScopeDef::Struct(sid) => {
                                        crate::intern::lemma_intern_stable(
                                            mid.structs.locs@,
                                            self.structs.locs@,
                                            ItemLoc { file: f, index: k as usize },
                                            sid.0 as int,
                                        );
                                    },
                                    _ => {},
                                }
                            },
                            Item::AliasItem { .. } => {
                                let e = e0[decl_count(items@, k)];
                                match e.def {
                                    ScopeDef::TypeAlias(aid) => {
                                        crate::intern::lemma_intern_stable(
                                            mid.aliases.locs@,
                                            self.aliases.locs@,
                                            ItemLoc { file: f, index: k as usize },
                                            aid.0 as int,
                                        );
                                    },
                                    _ => {},
                                }
                            },
                            Item::FnItem { .. } => {
                                let e = e0[decl_count(items@, k)];
                                match e.def {
                                    ScopeDef::Function(fid) => {
                                        crate::intern::lemma_intern_stable(
                                            mid.functions.locs@,
                                            self.functions.locs@,
                                            ItemLoc { file: f, index: k as usize },
                                            fid.0 as int,
                                        );
                                    },
                                    _ => {},
                                }
                            },
                            Item::ErrorItem { .. } => {},
                        }
                    }
                }
            }
            idx += 1;
        }
        let ghost e1 = entries@;
        proof {
            assert(e1.len() as int == decl_count(items@, items@.len() as int));
        }
        let mut n_int: Vec<u8> = Vec::new();
        n_int.push(105u8);
        n_int.push(110u8);
        n_int.push(116u8);
        entries.push(ScopeEntry { name: n_int, def: ScopeDef::Builtin(crate::ids::BuiltinType::Int) });
        let mut n_float: Vec<u8> = Vec::new();
        n_float.push(102u8);
        n_float.push(108u8);
        n_float.push(111u8);
        n_float.push(97u8);
        n_float.push(116u8);
        entries.push(
            ScopeEntry { name: n_float, def: ScopeDef::Builtin(crate::ids::BuiltinType::Float) },
        );
        let mut n_bool: Vec<u8> = Vec::new();
        n_bool.push(98u8);
        n_bool.push(111u8);
        n_bool.push(111u8);
        n_bool.push(108u8);
        entries.push(
            ScopeEntry { name: n_bool, def: ScopeDef::Builtin(crate::ids::BuiltinType::Bool) },
        );
        let scope = ModuleScope { entries };
        proof {
            lemma_evolved_trans(*old(self), db1, *self, 2int);
            let n = scope.entries@.len() as int;
            assert(scope.entries@[n - 3].name@ =~= name_int());
            assert(scope.entries@[n - 2].name@ =~= name_float());
            assert(scope.entries@[n - 1].name@ =~= name_bool());
            assert forall|k: int| 0 <= k < items@.len() implies #[trigger] scope_entry_for(
                f,
                self.structs.locs@,
                self.aliases.locs@,
                self.functions.locs@,
                items@,
                k,
                scope.entries@[decl_count(items@, k)],
            ) by {
                lemma_decl_count_mono(items@, 0, k);
                lemma_decl_count_mono(items@, k + 1, items@.len() as int);
                if !(items@[k] matches Item::ErrorItem { .. }) {
                    assert(decl_count(items@, k + 1) == decl_count(items@, k) + 1);
                    assert(decl_count(items@, k) < e1.len());
                    assert(scope.entries@[decl_count(items@, k)] == e1[decl_count(items@, k)]);
                }
            }
            assert(scope_rel(*self, f, items@, scope));
            lemma_fresh_value_preserved(db1, *self, 2int, QueryKey::ItemTree(f));
            assert(items_like_cell(*self, f, items@));
        }
        (QueryValue::Scope(scope), reads)
    }

    fn compute_type_for_def(&mut self, def: TypableDef, ns: Namespace) -> (out: (
        QueryValue,
        Vec<QueryKey>,
        bool,
    ))
        requires
            old(self).wf(),
        ensures
            final(self).wf(),
            evolved(*old(self), *final(self), 3int),
            forall|d: int| 0 <= d < out.1@.len() ==> rank_of(#[trigger] out.1@[d]) < 4,
            type_for_def_post(*final(self), def, ns, out.0),
        decreases 4int, 0int,
    {
        let mut reads: Vec<QueryKey> = Vec::new();
        match (def, ns) {
            (TypableDef::BuiltinType(b), Namespace::Types) => {
                proof {
                    lemma_evolved_refl(*self, 3int);
                }
                (QueryValue::TyPair(type_for_builtin(b), false), reads, false)
            },
            (TypableDef::Function(f), Namespace::Values) => {
                proof {
                    lemma_evolved_refl(*self, 3int);
                }
                (QueryValue::TyPair(Ty::FnDef(CallableDef::Function(f)), false), reads, false)
            },
            (TypableDef::Struct(s), Namespace::Types) => {
                proof {
                    lemma_evolved_refl(*self, 3int);
                }
                (QueryValue::TyPair(type_for_struct(s), false), reads, false)
            },
            (TypableDef::Struct(s), Namespace::Values) => {
                let sv = self.eval(QueryKey::StructData(s));
                record_read(&mut reads, QueryKey::StructData(s));
                proof {
                    lemma_eval_cell(*self, QueryKey::StructData(s), sv);
                }
                let t = match sv {
                    QueryValue::StructD(sd) => type_for_struct_constructor(&sd, s),
                    _ => Ty::Unknown,
                };
                (QueryValue::TyPair(t, false), reads, false)
            },
            (TypableDef::TypeAlias(a), Namespace::Types) => {
                match self.aliases.lookup(a.0) {
                    None => {
                        proof {
                            lemma_evolved_refl(*self, 3int);
                        }
                        (QueryValue::TyPair(Ty::Unknown, false), reads, false)
                    },
                    Some(loc) => {
                        let sv = self.eval(QueryKey::ModuleScope(loc.file));
                        record_read(&mut reads, QueryKey::ModuleScope(loc.file));
                        proof {
                            lemma_eval_cell(*self, QueryKey::ModuleScope(loc.file), sv);
                            assert(fresh_cell(*self, QueryKey::ModuleScope(loc.file)));
                        }
                        let scope: ModuleScope = match sv {
                            QueryValue::Scope(sc) => sc,
                            _ => ModuleScope { entries: Vec::new() },
                        };
                        let ghost kscope = QueryKey::ModuleScope(loc.file);
                        let ghost db1 = *self;
                        proof {
                            assert(scope_like_cell(db1, loc.file, scope));
                        }
                        let mut env_ids: Vec<TypeAliasId> = Vec::new();
                        let mut env_datas: Vec<TypeAliasData> = Vec::new();
                        let mut j: usize = 0;
                        while j < scope.entries.len()
                            invariant
                                self.wf(),
                                evolved(db1, *self, 3int),
                                kscope == QueryKey::ModuleScope(loc.file),
                                0 <= j <= scope.entries@.len(),
                                env_ids@ == alias_ids_upto(scope.entries@, j as int),
                                env_datas@.len() == env_ids@.len(),
                                fresh_cell(*self, kscope),
                                scope_like_cell(*self, loc.file, scope),
                                forall|jj: int|
                                    0 <= jj < env_ids@.len() ==> #[trigger] ad_like_cell(
                                        *self,
                                        env_ids@[jj],
                                        env_datas@[jj],
                                    ),
                                forall|jj: int|
                                    0 <= jj < env_ids@.len() ==> #[trigger] fresh_cell(
                                        *self,
                                        QueryKey::TypeAliasData(env_ids@[jj]),
                                    ),
                                forall|d: int|
                                    0 <= d < reads@.len() ==> rank_of(#[trigger] reads@[d]) < 4,
                            decreases scope.entries@.len() - j,
                        {
                            let ghost ids0 = env_ids@;
                            let ghost datas0 = env_datas@;
                            match scope.entries[j].def {
                                ScopeDef::TypeAlias(x) => {
                                    let ghost mid = *self;
                                    let dv = self.eval(QueryKey::TypeAliasData(x));
                                    record_read(&mut reads, QueryKey::TypeAliasData(x));
                                    proof {
                                        lemma_eval_cell(*self, QueryKey::TypeAliasData(x), dv);
                                        assert(fresh_cell(*self, QueryKey::TypeAliasData(x)));
                                        lemma_evolved_trans(db1, mid, *self, 3int);
                                        assert(fresh_cell(mid, kscope));
                                        lemma_fresh_value_preserved(mid, *self, 3int, kscope);
                                        lemma_scope_like_transfer(mid, *self, loc.file, scope);
                                        assert forall|jj: int| 0 <= jj < ids0.len() implies {
                                            &&& #[trigger] ad_like_cell(
                                                *self,
                                                ids0[jj],
                                                env_datas@[jj],
                                            )
                                            &&& fresh_cell(
                                                *self,
                                                QueryKey::TypeAliasData(ids0[jj]),
                                            )
                                        } by {
                                            assert(ad_like_cell(
                                                mid,
                                                ids0[jj],
                                                env_datas@[jj],
                                            ));
                                            assert(fresh_cell(
                                                mid,
                                                QueryKey::TypeAliasData(ids0[jj]),
                                            ));
                                            lemma_fresh_value_preserved(
                                                mid,
                                                *self,
                                                3int,
                                                QueryKey::TypeAliasData(ids0[jj]),
                                            );
                                            lemma_ad_like_transfer(
                                                mid,
                                                *self,
                                                ids0[jj],
                                                env_datas@[jj],
                                            );
                                        }
                                    }
                                    let d: TypeAliasData = match dv {
                                        QueryValue::AliasD(dd) => dd,
                                        _ => crate::defs::type_alias_data_of(
                                            &Item::ErrorItem {
                                                span: Span { line: 0, start: 0, len: 0 },
                                            },
                                        ),
                                    };
                                    let ghost dg = d;
                                    proof {
                                        assert(ad_like_cell(*self, x, d));
                                    }
                                    env_ids.push(x);
                                    env_datas.push(d);
                                    proof {
                                        assert(env_ids@ =~= alias_ids_upto(
                                            scope.entries@,
                                            j + 1,
                                        ));
                                        assert forall|jj: int| 0 <= jj < env_ids@.len() implies {
                                            &&& #[trigger] ad_like_cell(
                                                *self,
                                                env_ids@[jj],
                                                env_datas@[jj],
                                            )
                                            &&& fresh_cell(
                                                *self,
                                                QueryKey::TypeAliasData(env_ids@[jj]),
                                            )
                                        } by {
                                            if jj < ids0.len() {
                                                assert(env_ids@[jj] == ids0[jj]);
                                                assert(env_datas@[jj] == datas0[jj]);
                                                assert(ad_like_cell(
                                                    *self,
                                                    ids0[jj],
                                                    datas0[jj],
                                                ));
                                                assert(fresh_cell(
                                                    *self,
                                                    QueryKey::TypeAliasData(ids0[jj]),
                                                ));
                                            } else {
                                                assert(env_ids@[jj] == x);
                                                assert(env_datas@[jj] == dg);
                                                assert(ad_like_cell(*self, x, dg));
                                                assert(fresh_cell(
                                                    *self,
                                                    QueryKey::TypeAliasData(x),
                                                ));
                                            }
                                        }
                                        assert forall|jj: int|
                                            0 <= jj < env_ids@.len() implies #[trigger] fresh_cell(
                                            *self,
                                            QueryKey::TypeAliasData(env_ids@[jj]),
                                        ) by {
                                            assert(ad_like_cell(
                                                *self,
                                                env_ids@[jj],
                                                env_datas@[jj],
                                            ));
                                            if jj < ids0.len() {
                                                assert(env_ids@[jj] == ids0[jj]);
                                                assert(fresh_cell(
                                                    *self,
                                                    QueryKey::TypeAliasData(ids0[jj]),
                                                ));
                                            } else {
                                                assert(env_ids@[jj] == x);
                                                assert(fresh_cell(
                                                    *self,
                                                    QueryKey::TypeAliasData(x),
                                                ));
                                            }
                                        }
                                    }
                                },
                                _ => {
                                    proof {
                                        assert(env_ids@ =~= alias_ids_upto(
                                            scope.entries@,
                                            j + 1,
                                        ));
                                    }
                                },
                            }
                            j += 1;
                        }
                        let env = AliasEnv { ids: env_ids, datas: env_datas };
                        let (t, cyc): (Ty, bool) = if env.ids.len() < usize::MAX {
                            resolve_alias(&scope, &env, a)
                        } else {
                            (Ty::Unknown, false)
                        };
                        proof {
                            lemma_evolved_trans(*old(self), db1, *self, 3int);
                            assert(self.aliases.locs@[a.0 as int] == loc);
                            assert(alias_env_like(*self, scope, env));
                            assert(type_for_def_post(
                                *self,
                                def,
                                ns,
                                QueryValue::TyPair(t, cyc),
                            ));
                        }
                        (QueryValue::TyPair(t, cyc), reads, cyc)
                    },
                }
            },
            _ => {
                proof {
                    lemma_evolved_refl(*self, 3int);
                }
                (QueryValue::TyPair(Ty::Unknown, false), reads, false)
            },
        }
    }

    /// The declared type, with its cycle flag, of every scope entry, in scope
    /// order: the table that signature building and batch lowering read.
    fn scope_entry_tys(&mut self, scope: &ModuleScope, reads: &mut Vec<QueryKey>) -> (out: Vec<
        (Ty, bool),
    >)
        requires
            old(self).wf(),
        ensures
            final(self).wf(),
            evolved(*old(self), *final(self), 4int),
            final(reads)@.len() >= old(reads)@.len(),
            forall|d: int| 0 <= d < old(reads)@.len() ==> final(reads)@[d] == old(reads)@[d],
            forall|d: int|
                old(reads)@.len() <= d < final(reads)@.len() ==> rank_of(#[trigger] final(reads)@[d])
                    <= 4,
            out@.len() == scope.entries@.len(),
            tys_like_cells(*final(self), *scope, out@),
        decreases 4int, 2int,
    {
        let ghost db0 = *self;
        let ghost r0 = reads@;
        proof {
            lemma_evolved_refl(db0, 4int);
        }
        let mut out: Vec<(Ty, bool)> = Vec::new();
        let mut j: usize = 0;
        while j < scope.entries.len()
            invariant
                self.wf(),
                evolved(db0, *self, 4int),
                out@.len() == j,
                0 <= j <= scope.entries@.len(),
                reads@.len() >= r0.len(),
                forall|d: int| 0 <= d < r0.len() ==> reads@[d] == r0[d],
                forall|d: int|
                    r0.len() <= d < reads@.len() ==> rank_of(#[trigger] reads@[d]) <= 4,
                forall|jj: int|
                    0 <= jj < j ==> (#[trigger] out@[jj]) == ty_pair_of(
                        cell_value(
                            *self,
                            QueryKey::TypeForDef(
                                typable_of(scope.entries@[jj].def),
                                Namespace::Types,
                            ),
                        ),
                    ),
                forall|jj: int|
                    0 <= jj < j ==> #[trigger] fresh_cell(
                        *self,
                        QueryKey::TypeForDef(
                            typable_of(scope.entries@[jj].def),
                            Namespace::Types,
                        ),
                    ),
            decreases scope.entries@.len() - j,
        {
            let td: TypableDef = match scope.entries[j].def {
                ScopeDef::Struct(s) => TypableDef::Struct(s),
                ScopeDef::Function(f) => TypableDef::Function(f),
                ScopeDef::TypeAlias(x) => TypableDef::TypeAlias(x),
                ScopeDef::Builtin(b) => TypableDef::BuiltinType(b),
            };
            proof {
                assert(td == typable_of(scope.entries@[j as int].def));
            }
            let key = QueryKey::TypeForDef(td, Namespace::Types);
            let ghost mid = *self;
            let tv = self.eval(key);
            record_read(reads, key);
            proof {
                lemma_eval_cell(*self, key, tv);
                assert(fresh_cell(*self, key));
                lemma_evolved_trans(db0, mid, *self, 4int);
                assert forall|jj: int| 0 <= jj < j implies {
                    &&& (#[trigger] out@[jj]) == ty_pair_of(
                        cell_value(
                            *self,
                            QueryKey::TypeForDef(
                                typable_of(scope.entries@[jj].def),
                                Namespace::Types,
                            ),
                        ),
                    )
                    &&& fresh_cell(
                        *self,
                        QueryKey::TypeForDef(
                            typable_of(scope.entries@[jj].def),
                            Namespace::Types,
                        ),
                    )
                } by {
                    assert(out@[jj] == ty_pair_of(
                        cell_value(
                            mid,
                            QueryKey::TypeForDef(
                                typable_of(scope.entries@[jj].def),
                                Namespace::Types,
                            ),
                        ),
                    ));
                    assert(fresh_cell(
                        mid,
                        QueryKey::TypeForDef(
                            typable_of(scope.entries@[jj].def),
                            Namespace::Types,
                        ),
                    ));
                    lemma_fresh_value_preserved(
                        mid,
                        *self,
                        4int,
                        QueryKey::TypeForDef(
                            typable_of(scope.entries@[jj].def),
                            Namespace::Types,
                        ),
                    );
                }
            }
            let pair: (Ty, bool) = match tv {
                QueryValue::TyPair(t, c) => (t, c),
                _ => (Ty::Unknown, false),
            };
            let ghost out0 = out@;
            proof {
                assert(pair == ty_pair_of(cell_value(*self, key)));
            }
            out.push(pair);
            proof {
                assert forall|jj: int| 0 <= jj < out@.len() implies {
                    &&& (#[trigger] out@[jj]) == ty_pair_of(
                        cell_value(
                            *self,
                            QueryKey::TypeForDef(
                                typable_of(scope.entries@[jj].def),
                                Namespace::Types,
                            ),
                        ),
                    )
                    &&& fresh_cell(
                        *self,
                        QueryKey::TypeForDef(
                            typable_of(scope.entries@[jj].def),
                            Namespace::Types,
                        ),
                    )
                } by {
                    if jj < out0.len() {
                        assert(out@[jj] == out0[jj]);
                        assert(out0[jj] == ty_pair_of(
                            cell_value(
                                *self,
                                QueryKey::TypeForDef(
                                    typable_of(scope.entries@[jj].def),
                                    Namespace::Types,
                                ),
                            ),
                        ));
                        assert(fresh_cell(
                            *self,
                            QueryKey::TypeForDef(
                                typable_of(scope.entries@[jj].def),
                                Namespace::Types,
                            ),
                        ));
                    } else {
                        assert(out@[jj] == pair);
                        assert(scope.entries@[jj].def == scope.entries@[j as int].def);
                        assert(key == QueryKey::TypeForDef(
                            typable_of(scope.entries@[jj].def),
                            Namespace::Types,
                        ));
                        assert(fresh_cell(*self, key));
                    }
                }
                assert forall|jj: int| 0 <= jj < out@.len() implies #[trigger] fresh_cell(
                    *self,
                    QueryKey::TypeForDef(typable_of(scope.entries@[jj].def), Namespace::Types),
                ) by {
                    if jj < out0.len() {
                        assert(out@[jj] == out0[jj]);
                    } else {
                        assert(key == QueryKey::TypeForDef(
                            typable_of(scope.entries@[jj].def),
                            Namespace::Types,
                        ));
                        assert(fresh_cell(*self, key));
                    }
                }
            }
            j += 1;
        }
        out
    }

    fn compute_sig(&mut self, cd: CallableDef) -> (out: (QueryValue, Vec<QueryKey>))
        requires
            old(self).wf(),
        ensures
            final(self).wf(),
            evolved(*old(self), *final(self), 4int),
            forall|d: int| 0 <= d < out.1@.len() ==> rank_of(#[trigger] out.1@[d]) < 5,
            sig_post(*final(self), cd, out.0),
        decreases 5int, 0int,
    {
        let mut reads: Vec<QueryKey> = Vec::new();
        match cd {
            CallableDef::Function(f) => {
                match self.functions.lookup(f.0) {
                    None => {
                        proof {
                            lemma_evolved_refl(*self, 4int);
                        }
                        (QueryValue::Missing, reads)
                    },
                    Some(loc) => {
                        let ghost kfd = QueryKey::FnData(f);
                        let fv = self.eval(QueryKey::FnData(f));
                        record_read(&mut reads, QueryKey::FnData(f));
                        proof {
                            lemma_eval_cell(*self, kfd, fv);
                            assert(fresh_cell(*self, kfd));
                        }
                        let fd = match fv {
                            QueryValue::FnD(d) => d,
                            _ => crate::defs::fn_data_of(
                                &Item::ErrorItem { span: Span { line: 0, start: 0, len: 0 } },
                            ),
                        };
                        let ghost m1 = *self;
                        proof {
                            assert(fd_like_cell(m1, f, fd));
                        }
                        let ghost kscope = QueryKey::ModuleScope(loc.file);
                        let sv = self.eval(QueryKey::ModuleScope(loc.file));
                        record_read(&mut reads, QueryKey::ModuleScope(loc.file));
                        proof {
                            lemma_eval_cell(*self, kscope, sv);
                            assert(fresh_cell(*self, kscope));
                            lemma_fresh_value_preserved(m1, *self, 3int, kfd);
                        }
                        let scope = match sv {
                            QueryValue::Scope(sc) => sc,
                            _ => ModuleScope { entries: Vec::new() },
                        };
                        let ghost m2 = *self;
                        proof {
                            assert(scope_like_cell(m2, loc.file, scope));
                            lemma_evolved_widen(*old(self), m1, 3int, 4int);
                            lemma_evolved_widen(m1, m2, 3int, 4int);
                            lemma_evolved_trans(*old(self), m1, m2, 4int);
                        }
                        let tys = self.scope_entry_tys(&scope, &mut reads);
                        proof {
                            lemma_evolved_trans(*old(self), m2, *self, 4int);
                            lemma_fresh_value_preserved(m2, *self, 4int, kfd);
                            lemma_fresh_value_preserved(m2, *self, 4int, kscope);
                        }
                        let sig = fn_sig_for_fn(&fd, &scope, &tys);
                        proof {
                            assert(self.functions.locs@[f.0 as int] == loc);
                            lemma_fd_like_transfer(m1, m2, f, fd);
                            lemma_fd_like_transfer(m2, *self, f, fd);
                            lemma_scope_like_transfer(m2, *self, loc.file, scope);
                            assert(tys_like_cells(*self, scope, tys@));
                            assert(sig_fn_rel(fd, scope, tys@, sig));
                            assert(sig_post(*self, cd, QueryValue::Sig(sig)));
                        }
                        (QueryValue::Sig(sig), reads)
                    },
                }
            },
            CallableDef::Struct(s) => {
                match self.structs.lookup(s.0) {
                    None => {
                        proof {
                            lemma_evolved_refl(*self, 4int);
                        }
                        (QueryValue::Missing, reads)
                    },
                    Some(loc) => {
                        let ghost ksd = QueryKey::StructData(s);
                        let sv0 = self.eval(QueryKey::StructData(s));
                        record_read(&mut reads, QueryKey::StructData(s));
                        proof {
                            lemma_eval_cell(*self, ksd, sv0);
                            assert(fresh_cell(*self, ksd));
                        }
                        let sd = match sv0 {
                            QueryValue::StructD(d) => d,
                            _ => crate::defs::struct_data_of(
                                &Item::ErrorItem { span: Span { line: 0, start: 0, len: 0 } },
                            ),
                        };
                        let ghost m1 = *self;
                        proof {
                            assert(sd_like_cell(m1, s, sd));
                        }
                        let ghost kscope = QueryKey::ModuleScope(loc.file);
                        let sv = self.eval(QueryKey::ModuleScope(loc.file));
                        record_read(&mut reads, QueryKey::ModuleScope(loc.file));
                        proof {
                            lemma_eval_cell(*self, kscope, sv);
                            assert(fresh_cell(*self, kscope));
                            lemma_fresh_value_preserved(m1, *self, 3int, ksd);
                        }
                        let scope = match sv {
                            QueryValue::Scope(sc) => sc,
                            _ => ModuleScope { entries: Vec::new() },
                        };
                        let ghost m2 = *self;
                        proof {
                            assert(scope_like_cell(m2, loc.file, scope));
                            lemma_evolved_widen(*old(self), m1, 3int, 4int);
                            lemma_evolved_widen(m1, m2, 3int, 4int);
                            lemma_evolved_trans(*old(self), m1, m2, 4int);
                        }
                        let tys = self.scope_entry_tys(&scope, &mut reads);
                        proof {
                            lemma_evolved_trans(*old(self), m2, *self, 4int);
                            lemma_fresh_value_preserved(m2, *self, 4int, ksd);
                            lemma_fresh_value_preserved(m2, *self, 4int, kscope);
                        }
                        let sig = fn_sig_for_struct_constructor(&sd, &scope, &tys, s);
                        proof {
                            assert(self.structs.locs@[s.0 as int] == loc);
                            lemma_sd_like_transfer(m1, m2, s, sd);
                            lemma_sd_like_transfer(m2, *self, s, sd);
                            lemma_scope_like_transfer(m2, *self, loc.file, scope);
                            assert(tys_like_cells(*self, scope, tys@));
                            assert(sig_ctor_rel(sd, scope, tys@, s, sig));
                            assert(sig_post(*self, cd, QueryValue::Sig(sig)));
                        }
                        (QueryValue::Sig(sig), reads)
                    },
                }
            },
        }
    }

    fn compute_lower_struct(&mut self, s: StructId) -> (out: (QueryValue, Vec<QueryKey>))
        requires
            old(self).wf(),
        ensures
            final(self).wf(),
            evolved(*old(self), *final(self), 4int),
            forall|d: int| 0 <= d < out.1@.len() ==> rank_of(#[trigger] out.1@[d]) < 5,
            lower_struct_post(*final(self), s, out.0),
        decreases 5int, 0int,
    {
        let mut reads: Vec<QueryKey> = Vec::new();
        match self.structs.lookup(s.0) {
            None => {
                proof {
                    lemma_evolved_refl(*self, 4int);
                }
                (QueryValue::Missing, reads)
            },
            Some(loc) => {
                let ghost ksd = QueryKey::StructData(s);
                let sv0 = self.eval(QueryKey::StructData(s));
                record_read(&mut reads, QueryKey::StructData(s));
                proof {
                    lemma_eval_cell(*self, ksd, sv0);
                    assert(fresh_cell(*self, ksd));
                }
                let sd = match sv0 {
                    QueryValue::StructD(d) => d,
                    _ => crate::defs::struct_data_of(
                        &Item::ErrorItem { span: Span { line: 0, start: 0, len: 0 } },
                    ),
                };
                let ghost m1 = *self;
                proof {
                    assert(sd_like_cell(m1, s, sd));
                }
                let ghost kscope = QueryKey::ModuleScope(loc.file);
                let sv = self.eval(QueryKey::ModuleScope(loc.file));
                record_read(&mut reads, QueryKey::ModuleScope(loc.file));
                proof {
                    lemma_eval_cell(*self, kscope, sv);
                    assert(fresh_cell(*self, kscope));
                    lemma_fresh_value_preserved(m1, *self, 3int, ksd);
                }
                let scope = match sv {
                    QueryValue::Scope(sc) => sc,
                    _ => ModuleScope { entries: Vec::new() },
                };
                let ghost m2 = *self;
                proof {
                    assert(scope_like_cell(m2, loc.file, scope));
                    lemma_evolved_widen(*old(self), m1, 3int, 4int);
                    lemma_evolved_widen(m1, m2, 3int, 4int);
                    lemma_evolved_trans(*old(self), m1, m2, 4int);
                }
                let tys = self.scope_entry_tys(&scope, &mut reads);
                proof {
                    lemma_evolved_trans(*old(self), m2, *self, 4int);
                    lemma_fresh_value_preserved(m2, *self, 4int, ksd);
                    lemma_fresh_value_preserved(m2, *self, 4int, kscope);
                }
                let l = lower_batch(&sd.type_ref_map.entries, &scope, &tys);
                proof {
                    assert(self.structs.locs@[s.0 as int] == loc);
                    lemma_sd_like_transfer(m1, m2, s, sd);
                    lemma_sd_like_transfer(m2, *self, s, sd);
                    lemma_scope_like_transfer(m2, *self, loc.file, scope);
                    assert(tys_like_cells(*self, scope, tys@));
                    assert(lower_rel(sd.type_ref_map.entries@, scope, tys@, l));
                    assert(lower_struct_post(*self, s, QueryValue::Lower(l)));
                }
                (QueryValue::Lower(l), reads)
            },
        }
    }

    fn compute_lower_alias(&mut self, a: TypeAliasId) -> (out: (QueryValue, Vec<QueryKey>))
        requires
            old(self).wf(),
        ensures
            final(self).wf(),
            evolved(*old(self), *final(self), 4int),
            forall|d: int| 0 <= d < out.1@.len() ==> rank_of(#[trigger] out.1@[d]) < 5,
            lower_alias_post(*final(self), a, out.0),
        decreases 5int, 0int,
    {
        let mut reads: Vec<QueryKey> = Vec::new();
        match self.aliases.lookup(a.0) {
            None => {
                proof {
                    lemma_evolved_refl(*self, 4int);
                }
                (QueryValue::Missing, reads)
            },
            Some(loc) => {
                let ghost kad = QueryKey::TypeAliasData(a);
                let av = self.eval(QueryKey::TypeAliasData(a));
                record_read(&mut reads, QueryKey::TypeAliasData(a));
                proof {
                    lemma_eval_cell(*self, kad, av);
                    assert(fresh_cell(*self, kad));
                }
                let ad = match av {
                    QueryValue::AliasD(d) => d,
                    _ => crate::defs::type_alias_data_of(
                        &Item::ErrorItem { span: Span { line: 0, start: 0, len: 0 } },
                    ),
                };
                let ghost m1 = *self;
                proof {
                    assert(ad_like_cell(m1, a, ad));
                }
                let ghost kscope = QueryKey::ModuleScope(loc.file);
                let sv = self.eval(QueryKey::ModuleScope(loc.file));
                record_read(&mut reads, QueryKey::ModuleScope(loc.file));
                proof {
                    lemma_eval_cell(*self, kscope, sv);
                    assert(fresh_cell(*self, kscope));
                    lemma_fresh_value_preserved(m1, *self, 3int, kad);
                }
                let scope = match sv {
                    QueryValue::Scope(sc) => sc,
                    _ => ModuleScope { entries: Vec::new() },
                };
                let ghost m2 = *self;
                proof {
                    assert(scope_like_cell(m2, loc.file, scope));
                    lemma_evolved_widen(*old(self), m1, 3int, 4int);
                    lemma_evolved_widen(m1, m2, 3int, 4int);
                    lemma_evolved_trans(*old(self), m1, m2, 4int);
                }
                let tys = self.scope_entry_tys(&scope, &mut reads);
                proof {
                    lemma_evolved_trans(*old(self), m2, *self, 4int);
                    lemma_fresh_value_preserved(m2, *self, 4int, kad);
                    lemma_fresh_value_preserved(m2, *self, 4int, kscope);
                }
                let l = lower_batch(&ad.type_ref_map.entries, &scope, &tys);
                proof {
                    assert(self.aliases.locs@[a.0 as int] == loc);
                    lemma_ad_like_transfer(m1, m2, a, ad);
                    lemma_ad_like_transfer(m2, *self, a, ad);
                    lemma_scope_like_transfer(m2, *self, loc.file, scope);
                    assert(tys_like_cells(*self, scope, tys@));
                    assert(lower_rel(ad.type_ref_map.entries@, scope, tys@, l));
                    assert(lower_alias_post(*self, a, QueryValue::Lower(l)));
                }
                (QueryValue::Lower(l), reads)
            },
        }
    }

    fn eval(&mut self, key: QueryKey) -> (r: QueryValue)
        requires
            old(self).wf(),
        ensures
            final(self).wf(),
            evolved(*old(self), *final(self), rank_of(key)),
            rank_of(key) >= 1 ==> exists|i: int|
                #[trigger] key_first(final(self).cells@, key, i) && final(self).cells@[i].verified_at == final(self).revision && qv_eq(
                    r,
                    final(self).cells@[i].value,
                ) && (value_post(*final(self), key, final(self).cells@[i].value) || exists|j: int|
                    #[trigger] key_first(old(self).cells@, key, j) && qv_eq(
                        final(self).cells@[i].value,
                        old(self).cells@[j].value,
                    )),
            rank_of(key) == 0 ==> *final(self) == *old(self) && qv_eq(
                r,
                cell_value(*old(self), key),
            ),
            rank_of(key) <= 2 ==> final(self).structs == old(self).structs && final(self).aliases
                == old(self).aliases && final(self).functions == old(self).functions,
        decreases rank_of(key), 1int,
    {
        let ghost b = rank_of(key);
        if let QueryKey::FileText(_) = key {
            proof {
                lemma_evolved_refl(*self, 0int);
            }
            return match find_cell(&self.cells, key) {
                Some(i) => {
                    proof {
                        lemma_cell_value_at(*self, key, i as int);
                    }
                    qv_clone(&self.cells[i].value)
                },
                None => {
                    proof {
                        if exists|p: int| #[trigger] key_first(self.cells@, key, p) {
                            let p = choose|p: int| #[trigger] key_first(self.cells@, key, p);
                            assert(self.cells@[p].key != key);
                        }
                    }
                    QueryValue::Missing
                },
            };
        }
        proof {
            assert(rank_of(key) >= 1);
        }
        let rev = self.revision;
        let found = find_cell(&self.cells, key);
        if let Some(i) = found {
            if self.cells[i].verified_at == rev {
                proof {
                    lemma_evolved_refl(*self, b);
                    crate::memo::lemma_qv_eq_refl(self.cells@[i as int].value);
                }
                return qv_clone(&self.cells[i].value);
            }
            proof {
                assert(crate::memo::cell_ok(self.cells@[i as int], self.revision));
            }
            if !self.cells[i].cyclic {
                let ghost d0 = *self;
                let ok = self.try_green(key, i, Ghost(b));
                proof {
                    lemma_evolved_widen(d0, *self, b - 1, b);
                    // the walked cell itself is above the walk's layer, so it is untouched
                    assert(cell_evolved(d0.cells@[i as int], self.cells@[i as int], d0.revision, b - 1));
                }
                if ok {
                    let ghost d1 = *self;
                    self.mark_green(i);
                    proof {
                        lemma_evolved_trans(d0, d1, *self, b);
                        assert(key_first(self.cells@, key, i as int));
                    }
                    return self.value_back(key);
                }
            }
        }
        // recompute
        let ghost da = *self;
        let (value, deps, cyclic): (QueryValue, Vec<QueryKey>, bool) = match key {
            QueryKey::Parse(f) => {
                let (v, d) = self.compute_parse(f);
                (v, d, false)
            },
            QueryKey::ItemTree(f) => {
                let (v, d) = self.compute_item_tree(f);
                (v, d, false)
            },
            QueryKey::StructData(s) => {
                let (v, d) = self.compute_struct_data(s);
                (v, d, false)
            },
            QueryKey::TypeAliasData(a) => {
                let (v, d) = self.compute_alias_data(a);
                (v, d, false)
            },
            QueryKey::FnData(f) => {
                let (v, d) = self.compute_fn_data(f);
                (v, d, false)
            },
            QueryKey::Body(f) => {
                let (v, d) = self.compute_body(f);
                (v, d, false)
            },
            QueryKey::ModuleScope(f) => {
                let (v, d) = self.compute_module_scope(f);
                (v, d, false)
            },
            QueryKey::TypeForDef(def, ns) => self.compute_type_for_def(def, ns),
            QueryKey::CallableSig(cd) => {
                let (v, d) = self.compute_sig(cd);
                (v, d, false)
            },
            QueryKey::LowerStruct(s) => {
                let (v, d) = self.compute_lower_struct(s);
                (v, d, false)
            },
            QueryKey::LowerTypeAlias(a) => {
                let (v, d) = self.compute_lower_alias(a);
                (v, d, false)
            },
            QueryKey::FileText(_) => (QueryValue::Missing, Vec::new(), false),
        };
        let ghost dbb = *self;
        proof {
            lemma_evolved_widen(da, dbb, b - 1, b);
            // my cell, if it exists now, is the one from before the compute and is stale
            assert forall|p: int| key_first(dbb.cells@, key, p) implies dbb.cells@[p].verified_at
                < dbb.revision by {
                if p < da.cells@.len() {
                    assert(cell_evolved(da.cells@[p], dbb.cells@[p], da.revision, b - 1));
                    assert(da.cells@[p].key == key);
                    assert(rank_of(key) > b - 1);
                    assert(dbb.cells@[p] == da.cells@[p]);
                    if da.cells@[p].verified_at >= da.revision {
                        // a cell already verified at this revision takes the fast
                        // path and is never recomputed, so this cannot be reached
                        assert(key_first(da.cells@, key, p));
                        assert(false);
                    }
                } else {
                    assert(rank_of(dbb.cells@[p].key) <= b - 1);
                    assert(false);
                }
            }
        }
        let ghost gv = value;
        proof {
            assert(value_post(dbb, key, gv));
        }
        self.store(key, value, deps, cyclic);
        proof {
            lemma_evolved_trans(da, dbb, *self, b);
            lemma_evolved_refl(*old(self), b);
            assert(evolved(*old(self), da, b));
            lemma_evolved_trans(*old(self), da, *self, b);
            lemma_value_post_stable(dbb, *self, key, gv);
            let i = choose|i: int|
                #[trigger] key_first(self.cells@, key, i) && self.cells@[i].verified_at
                    == self.revision && self.cells@[i].value == gv && self.cells@[i].cyclic
                    == cyclic;
            assert(value_post(*self, key, self.cells@[i].value));
        }
        self.value_back(key)
    }

    // -----------------------------------------------------------------------
    // The query surface: each method verifies-or-recomputes through the
    // ledger and hands back the cached value's concrete form.
    // -----------------------------------------------------------------------

    /// Parsed syntax of one file. Parsing is total: unparseable lines come
    /// back as error items, never as a failure.
    pub fn parse(&mut self, file: FileId) -> (sf: SourceFile)
        requires
            old(self).wf(),
        ensures
            final(self).wf(),
            evolved(*old(self), *final(self), 1int),
            exists|i: int|
                #[trigger] key_first(final(self).cells@, QueryKey::Parse(file), i) && final(self).cells@[i].verified_at == final(self).revision && (qv_eq(
                    QueryValue::Tree(sf),
                    final(self).cells@[i].value,
                ) || !(final(self).cells@[i].value matches QueryValue::Tree(_))),
            exists|i: int|
                #[trigger] key_first(final(self).cells@, QueryKey::Parse(file), i) && final(self).cells@[i].verified_at == final(self).revision && (value_post(
                    *final(self),
                    QueryKey::Parse(file),
                    final(self).cells@[i].value,
                ) || exists|j: int|
                    #[trigger] key_first(old(self).cells@, QueryKey::Parse(file), j) && qv_eq(
                        final(self).cells@[i].value,
                        old(self).cells@[j].value,
                    )),
    {
        match self.eval(QueryKey::Parse(file)) {
            QueryValue::Tree(sf) => sf,
            _ => SourceFile { items: Vec::new() },
        }
    }

    /// The per-file item tree: the file's top-level declarations.
    pub fn item_tree(&mut self, file: FileId) -> (t: ItemTree)
        requires
            old(self).wf(),
        ensures
            final(self).wf(),
            evolved(*old(self), *final(self), 2int),
            exists|i: int|
                #[trigger] key_first(final(self).cells@, QueryKey::ItemTree(file), i) && final(self).cells@[i].verified_at == final(self).revision && (qv_eq(
                    QueryValue::Items(t),
                    final(self).cells@[i].value,
                ) || !(final(self).cells@[i].value matches QueryValue::Items(_))),
            exists|i: int|
                #[trigger] key_first(final(self).cells@, QueryKey::ItemTree(file), i) && final(self).cells@[i].verified_at == final(self).revision && (value_post(
                    *final(self),
                    QueryKey::ItemTree(file),
                    final(self).cells@[i].value,
                ) || exists|j: int|
                    #[trigger] key_first(old(self).cells@, QueryKey::ItemTree(file), j) && qv_eq(
                        final(self).cells@[i].value,
                        old(self).cells@[j].value,
                    )),
    {
        match self.eval(QueryKey::ItemTree(file)) {
            QueryValue::Items(t) => t,
            _ => ItemTree { items: Vec::new() },
        }
    }

    /// A struct declaration's extracted data.
    pub fn struct_data(&mut self, id: StructId) -> (sd: crate::defs::StructData)
        requires
            old(self).wf(),
        ensures
            final(self).wf(),
            evolved(*old(self), *final(self), 3int),
            exists|i: int|
                #[trigger] key_first(final(self).cells@, QueryKey::StructData(id), i) && final(self).cells@[i].verified_at == final(self).revision && (qv_eq(
                    QueryValue::StructD(sd),
                    final(self).cells@[i].value,
                ) || !(final(self).cells@[i].value matches QueryValue::StructD(_))),
            exists|i: int|
                #[trigger] key_first(final(self).cells@, QueryKey::StructData(id), i) && final(self).cells@[i].verified_at == final(self).revision && (value_post(
                    *final(self),
                    QueryKey::StructData(id),
                    final(self).cells@[i].value,
                ) || exists|j: int|
                    #[trigger] key_first(old(self).cells@, QueryKey::StructData(id), j) && qv_eq(
                        final(self).cells@[i].value,
                        old(self).cells@[j].value,
                    )),
    {
        match self.eval(QueryKey::StructData(id)) {
            QueryValue::StructD(sd) => sd,
            _ => crate::defs::struct_data_of(
                &Item::ErrorItem { span: Span { line: 0, start: 0, len: 0 } },
            ),
        }
    }

    /// A type alias declaration's extracted data.
    pub fn type_alias_data(&mut self, id: TypeAliasId) -> (ad: TypeAliasData)
        requires
            old(self).wf(),
        ensures
            final(self).wf(),
            evolved(*old(self), *final(self), 3int),
            exists|i: int|
                #[trigger] key_first(final(self).cells@, QueryKey::TypeAliasData(id), i) && final(self).cells@[i].verified_at == final(self).revision && (qv_eq(
                    QueryValue::AliasD(ad),
                    final(self).cells@[i].value,
                ) || !(final(self).cells@[i].value matches QueryValue::AliasD(_))),
            exists|i: int|
                #[trigger] key_first(final(self).cells@, QueryKey::TypeAliasData(id), i) && final(self).cells@[i].verified_at == final(self).revision && (value_post(
                    *final(self),
                    QueryKey::TypeAliasData(id),
                    final(self).cells@[i].value,
                ) || exists|j: int|
                    #[trigger] key_first(old(self).cells@, QueryKey::TypeAliasData(id), j) && qv_eq(
                        final(self).cells@[i].value,
                        old(self).cells@[j].value,
                    )),
    {
        match self.eval(QueryKey::TypeAliasData(id)) {
            QueryValue::AliasD(ad) => ad,
            _ => crate::defs::type_alias_data_of(
                &Item::ErrorItem { span: Span { line: 0, start: 0, len: 0 } },
            ),
        }
    }

    /// A function declaration's extracted data: parameters, return
    /// annotation and externness, never the body.
    pub fn fn_data(&mut self, id: FunctionId) -> (fd: crate::defs::FnData)
        requires
            old(self).wf(),
        ensures
            final(self).wf(),
            evolved(*old(self), *final(self), 3int),
            fd_like_cell(*final(self), id, fd),
            fresh_cell(*final(self), QueryKey::FnData(id)),
            exists|i: int|
                #[trigger] key_first(final(self).cells@, QueryKey::FnData(id), i) && final(self).cells@[i].verified_at == final(self).revision && (qv_eq(
                    QueryValue::FnD(fd),
                    final(self).cells@[i].value,
                ) || !(final(self).cells@[i].value matches QueryValue::FnD(_))),
            exists|i: int|
                #[trigger] key_first(final(self).cells@, QueryKey::FnData(id), i) && final(self).cells@[i].verified_at == final(self).revision && (value_post(
                    *final(self),
                    QueryKey::FnData(id),
                    final(self).cells@[i].value,
                ) || exists|j: int|
                    #[trigger] key_first(old(self).cells@, QueryKey::FnData(id), j) && qv_eq(
                        final(self).cells@[i].value,
                        old(self).cells@[j].value,
                    )),
    {
        let r = self.eval(QueryKey::FnData(id));
        proof {
            lemma_eval_cell(*self, QueryKey::FnData(id), r);
        }
        match r {
            QueryValue::FnD(fd) => fd,
            _ => crate::defs::fn_data_of(
                &Item::ErrorItem { span: Span { line: 0, start: 0, len: 0 } },
            ),
        }
    }

    /// A function's body, reduced to what validation observes.
    pub fn body(&mut self, id: FunctionId) -> (b: BodyData)
        requires
            old(self).wf(),
        ensures
            final(self).wf(),
            evolved(*old(self), *final(self), 3int),
            body_like_cell(*final(self), id, b),
            fresh_cell(*final(self), QueryKey::Body(id)),
            exists|i: int|
                #[trigger] key_first(final(self).cells@, QueryKey::Body(id), i) && final(self).cells@[i].verified_at == final(self).revision && (qv_eq(
                    QueryValue::BodyD(b),
                    final(self).cells@[i].value,
                ) || !(final(self).cells@[i].value matches QueryValue::BodyD(_))),
            exists|i: int|
                #[trigger] key_first(final(self).cells@, QueryKey::Body(id), i) && final(self).cells@[i].verified_at == final(self).revision && (value_post(
                    *final(self),
                    QueryKey::Body(id),
                    final(self).cells@[i].value,
                ) || exists|j: int|
                    #[trigger] key_first(old(self).cells@, QueryKey::Body(id), j) && qv_eq(
                        final(self).cells@[i].value,
                        old(self).cells@[j].value,
                    )),
    {
        let r = self.eval(QueryKey::Body(id));
        proof {
            lemma_eval_cell(*self, QueryKey::Body(id), r);
        }
        match r {
            QueryValue::BodyD(b) => b,
            _ => crate::defs::body_of(&Item::ErrorItem { span: Span { line: 0, start: 0, len: 0 } }),
        }
    }

    /// The name-to-declaration scope of one file. Computing it interns every
    /// declaration of the file, so the stable identifiers this hands out are
    /// the ones every later query uses.
    pub fn module_scope(&mut self, file: FileId) -> (s: ModuleScope)
        requires
            old(self).wf(),
        ensures
            final(self).wf(),
            evolved(*old(self), *final(self), 3int),
            exists|i: int|
                #[trigger] key_first(final(self).cells@, QueryKey::ModuleScope(file), i) && final(self).cells@[i].verified_at == final(self).revision && (qv_eq(
                    QueryValue::Scope(s),
                    final(self).cells@[i].value,
                ) || !(final(self).cells@[i].value matches QueryValue::Scope(_))),
            exists|i: int|
                #[trigger] key_first(final(self).cells@, QueryKey::ModuleScope(file), i) && final(self).cells@[i].verified_at == final(self).revision && (value_post(
                    *final(self),
                    QueryKey::ModuleScope(file),
                    final(self).cells@[i].value,
                ) || exists|j: int|
                    #[trigger] key_first(old(self).cells@, QueryKey::ModuleScope(file), j) && qv_eq(
                        final(self).cells@[i].value,
                        old(self).cells@[j].value,
                    )),
    {
        match self.eval(QueryKey::ModuleScope(file)) {
            QueryValue::Scope(s) => s,
            _ => ModuleScope { entries: Vec::new() },
        }
    }

    /// The declared type of a definition in a namespace, with the flag that
    /// marks a result that came from cycle recovery.
    pub fn type_for_def(&mut self, def: TypableDef, ns: Namespace) -> (r: (Ty, bool))
        requires
            old(self).wf(),
        ensures
            final(self).wf(),
            evolved(*old(self), *final(self), 4int),
            exists|i: int|
                #[trigger] key_first(final(self).cells@, QueryKey::TypeForDef(def, ns), i) && final(self).cells@[i].verified_at == final(self).revision && (qv_eq(
                    QueryValue::TyPair(r.0, r.1),
                    final(self).cells@[i].value,
                ) || !(final(self).cells@[i].value matches QueryValue::TyPair(_, _))),
            exists|i: int|
                #[trigger] key_first(final(self).cells@, QueryKey::TypeForDef(def, ns), i) && final(self).cells@[i].verified_at == final(self).revision && (value_post(
                    *final(self),
                    QueryKey::TypeForDef(def, ns),
                    final(self).cells@[i].value,
                ) || exists|j: int|
                    #[trigger] key_first(old(self).cells@, QueryKey::TypeForDef(def, ns), j) && qv_eq(
                        final(self).cells@[i].value,
                        old(self).cells@[j].value,
                    )),
    {
        match self.eval(QueryKey::TypeForDef(def, ns)) {
            QueryValue::TyPair(t, c) => (t, c),
            _ => (Ty::Unknown, false),
        }
    }

    /// A callable's signature, lowered from its declared annotations alone:
    /// a body edit never changes this value, and the ledger's cutoff then
    /// keeps its changed-revision in place.
    pub fn callable_sig(&mut self, def: CallableDef) -> (sig: crate::ty::FnSig)
        requires
            old(self).wf(),
        ensures
            final(self).wf(),
            evolved(*old(self), *final(self), 5int),
            (def matches CallableDef::Function(fi) ==> sig_like_cell(*final(self), fi, sig)),
            fresh_cell(*final(self), QueryKey::CallableSig(def)),
            exists|i: int|
                #[trigger] key_first(final(self).cells@, QueryKey::CallableSig(def), i) && final(self).cells@[i].verified_at == final(self).revision && (qv_eq(
                    QueryValue::Sig(sig),
                    final(self).cells@[i].value,
                ) || !(final(self).cells@[i].value matches QueryValue::Sig(_))),
            exists|i: int|
                #[trigger] key_first(final(self).cells@, QueryKey::CallableSig(def), i) && final(self).cells@[i].verified_at == final(self).revision && (value_post(
                    *final(self),
                    QueryKey::CallableSig(def),
                    final(self).cells@[i].value,
                ) || exists|j: int|
                    #[trigger] key_first(old(self).cells@, QueryKey::CallableSig(def), j) && qv_eq(
                        final(self).cells@[i].value,
                        old(self).cells@[j].value,
                    )),
    {
        let r = self.eval(QueryKey::CallableSig(def));
        proof {
            lemma_eval_cell(*self, QueryKey::CallableSig(def), r);
        }
        match r {
            QueryValue::Sig(sig) => sig,
            _ => crate::ty::FnSig { params: Vec::new(), ret: Ty::Unknown },
        }
    }

    /// Batch lowering of a struct's annotation arena, diagnostics included.
    pub fn lower_struct(&mut self, id: StructId) -> (l: crate::ty::LowerBatchResult)
        requires
            old(self).wf(),
        ensures
            final(self).wf(),
            evolved(*old(self), *final(self), 5int),
            exists|i: int|
                #[trigger] key_first(final(self).cells@, QueryKey::LowerStruct(id), i) && final(self).cells@[i].verified_at == final(self).revision && (qv_eq(
                    QueryValue::Lower(l),
                    final(self).cells@[i].value,
                ) || !(final(self).cells@[i].value matches QueryValue::Lower(_))),
            exists|i: int|
                #[trigger] key_first(final(self).cells@, QueryKey::LowerStruct(id), i) && final(self).cells@[i].verified_at == final(self).revision && (value_post(
                    *final(self),
                    QueryKey::LowerStruct(id),
                    final(self).cells@[i].value,
                ) || exists|j: int|
                    #[trigger] key_first(old(self).cells@, QueryKey::LowerStruct(id), j) && qv_eq(
                        final(self).cells@[i].value,
                        old(self).cells@[j].value,
                    )),
    {
        match self.eval(QueryKey::LowerStruct(id)) {
            QueryValue::Lower(l) => l,
            _ => crate::ty::LowerBatchResult { type_ref_to_type: Vec::new(), diagnostics: Vec::new() },
        }
    }

    /// Batch lowering of a type alias's annotation arena.
    pub fn lower_type_alias(&mut self, id: TypeAliasId) -> (l: crate::ty::LowerBatchResult)
        requires
            old(self).wf(),
        ensures
            final(self).wf(),
            evolved(*old(self), *final(self), 5int),
            exists|i: int|
                #[trigger] key_first(final(self).cells@, QueryKey::LowerTypeAlias(id), i) && final(self).cells@[i].verified_at == final(self).revision && (qv_eq(
                    QueryValue::Lower(l),
                    final(self).cells@[i].value,
                ) || !(final(self).cells@[i].value matches QueryValue::Lower(_))),
            exists|i: int|
                #[trigger] key_first(final(self).cells@, QueryKey::LowerTypeAlias(id), i) && final(self).cells@[i].verified_at == final(self).revision && (value_post(
                    *final(self),
                    QueryKey::LowerTypeAlias(id),
                    final(self).cells@[i].value,
                ) || exists|j: int|
                    #[trigger] key_first(old(self).cells@, QueryKey::LowerTypeAlias(id), j) && qv_eq(
                        final(self).cells@[i].value,
                        old(self).cells@[j].value,
                    )),
    {
        match self.eval(QueryKey::LowerTypeAlias(id)) {
            QueryValue::Lower(l) => l,
            _ => crate::ty::LowerBatchResult { type_ref_to_type: Vec::new(), diagnostics: Vec::new() },
        }
    }
}

/// Law (revision monotonicity): across any engine step, every Memo Cell's
/// changed-revision is non-decreasing, and well-formedness keeps every
/// changed-revision at or below the global revision.
pub proof fn lemma_revision_monotonicity(
    a: CompilerDatabase,
    b: CompilerDatabase,
    bound: int,
    i: int,
)
    requires
        b.wf(),
        evolved(a, b, bound),
        0 <= i < a.cells@.len(),
    ensures
        a.cells@[i].changed_at <= b.cells@[i].changed_at,
        b.cells@[i].changed_at <= b.revision,
{
    assert(cell_evolved(a.cells@[i], b.cells@[i], a.revision, bound));
    assert(crate::memo::cell_ok(b.cells@[i], b.revision));
}

/// Law (early cutoff): an engine step that leaves a cell's value unchanged
/// leaves its changed-revision unchanged, so nothing above the cell sees a
/// change and invalidation stops propagating there.
pub proof fn lemma_early_cutoff(a: CompilerDatabase, b: CompilerDatabase, bound: int, i: int)
    requires
        evolved(a, b, bound),
        0 <= i < a.cells@.len(),
        qv_eq(b.cells@[i].value, a.cells@[i].value),
    ensures
        b.cells@[i].changed_at == a.cells@[i].changed_at,
{
    assert(cell_evolved(a.cells@[i], b.cells@[i], a.revision, bound));
}

/// Cheap view-conversion between the database's query-surface roles, so a
/// caller holding the full engine can hand out the narrower face a consumer
/// asks for.
pub trait Upcast<T> {
    fn upcast(&self) -> &T;
}

impl Upcast<CompilerDatabase> for CompilerDatabase {
    fn upcast(&self) -> (r: &CompilerDatabase)
        ensures
            r == self,
    {
        self
    }
}

/// The interning queries: a stable, dense identifier per declaration,
/// minted from its structural key and reused across edits that keep the
/// declaration in place.
pub trait InternDatabase {
    spec fn inv(&self) -> bool;

    spec fn struct_locs(&self) -> Seq<ItemLoc>;

    spec fn alias_locs(&self) -> Seq<ItemLoc>;

    spec fn function_locs(&self) -> Seq<ItemLoc>;

    fn intern_struct(&mut self, loc: ItemLoc) -> (id: StructId)
        requires
            old(self).inv(),
        ensures
            final(self).inv(),
            id.0 < final(self).struct_locs().len(),
            final(self).struct_locs()[id.0 as int] == loc,
            old(self).struct_locs().is_prefix_of(final(self).struct_locs()),
            if exists|j: int| #[trigger] crate::intern::loc_first(old(self).struct_locs(), loc, j) {
                final(self).struct_locs() == old(self).struct_locs()
                    && crate::intern::loc_first(old(self).struct_locs(), loc, id.0 as int)
            } else {
                final(self).struct_locs() == old(self).struct_locs().push(loc) && id.0 == old(
                    self,
                ).struct_locs().len()
            },
            final(self).alias_locs() == old(self).alias_locs(),
            final(self).function_locs() == old(self).function_locs(),
    ;

    fn intern_type_alias(&mut self, loc: ItemLoc) -> (id: TypeAliasId)
        requires
            old(self).inv(),
        ensures
            final(self).inv(),
            id.0 < final(self).alias_locs().len(),
            final(self).alias_locs()[id.0 as int] == loc,
            old(self).alias_locs().is_prefix_of(final(self).alias_locs()),
            if exists|j: int| #[trigger] crate::intern::loc_first(old(self).alias_locs(), loc, j) {
                final(self).alias_locs() == old(self).alias_locs()
                    && crate::intern::loc_first(old(self).alias_locs(), loc, id.0 as int)
            } else {
                final(self).alias_locs() == old(self).alias_locs().push(loc) && id.0 == old(
                    self,
                ).alias_locs().len()
            },
            final(self).struct_locs() == old(self).struct_locs(),
            final(self).function_locs() == old(self).function_locs(),
    ;

    fn intern_function(&mut self, loc: ItemLoc) -> (id: FunctionId)
        requires
            old(self).inv(),
        ensures
            final(self).inv(),
            id.0 < final(self).function_locs().len(),
            final(self).function_locs()[id.0 as int] == loc,
            old(self).function_locs().is_prefix_of(final(self).function_locs()),
            if exists|j: int| #[trigger] crate::intern::loc_first(
                old(self).function_locs(),
                loc,
                j,
            ) {
                final(self).function_locs() == old(self).function_locs()
                    && crate::intern::loc_first(old(self).function_locs(), loc, id.0 as int)
            } else {
                final(self).function_locs() == old(self).function_locs().push(loc) && id.0 == old(
                    self,
                ).function_locs().len()
            },
            final(self).struct_locs() == old(self).struct_locs(),
            final(self).alias_locs() == old(self).alias_locs(),
    ;
}

impl InternDatabase for CompilerDatabase {
    open spec fn inv(&self) -> bool {
        self.wf()
    }

    open spec fn struct_locs(&self) -> Seq<ItemLoc> {
        self.structs.locs@
    }

    open spec fn alias_locs(&self) -> Seq<ItemLoc> {
        self.aliases.locs@
    }

    open spec fn function_locs(&self) -> Seq<ItemLoc> {
        self.functions.locs@
    }

    fn intern_struct(&mut self, loc: ItemLoc) -> StructId {
        StructId(self.structs.intern(loc))
    }

    fn intern_type_alias(&mut self, loc: ItemLoc) -> TypeAliasId {
        TypeAliasId(self.aliases.intern(loc))
    }

    fn intern_function(&mut self, loc: ItemLoc) -> FunctionId {
        FunctionId(self.functions.intern(loc))
    }
}

} // verus!
