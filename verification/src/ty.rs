use vstd::prelude::*;
use crate::ids::{BuiltinType, CallableDef, StructId, TypeAliasId};
use crate::defs::{FnData, ModuleScope, ScopeDef, ScopeEntry, StructData, TypeAliasData};
use crate::syntax::{StructKind, TypeRef};

verus! {

/// A resolved semantic type: a concrete constructor or the propagation-safe
/// `Unknown` sentinel that stands in for unresolved and cyclic references.
#[derive(Clone, Copy, PartialEq, Eq, Structural, Debug)]
pub enum Ty {
    Unknown,
    Empty,
    Never,
    Int,
    Float,
    Bool,
    Struct(StructId),
    FnDef(CallableDef),
}

pub open spec fn spec_type_for_builtin(def: BuiltinType) -> Ty {
    match def {
        BuiltinType::Int => Ty::Int,
        BuiltinType::Float => Ty::Float,
        BuiltinType::Bool => Ty::Bool,
    }
}

/// The declared type of a built-in fundamental type.
pub fn type_for_builtin(def: BuiltinType) -> (r: Ty)
    ensures
        r == spec_type_for_builtin(def),
{
    match def {
        BuiltinType::Int => Ty::Int,
        BuiltinType::Float => Ty::Float,
        BuiltinType::Bool => Ty::Bool,
    }
}

/// The declared type of a struct in the type namespace.
pub fn type_for_struct(s: StructId) -> (r: Ty)
    ensures
        r == Ty::Struct(s),
{
    Ty::Struct(s)
}

/// The declared type of a struct in the value namespace: a tuple struct names
/// its constructor function there; a record or unit struct names itself.
pub fn type_for_struct_constructor(sd: &StructData, s: StructId) -> (r: Ty)
    ensures
        r == if sd.kind == StructKind::Tuple {
            Ty::FnDef(CallableDef::Struct(s))
        } else {
            Ty::Struct(s)
        },
{
    if sd.kind == StructKind::Tuple {
        Ty::FnDef(CallableDef::Struct(s))
    } else {
        Ty::Struct(s)
    }
}

// ---------------------------------------------------------------------------
// Name lookups, each pinned by a first-occurrence characterization.
// ---------------------------------------------------------------------------

/// `j` is the first scope entry whose name is `name`.
pub open spec fn scope_first(entries: Seq<ScopeEntry>, name: Seq<u8>, j: int) -> bool {
    0 <= j < entries.len() && entries[j].name@ == name && forall|i: int|
        0 <= i < j ==> (#[trigger] entries[i]).name@ != name
}

pub proof fn lemma_scope_first_unique(entries: Seq<ScopeEntry>, name: Seq<u8>, j1: int, j2: int)
    requires
        scope_first(entries, name, j1),
        scope_first(entries, name, j2),
    ensures
        j1 == j2,
{
    if j1 < j2 {
        assert(entries[j1].name@ != name);
    }
    if j2 < j1 {
        assert(entries[j2].name@ != name);
    }
}

/// First scope entry named `name`, or none.
pub fn scope_find(scope: &ModuleScope, name: &Vec<u8>) -> (r: Option<usize>)
    ensures
        match r {
            Some(j) => scope_first(scope.entries@, name@, j as int),
            None => forall|i: int|
                0 <= i < scope.entries@.len() ==> (#[trigger] scope.entries@[i]).name@ != name@,
        },
{
    let mut i: usize = 0;
    while i < scope.entries.len()
        invariant
            0 <= i <= scope.entries@.len(),
            forall|k: int| 0 <= k < i ==> (#[trigger] scope.entries@[k]).name@ != name@,
        decreases scope.entries@.len() - i,
    {
        if crate::syntax::bytes_eq(&scope.entries[i].name, name) {
            return Some(i);
        }
        i += 1;
    }
    None
}

/// `j` is the first position of alias `a` in the list `ids`.
pub open spec fn pos_first(ids: Seq<TypeAliasId>, a: TypeAliasId, j: int) -> bool {
    0 <= j < ids.len() && ids[j] == a && forall|i: int| 0 <= i < j ==> (#[trigger] ids[i]) != a
}

pub proof fn lemma_pos_first_unique(ids: Seq<TypeAliasId>, a: TypeAliasId, j1: int, j2: int)
    requires
        pos_first(ids, a, j1),
        pos_first(ids, a, j2),
    ensures
        j1 == j2,
{
    if j1 < j2 {
        assert(ids[j1] != a);
    }
    if j2 < j1 {
        assert(ids[j2] != a);
    }
}

pub fn pos_find(ids: &Vec<TypeAliasId>, a: TypeAliasId) -> (r: Option<usize>)
    ensures
        match r {
            Some(j) => pos_first(ids@, a, j as int),
            None => forall|i: int| 0 <= i < ids@.len() ==> (#[trigger] ids@[i]) != a,
        },
{
    let mut i: usize = 0;
    while i < ids.len()
        invariant
            0 <= i <= ids@.len(),
            forall|k: int| 0 <= k < i ==> (#[trigger] ids@[k]) != a,
        decreases ids@.len() - i,
    {
        if ids[i] == a {
            return Some(i);
        }
        i += 1;
    }
    None
}

// ---------------------------------------------------------------------------
// Cyclic type-alias resolution with an active stack and recovery.
// ---------------------------------------------------------------------------

/// The aliases of one file, in scope order, with their extracted data.
pub struct AliasEnv {
    pub ids: Vec<TypeAliasId>,
    pub datas: Vec<TypeAliasData>,
}

/// The annotation an alias data names, or the error annotation for an index
/// the arena never allocated.
pub open spec fn alias_target(d: TypeAliasData) -> TypeRef {
    if d.type_ref_id < d.type_ref_map.entries@.len() {
        d.type_ref_map.entries@[d.type_ref_id as int]
    } else {
        TypeRef::Error
    }
}

/// One step of alias resolution. `stack` is the active-computation stack and
/// already ends with `a`; re-entering a stack member is a cycle, recovered as
/// `(Unknown, true)` for every participant from the re-entered member down.
/// The third component reports the stack position the cycle re-entered, so
/// callers above the cycle keep a plain `(Unknown, false)` result.
pub open spec fn spec_resolve(
    scope: ModuleScope,
    env: AliasEnv,
    a: TypeAliasId,
    stack: Seq<TypeAliasId>,
    fuel: nat,
) -> (Ty, bool, Option<int>)
    decreases fuel,
{
    if fuel == 0 {
        (Ty::Unknown, true, Some(0int))
    } else if exists|j: int| #[trigger] pos_first(env.ids@, a, j) {
        let j = choose|j: int| #[trigger] pos_first(env.ids@, a, j);
        if j >= env.datas@.len() {
            (Ty::Unknown, false, None)
        } else {
            match alias_target(env.datas@[j]) {
                TypeRef::Error => (Ty::Unknown, false, None),
                TypeRef::Empty => (Ty::Empty, false, None),
                TypeRef::Never => (Ty::Never, false, None),
                TypeRef::Path(name) => {
                    if exists|k: int| #[trigger] scope_first(scope.entries@, name@, k) {
                        let k = choose|k: int| #[trigger] scope_first(scope.entries@, name@, k);
                        match scope.entries@[k].def {
                            ScopeDef::Builtin(b) => (spec_type_for_builtin(b), false, None),
                            ScopeDef::Struct(s) => (Ty::Struct(s), false, None),
                            ScopeDef::Function(_) => (Ty::Unknown, false, None),
                            ScopeDef::TypeAlias(b) => {
                                if exists|p: int| #[trigger] pos_first(stack, b, p) {
                                    let p = choose|p: int| #[trigger] pos_first(stack, b, p);
                                    (Ty::Unknown, true, Some(p))
                                } else {
                                    let r = spec_resolve(
                                        scope,
                                        env,
                                        b,
                                        stack.push(b),
                                        (fuel - 1) as nat,
                                    );
                                    match r.2 {
                                        Some(p) => if p < stack.len() {
                                            (Ty::Unknown, true, Some(p))
                                        } else {
                                            (r.0, false, None)
                                        },
                                        None => (r.0, false, None),
                                    }
                                }
                            },
                        }
                    } else {
                        (Ty::Unknown, false, None)
                    }
                },
            }
        }
    } else {
        (Ty::Unknown, false, None)
    }
}

/// The declared type of a type alias, with the flag that marks a result that
/// came from cycle recovery.
pub open spec fn spec_resolve_alias(scope: ModuleScope, env: AliasEnv, a: TypeAliasId) -> (
    Ty,
    bool,
) {
    let r = spec_resolve(scope, env, a, seq![a], (env.ids@.len() + 1) as nat);
    (r.0, r.1)
}

fn resolve_in(
    scope: &ModuleScope,
    env: &AliasEnv,
    a: TypeAliasId,
    stack: &mut Vec<TypeAliasId>,
    fuel: usize,
) -> (r: (Ty, bool, Option<usize>))
    ensures
        final(stack)@ == old(stack)@,
        ({
            let s = spec_resolve(*scope, *env, a, old(stack)@, fuel as nat);
            r.0 == s.0 && r.1 == s.1 && (match (r.2, s.2) {
                (Some(p), Some(q)) => p as int == q,
                (None, None) => true,
                _ => false,
            })
        }),
    decreases fuel,
{
    if fuel == 0 {
        return (Ty::Unknown, true, Some(0));
    }
    match pos_find(&env.ids, a) {
        None => {
            proof {
                if exists|j: int| #[trigger] pos_first(env.ids@, a, j) {
                    let j = choose|j: int| #[trigger] pos_first(env.ids@, a, j);
                    assert(env.ids@[j] != a);
                }
            }
            (Ty::Unknown, false, None)
        },
        Some(j) => {
            proof {
                let jw = choose|x: int| #[trigger] pos_first(env.ids@, a, x);
                lemma_pos_first_unique(env.ids@, a, jw, j as int);
            }
            if j >= env.datas.len() {
                return (Ty::Unknown, false, None);
            }
            let d = &env.datas[j];
            let tr: &TypeRef = if d.type_ref_id < d.type_ref_map.entries.len() {
                &d.type_ref_map.entries[d.type_ref_id]
            } else {
                &TypeRef::Error
            };
            match tr {
                TypeRef::Error => (Ty::Unknown, false, None),
                TypeRef::Empty => (Ty::Empty, false, None),
                TypeRef::Never => (Ty::Never, false, None),
                TypeRef::Path(name) => {
                    match scope_find(scope, name) {
                        None => {
                            proof {
                                if exists|k: int| #[trigger] scope_first(
                                    scope.entries@,
                                    name@,
                                    k,
                                ) {
                                    let k = choose|k: int| #[trigger] scope_first(
                                        scope.entries@,
                                        name@,
                                        k,
                                    );
                                    assert(scope.entries@[k].name@ != name@);
                                }
                            }
                            (Ty::Unknown, false, None)
                        },
                        Some(k) => {
                            proof {
                                let kw = choose|x: int| #[trigger] scope_first(
                                    scope.entries@,
                                    name@,
                                    x,
                                );
                                lemma_scope_first_unique(scope.entries@, name@, kw, k as int);
                            }
                            match scope.entries[k].def {
                                ScopeDef::Builtin(b) => (type_for_builtin(b), false, None),
                                ScopeDef::Struct(s) => (Ty::Struct(s), false, None),
                                ScopeDef::Function(_) => (Ty::Unknown, false, None),
                                ScopeDef::TypeAlias(b) => {
                                    match pos_find(stack, b) {
                                        Some(p) => {
                                            proof {
                                                let pw = choose|x: int| #[trigger] pos_first(
                                                    stack@,
                                                    b,
                                                    x,
                                                );
                                                lemma_pos_first_unique(stack@, b, pw, p as int);
                                            }
                                            (Ty::Unknown, true, Some(p))
                                        },
                                        None => {
                                            proof {
                                                if exists|p: int| #[trigger] pos_first(
                                                    stack@,
                                                    b,
                                                    p,
                                                ) {
                                                    let p = choose|p: int| #[trigger] pos_first(
                                                        stack@,
                                                        b,
                                                        p,
                                                    );
                                                    assert(stack@[p] != b);
                                                }
                                            }
                                            let ghost st0 = stack@;
                                            let depth = stack.len();
                                            stack.push(b);
                                            let rr = resolve_in(scope, env, b, stack, fuel - 1);
                                            stack.pop();
                                            proof {
                                                assert(stack@ =~= st0);
                                            }
                                            match rr.2 {
                                                Some(p) => if p < depth {
                                                    (Ty::Unknown, true, Some(p))
                                                } else {
                                                    (rr.0, false, None)
                                                },
                                                None => (rr.0, false, None),
                                            }
                                        },
                                    }
                                },
                            }
                        },
                    }
                },
            }
        },
    }
}

/// Resolve the declared type of alias `a`, detecting reference cycles by
/// active-stack membership and recovering with `(Unknown, true)`.
pub fn resolve_alias(scope: &ModuleScope, env: &AliasEnv, a: TypeAliasId) -> (r: (Ty, bool))
    requires
        env.ids@.len() + 1 <= usize::MAX,
    ensures
        r == spec_resolve_alias(*scope, *env, a),
{
    let mut stack: Vec<TypeAliasId> = Vec::new();
    stack.push(a);
    proof {
        assert(stack@ =~= seq![a]);
    }
    let rr = resolve_in(scope, env, a, &mut stack, env.ids.len() + 1);
    (rr.0, rr.1)
}

// ---------------------------------------------------------------------------
// Batch lowering of one declaration's annotation arena.
// ---------------------------------------------------------------------------

/// A diagnostic from lowering, keyed by the failing arena index.
#[derive(Clone, Copy, PartialEq, Eq, Structural, Debug)]
pub enum LowerDiagnostic {
    UnresolvedType { id: usize },
    CyclicType { id: usize },
}

/// The total result of lowering one declaration's arena: a type for every
/// index, plus one diagnostic per failing entry.
#[derive(Debug)]
pub struct LowerBatchResult {
    pub type_ref_to_type: Vec<Ty>,
    pub diagnostics: Vec<LowerDiagnostic>,
}

impl LowerBatchResult {
    /// The lowered type at one arena index, `Unknown` for an index with no
    /// recorded result.
    pub fn get(&self, id: usize) -> (r: Ty)
        ensures
            r == if id < self.type_ref_to_type@.len() {
                self.type_ref_to_type@[id as int]
            } else {
                Ty::Unknown
            },
    {
        if id < self.type_ref_to_type.len() {
            self.type_ref_to_type[id]
        } else {
            Ty::Unknown
        }
    }
}

pub open spec fn lower_eq(a: LowerBatchResult, b: LowerBatchResult) -> bool {
    a.type_ref_to_type@ == b.type_ref_to_type@ && a.diagnostics@ == b.diagnostics@
}

pub fn lower_eq_exec(a: &LowerBatchResult, b: &LowerBatchResult) -> (r: bool)
    ensures
        r == lower_eq(*a, *b),
{
    if a.type_ref_to_type.len() != b.type_ref_to_type.len() {
        assert(a.type_ref_to_type@ != b.type_ref_to_type@);
        return false;
    }
    if a.diagnostics.len() != b.diagnostics.len() {
        assert(a.diagnostics@ != b.diagnostics@);
        return false;
    }
    let mut i: usize = 0;
    while i < a.type_ref_to_type.len()
        invariant
            0 <= i <= a.type_ref_to_type@.len(),
            a.type_ref_to_type@.len() == b.type_ref_to_type@.len(),
            forall|j: int| 0 <= j < i ==> a.type_ref_to_type@[j] == b.type_ref_to_type@[j],
        decreases a.type_ref_to_type@.len() - i,
    {
        if a.type_ref_to_type[i] != b.type_ref_to_type[i] {
            return false;
        }
        i += 1;
    }
    let mut k: usize = 0;
    while k < a.diagnostics.len()
        invariant
            0 <= k <= a.diagnostics@.len(),
            a.diagnostics@.len() == b.diagnostics@.len(),
            forall|j: int| 0 <= j < k ==> a.diagnostics@[j] == b.diagnostics@[j],
        decreases a.diagnostics@.len() - k,
    {
        if a.diagnostics[k] != b.diagnostics[k] {
            return false;
        }
        k += 1;
    }
    proof {
        assert(a.type_ref_to_type@ =~= b.type_ref_to_type@);
        assert(a.diagnostics@ =~= b.diagnostics@);
    }
    true
}

pub fn lower_clone(a: &LowerBatchResult) -> (r: LowerBatchResult)
    ensures
        lower_eq(r, *a),
{
    let mut tys: Vec<Ty> = Vec::new();
    let mut i: usize = 0;
    while i < a.type_ref_to_type.len()
        invariant
            0 <= i <= a.type_ref_to_type@.len(),
            tys@ =~= a.type_ref_to_type@.take(i as int),
        decreases a.type_ref_to_type@.len() - i,
    {
        tys.push(a.type_ref_to_type[i]);
        i += 1;
    }
    let mut ds: Vec<LowerDiagnostic> = Vec::new();
    let mut k: usize = 0;
    while k < a.diagnostics.len()
        invariant
            0 <= k <= a.diagnostics@.len(),
            ds@ =~= a.diagnostics@.take(k as int),
        decreases a.diagnostics@.len() - k,
    {
        ds.push(a.diagnostics[k]);
        k += 1;
    }
    proof {
        assert(tys@ =~= a.type_ref_to_type@);
        assert(ds@ =~= a.diagnostics@);
    }
    LowerBatchResult { type_ref_to_type: tys, diagnostics: ds }
}

/// The lowered type of arena entry `i`, given the declared type (and cycle
/// flag) of every scope entry in scope order.
pub open spec fn spec_lower_ty(
    entries: Seq<TypeRef>,
    scope: ModuleScope,
    entry_tys: Seq<(Ty, bool)>,
    i: int,
) -> Ty {
    match entries[i] {
        TypeRef::Error => Ty::Unknown,
        TypeRef::Empty => Ty::Empty,
        TypeRef::Never => Ty::Never,
        TypeRef::Path(name) => {
            if exists|k: int| #[trigger] scope_first(scope.entries@, name@, k) {
                let k = choose|k: int| #[trigger] scope_first(scope.entries@, name@, k);
                if k < entry_tys.len() {
                    entry_tys[k].0
                } else {
                    Ty::Unknown
                }
            } else {
                Ty::Unknown
            }
        },
    }
}

/// The diagnostic arena entry `i` provokes, if any: an unresolved path gives
/// `UnresolvedType`, a path whose target's type came from cycle recovery
/// gives `CyclicType`.
pub open spec fn spec_lower_diag(
    entries: Seq<TypeRef>,
    scope: ModuleScope,
    entry_tys: Seq<(Ty, bool)>,
    i: int,
) -> Option<LowerDiagnostic> {
    match entries[i] {
        TypeRef::Path(name) => {
            if exists|k: int| #[trigger] scope_first(scope.entries@, name@, k) {
                let k = choose|k: int| #[trigger] scope_first(scope.entries@, name@, k);
                if k < entry_tys.len() && entry_tys[k].1 {
                    Some(LowerDiagnostic::CyclicType { id: i as usize })
                } else {
                    None
                }
            } else {
                Some(LowerDiagnostic::UnresolvedType { id: i as usize })
            }
        },
        _ => None,
    }
}

/// The diagnostics of the first `n` arena entries, in arena order.
pub open spec fn spec_lower_diags(
    entries: Seq<TypeRef>,
    scope: ModuleScope,
    entry_tys: Seq<(Ty, bool)>,
    n: int,
) -> Seq<LowerDiagnostic>
    decreases n,
{
    if n <= 0 {
        Seq::<LowerDiagnostic>::empty()
    } else {
        spec_lower_diags(entries, scope, entry_tys, n - 1) + (match spec_lower_diag(
            entries,
            scope,
            entry_tys,
            n - 1,
        ) {
            Some(d) => seq![d],
            None => Seq::<LowerDiagnostic>::empty(),
        })
    }
}

fn lower_entry(
    entries: &Vec<TypeRef>,
    scope: &ModuleScope,
    entry_tys: &Vec<(Ty, bool)>,
    i: usize,
) -> (r: (Ty, Option<LowerDiagnostic>))
    requires
        i < entries@.len(),
    ensures
        r.0 == spec_lower_ty(entries@, *scope, entry_tys@, i as int),
        r.1 == spec_lower_diag(entries@, *scope, entry_tys@, i as int),
{
    match &entries[i] {
        TypeRef::Error => (Ty::Unknown, None),
        TypeRef::Empty => (Ty::Empty, None),
        TypeRef::Never => (Ty::Never, None),
        TypeRef::Path(name) => {
            match scope_find(scope, name) {
                None => {
                    proof {
                        if exists|k: int| #[trigger] scope_first(scope.entries@, name@, k) {
                            let k = choose|k: int| #[trigger] scope_first(
                                scope.entries@,
                                name@,
                                k,
                            );
                            assert(scope.entries@[k].name@ != name@);
                        }
                    }
                    (Ty::Unknown, Some(LowerDiagnostic::UnresolvedType { id: i }))
                },
                Some(k) => {
                    proof {
                        let kw = choose|x: int| #[trigger] scope_first(scope.entries@, name@, x);
                        lemma_scope_first_unique(scope.entries@, name@, kw, k as int);
                    }
                    if k < entry_tys.len() {
                        let (t, cyc) = entry_tys[k];
                        if cyc {
                            (t, Some(LowerDiagnostic::CyclicType { id: i }))
                        } else {
                            (t, None)
                        }
                    } else {
                        (Ty::Unknown, None)
                    }
                },
            }
        },
    }
}

/// Lower every entry of one declaration's arena independently, accumulating
/// one diagnostic per failing entry and producing a total mapping.
pub fn lower_batch(
    entries: &Vec<TypeRef>,
    scope: &ModuleScope,
    entry_tys: &Vec<(Ty, bool)>,
) -> (r: LowerBatchResult)
    ensures
        r.type_ref_to_type@.len() == entries@.len(),
        forall|i: int|
            0 <= i < entries@.len() ==> r.type_ref_to_type@[i] == spec_lower_ty(
                entries@,
                *scope,
                entry_tys@,
                i,
            ),
        r.diagnostics@ == spec_lower_diags(entries@, *scope, entry_tys@, entries@.len() as int),
{
    let mut tys: Vec<Ty> = Vec::new();
    let mut ds: Vec<LowerDiagnostic> = Vec::new();
    let mut i: usize = 0;
    while i < entries.len()
        invariant
            0 <= i <= entries@.len(),
            tys@.len() == i,
            forall|j: int|
                0 <= j < i ==> tys@[j] == spec_lower_ty(entries@, *scope, entry_tys@, j),
            ds@ == spec_lower_diags(entries@, *scope, entry_tys@, i as int),
        decreases entries@.len() - i,
    {
        let (t, d) = lower_entry(entries, scope, entry_tys, i);
        tys.push(t);
        match d {
            Some(diag) => {
                ds.push(diag);
            },
            None => {},
        }
        i += 1;
    }
    LowerBatchResult { type_ref_to_type: tys, diagnostics: ds }
}

// ---------------------------------------------------------------------------
// Callable signatures.
// ---------------------------------------------------------------------------

/// A callable's signature: its parameter types and return type, lowered from
/// the declaration's annotations alone, never from its body.
#[derive(Debug)]
pub struct FnSig {
    pub params: Vec<Ty>,
    pub ret: Ty,
}

impl FnSig {
    pub fn from_params_and_return(params: Vec<Ty>, ret: Ty) -> (r: FnSig)
        ensures
            r.params@ == params@,
            r.ret == ret,
    {
        FnSig { params, ret }
    }

    pub fn params(&self) -> (r: &Vec<Ty>)
        ensures
            r == &self.params,
    {
        &self.params
    }

    pub fn ret(&self) -> (r: Ty)
        ensures
            r == self.ret,
    {
        self.ret
    }
}

pub open spec fn sig_eq(a: FnSig, b: FnSig) -> bool {
    a.params@ == b.params@ && a.ret == b.ret
}

pub fn sig_eq_exec(a: &FnSig, b: &FnSig) -> (r: bool)
    ensures
        r == sig_eq(*a, *b),
{
    if a.ret != b.ret {
        return false;
    }
    if a.params.len() != b.params.len() {
        assert(a.params@ != b.params@);
        return false;
    }
    let mut i: usize = 0;
    while i < a.params.len()
        invariant
            0 <= i <= a.params@.len(),
            a.params@.len() == b.params@.len(),
            forall|j: int| 0 <= j < i ==> a.params@[j] == b.params@[j],
        decreases a.params@.len() - i,
    {
        if a.params[i] != b.params[i] {
            return false;
        }
        i += 1;
    }
    proof {
        assert(a.params@ =~= b.params@);
    }
    true
}

pub fn sig_clone(a: &FnSig) -> (r: FnSig)
    ensures
        sig_eq(r, *a),
{
    let mut params: Vec<Ty> = Vec::new();
    let mut i: usize = 0;
    while i < a.params.len()
        invariant
            0 <= i <= a.params@.len(),
            params@ =~= a.params@.take(i as int),
        decreases a.params@.len() - i,
    {
        params.push(a.params[i]);
        i += 1;
    }
    proof {
        assert(params@ =~= a.params@);
    }
    FnSig { params, ret: a.ret }
}

/// The lowered type of one arena index, `Unknown` when the index is out of
/// the arena.
pub open spec fn spec_lower_at(
    entries: Seq<TypeRef>,
    scope: ModuleScope,
    entry_tys: Seq<(Ty, bool)>,
    i: int,
) -> Ty {
    if 0 <= i < entries.len() {
        spec_lower_ty(entries, scope, entry_tys, i)
    } else {
        Ty::Unknown
    }
}

fn lower_at(
    entries: &Vec<TypeRef>,
    scope: &ModuleScope,
    entry_tys: &Vec<(Ty, bool)>,
    i: usize,
) -> (r: Ty)
    ensures
        r == spec_lower_at(entries@, *scope, entry_tys@, i as int),
{
    if i < entries.len() {
        let (t, _) = lower_entry(entries, scope, entry_tys, i);
        t
    } else {
        Ty::Unknown
    }
}

/// A function's signature: each parameter annotation lowered in order, then
/// the return annotation. The body plays no part.
pub fn fn_sig_for_fn(fd: &FnData, scope: &ModuleScope, entry_tys: &Vec<(Ty, bool)>) -> (r: FnSig)
    ensures
        r.params@.len() == fd.params@.len(),
        forall|j: int|
            0 <= j < fd.params@.len() ==> r.params@[j] == spec_lower_at(
                fd.type_ref_map.entries@,
                *scope,
                entry_tys@,
                fd.params@[j] as int,
            ),
        r.ret == spec_lower_at(fd.type_ref_map.entries@, *scope, entry_tys@, fd.ret_type as int),
{
    let mut params: Vec<Ty> = Vec::new();
    let mut i: usize = 0;
    while i < fd.params.len()
        invariant
            0 <= i <= fd.params@.len(),
            params@.len() == i,
            forall|j: int|
                0 <= j < i ==> params@[j] == spec_lower_at(
                    fd.type_ref_map.entries@,
                    *scope,
                    entry_tys@,
                    fd.params@[j] as int,
                ),
        decreases fd.params@.len() - i,
    {
        let t = lower_at(&fd.type_ref_map.entries, scope, entry_tys, fd.params[i]);
        params.push(t);
        i += 1;
    }
    let ret = lower_at(&fd.type_ref_map.entries, scope, entry_tys, fd.ret_type);
    FnSig { params, ret }
}

/// A tuple struct constructor's signature: each field annotation lowered in
/// order, returning the struct's own type.
pub fn fn_sig_for_struct_constructor(
    sd: &StructData,
    scope: &ModuleScope,
    entry_tys: &Vec<(Ty, bool)>,
    s: StructId,
) -> (r: FnSig)
    ensures
        r.params@.len() == sd.fields@.len(),
        forall|j: int|
            0 <= j < sd.fields@.len() ==> r.params@[j] == spec_lower_at(
                sd.type_ref_map.entries@,
                *scope,
                entry_tys@,
                sd.fields@[j].type_ref as int,
            ),
        r.ret == Ty::Struct(s),
{
    let mut params: Vec<Ty> = Vec::new();
    let mut i: usize = 0;
    while i < sd.fields.len()
        invariant
            0 <= i <= sd.fields@.len(),
            params@.len() == i,
            forall|j: int|
                0 <= j < i ==> params@[j] == spec_lower_at(
                    sd.type_ref_map.entries@,
                    *scope,
                    entry_tys@,
                    sd.fields@[j].type_ref as int,
                ),
        decreases sd.fields@.len() - i,
    {
        let t = lower_at(&sd.type_ref_map.entries, scope, entry_tys, sd.fields[i].type_ref);
        params.push(t);
        i += 1;
    }
    FnSig { params, ret: Ty::Struct(s) }
}

// ---------------------------------------------------------------------------
// Cycle totality.
// ---------------------------------------------------------------------------

/// Law (cycle totality, self-reference): an alias whose annotation names the
/// alias itself resolves to `Unknown` with the cycle-recovery flag set, and
/// resolution terminates rather than recursing forever.
pub proof fn lemma_self_alias_cycle(
    scope: ModuleScope,
    env: AliasEnv,
    a: TypeAliasId,
    j: int,
    k: int,
    name: Seq<u8>,
)
    requires
        pos_first(env.ids@, a, j),
        j < env.datas@.len(),
        (alias_target(env.datas@[j]) matches TypeRef::Path(nm) && nm@ == name),
        scope_first(scope.entries@, name, k),
        scope.entries@[k].def == ScopeDef::TypeAlias(a),
    ensures
        spec_resolve_alias(scope, env, a) == (Ty::Unknown, true),
{
    let fuel = (env.ids@.len() + 1) as nat;
    let stack = seq![a];
    let jw = choose|x: int| #[trigger] pos_first(env.ids@, a, x);
    lemma_pos_first_unique(env.ids@, a, jw, j);
    let kw = choose|x: int| #[trigger] scope_first(scope.entries@, name, x);
    lemma_scope_first_unique(scope.entries@, name, kw, k);
    assert(stack[0] == a);
    assert(pos_first(stack, a, 0));
    let pw = choose|p: int| #[trigger] pos_first(stack, a, p);
    lemma_pos_first_unique(stack, a, pw, 0);
    assert(spec_resolve(scope, env, a, stack, fuel) == (Ty::Unknown, true, Some(0int)));
}

/// Law (cycle totality, mutual pair): two distinct aliases that name each
/// other both resolve to `Unknown` with the cycle-recovery flag set, and
/// resolution terminates.
pub proof fn lemma_mutual_alias_cycle(
    scope: ModuleScope,
    env: AliasEnv,
    a: TypeAliasId,
    b: TypeAliasId,
    ja: int,
    jb: int,
    ka: int,
    kb: int,
    name_a: Seq<u8>,
    name_b: Seq<u8>,
)
    requires
        a != b,
        pos_first(env.ids@, a, ja),
        ja < env.datas@.len(),
        pos_first(env.ids@, b, jb),
        jb < env.datas@.len(),
        (alias_target(env.datas@[ja]) matches TypeRef::Path(nm) && nm@ == name_b),
        (alias_target(env.datas@[jb]) matches TypeRef::Path(nm) && nm@ == name_a),
        scope_first(scope.entries@, name_b, kb),
        scope.entries@[kb].def == ScopeDef::TypeAlias(b),
        scope_first(scope.entries@, name_a, ka),
        scope.entries@[ka].def == ScopeDef::TypeAlias(a),
    ensures
        spec_resolve_alias(scope, env, a) == (Ty::Unknown, true),
        spec_resolve_alias(scope, env, b) == (Ty::Unknown, true),
{
    reveal_with_fuel(spec_resolve, 3);
    assert(ja != jb);
    assert(env.ids@.len() >= 2);
    let fuel = (env.ids@.len() + 1) as nat;
    lemma_mutual_alias_side(scope, env, a, b, ja, jb, ka, kb, name_a, name_b);
    lemma_mutual_alias_side(scope, env, b, a, jb, ja, kb, ka, name_b, name_a);
}

/// One direction of the mutual pair: resolving `a`, whose target is `b`,
/// whose target is `a` again, re-enters the stack at position zero.
proof fn lemma_mutual_alias_side(
    scope: ModuleScope,
    env: AliasEnv,
    a: TypeAliasId,
    b: TypeAliasId,
    ja: int,
    jb: int,
    ka: int,
    kb: int,
    name_a: Seq<u8>,
    name_b: Seq<u8>,
)
    requires
        a != b,
        pos_first(env.ids@, a, ja),
        ja < env.datas@.len(),
        pos_first(env.ids@, b, jb),
        jb < env.datas@.len(),
        (alias_target(env.datas@[ja]) matches TypeRef::Path(nm) && nm@ == name_b),
        (alias_target(env.datas@[jb]) matches TypeRef::Path(nm) && nm@ == name_a),
        scope_first(scope.entries@, name_b, kb),
        scope.entries@[kb].def == ScopeDef::TypeAlias(b),
        scope_first(scope.entries@, name_a, ka),
        scope.entries@[ka].def == ScopeDef::TypeAlias(a),
    ensures
        spec_resolve_alias(scope, env, a) == (Ty::Unknown, true),
{
    assert(ja != jb);
    assert(env.ids@.len() >= 2);
    let fuel = (env.ids@.len() + 1) as nat;
    let stack = seq![a];
    let jaw = choose|x: int| #[trigger] pos_first(env.ids@, a, x);
    lemma_pos_first_unique(env.ids@, a, jaw, ja);
    let kbw = choose|x: int| #[trigger] scope_first(scope.entries@, name_b, x);
    lemma_scope_first_unique(scope.entries@, name_b, kbw, kb);
    // b is not on the stack [a]
    assert forall|p: int| !pos_first(stack, b, p) by {
        if pos_first(stack, b, p) {
            assert(stack[p] == b);
            assert(p == 0);
        }
    }
    // the inner step: resolving b with stack [a, b] re-enters a at position 0
    let stack2 = stack.push(b);
    assert(stack2 =~= seq![a, b]);
    let jbw = choose|x: int| #[trigger] pos_first(env.ids@, b, x);
    lemma_pos_first_unique(env.ids@, b, jbw, jb);
    let kaw = choose|x: int| #[trigger] scope_first(scope.entries@, name_a, x);
    lemma_scope_first_unique(scope.entries@, name_a, kaw, ka);
    assert(stack2[0] == a);
    assert(pos_first(stack2, a, 0));
    let paw = choose|p: int| #[trigger] pos_first(stack2, a, p);
    lemma_pos_first_unique(stack2, a, paw, 0);
    assert((fuel - 1) as nat > 0);
    assert(spec_resolve(scope, env, b, stack2, (fuel - 1) as nat) == (
        Ty::Unknown,
        true,
        Some(0int),
    ));
    assert(spec_resolve(scope, env, a, stack, fuel) == (Ty::Unknown, true, Some(0int)));
}

/// Law (one diagnostic per alias queried directly): lowering an arena whose
/// single annotation is a path to a declaration whose declared type came
/// from cycle recovery yields that type and exactly one `CyclicType`
/// diagnostic, anchored at the one annotation.
pub proof fn lemma_lower_cyclic_diag(
    entries: Seq<TypeRef>,
    scope: ModuleScope,
    entry_tys: Seq<(Ty, bool)>,
    k: int,
    name: Seq<u8>,
)
    requires
        entries.len() == 1,
        (entries[0] matches TypeRef::Path(nm) && nm@ == name),
        scope_first(scope.entries@, name, k),
        k < entry_tys.len(),
        entry_tys[k].1,
    ensures
        spec_lower_diags(entries, scope, entry_tys, 1) == seq![
            LowerDiagnostic::CyclicType { id: 0 },
        ],
        spec_lower_ty(entries, scope, entry_tys, 0) == entry_tys[k].0,
{
    reveal_with_fuel(spec_lower_diags, 3);
    let kw = choose|x: int| #[trigger] scope_first(scope.entries@, name, x);
    lemma_scope_first_unique(scope.entries@, name, kw, k);
    assert(spec_lower_diag(entries, scope, entry_tys, 0) == Some(
        LowerDiagnostic::CyclicType { id: 0 },
    ));
    assert(spec_lower_diags(entries, scope, entry_tys, 1) =~= seq![
        LowerDiagnostic::CyclicType { id: 0 },
    ]);
}

} // verus!
