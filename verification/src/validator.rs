use vstd::prelude::*;
use crate::db::{
    body_like_cell, evolved, fd_like_cell, sig_like_cell, CompilerDatabase,
};
use crate::defs::{BodyData, FnData, TypeRefSourceMap};
use crate::ids::{CallableDef, FileId, FunctionId};
use crate::syntax::Span;
use crate::ty::{FnSig, LowerBatchResult, LowerDiagnostic, Ty};

verus! {

/// A source-anchored diagnostic: a kind and the place it points at.
/// Diagnostics are values returned beside results, never thrown.
#[derive(Clone, Copy, PartialEq, Eq, Structural, Debug)]
pub enum Diagnostic {
    ExternCannotHaveBody { file: FileId, anchor: Span },
    ExternNonPrimitiveParam { file: FileId, anchor: Span },
    UnresolvedType { file: FileId, anchor: Span },
    CyclicType { file: FileId, anchor: Span },
}

/// The append-only sink the caller supplies: validation and lowering push
/// diagnostics here and never mutate anything else.
#[derive(Debug)]
pub struct DiagnosticSink {
    pub diags: Vec<Diagnostic>,
}

impl DiagnosticSink {
    pub fn new() -> (r: DiagnosticSink)
        ensures
            r.diags@.len() == 0,
    {
        DiagnosticSink { diags: Vec::new() }
    }

    pub fn push(&mut self, d: Diagnostic)
        ensures
            final(self).diags@ == old(self).diags@.push(d),
    {
        self.diags.push(d);
    }

    pub fn len(&self) -> (r: usize)
        ensures
            r == self.diags@.len(),
    {
        self.diags.len()
    }

    pub fn get(&self, i: usize) -> (r: Diagnostic)
        requires
            i < self.diags@.len(),
        ensures
            r == self.diags@[i as int],
    {
        self.diags[i]
    }
}

/// The anchor a source map gives one arena index.
pub open spec fn spec_anchor(spans: Seq<Span>, id: int) -> Span {
    if 0 <= id < spans.len() {
        spans[id]
    } else {
        Span { line: 0, start: 0, len: 0 }
    }
}

pub open spec fn spec_diag_of(d: LowerDiagnostic, file: FileId, spans: Seq<Span>) -> Diagnostic {
    match d {
        LowerDiagnostic::UnresolvedType { id } => Diagnostic::UnresolvedType {
            file,
            anchor: spec_anchor(spans, id as int),
        },
        LowerDiagnostic::CyclicType { id } => Diagnostic::CyclicType {
            file,
            anchor: spec_anchor(spans, id as int),
        },
    }
}

/// Resolve every lowering diagnostic of a batch result through the
/// declaration's source map and append them, in order, to the sink.
pub fn add_diagnostics(
    l: &LowerBatchResult,
    file: FileId,
    source_map: &TypeRefSourceMap,
    sink: &mut DiagnosticSink,
)
    ensures
        final(sink).diags@ == old(sink).diags@ + l.diagnostics@.map_values(
            |d: LowerDiagnostic| spec_diag_of(d, file, source_map.spans@),
        ),
{
    let ghost base = sink.diags@;
    let mut i: usize = 0;
    while i < l.diagnostics.len()
        invariant
            0 <= i <= l.diagnostics@.len(),
            sink.diags@ =~= base + l.diagnostics@.take(i as int).map_values(
                |d: LowerDiagnostic| spec_diag_of(d, file, source_map.spans@),
            ),
        decreases l.diagnostics@.len() - i,
    {
        let d = l.diagnostics[i];
        let diag = match d {
            LowerDiagnostic::UnresolvedType { id } => Diagnostic::UnresolvedType {
                file,
                anchor: source_map.type_ref_span(id),
            },
            LowerDiagnostic::CyclicType { id } => Diagnostic::CyclicType {
                file,
                anchor: source_map.type_ref_span(id),
            },
        };
        sink.push(diag);
        proof {
            assert(l.diagnostics@.take(i + 1).map_values(
                |dd: LowerDiagnostic| spec_diag_of(dd, file, source_map.spans@),
            ) =~= l.diagnostics@.take(i as int).map_values(
                |dd: LowerDiagnostic| spec_diag_of(dd, file, source_map.spans@),
            ).push(spec_diag_of(d, file, source_map.spans@)));
        }
        i += 1;
    }
    proof {
        assert(l.diagnostics@.take(l.diagnostics@.len() as int) =~= l.diagnostics@);
        assert(sink.diags@ =~= base + l.diagnostics@.map_values(
            |d: LowerDiagnostic| spec_diag_of(d, file, source_map.spans@),
        ));
    }
}

// ---------------------------------------------------------------------------
// The semantic validator: a pure consumer of cached queries.
// ---------------------------------------------------------------------------

/// The diagnostics that the parameters of an external declaration provoke:
/// one `ExternNonPrimitiveParam`, anchored at the parameter's annotation, per
/// parameter whose lowered type is a struct, over the first `n` parameters.
pub open spec fn spec_param_diags(v: ExprValidator, n: int) -> Seq<Diagnostic>
    decreases n,
{
    if n <= 0 {
        Seq::<Diagnostic>::empty()
    } else {
        spec_param_diags(v, n - 1) + (if (v.sig.params@[n - 1] matches Ty::Struct(_)) && n - 1
            < v.fd.params@.len() {
            seq![
                Diagnostic::ExternNonPrimitiveParam {
                    file: v.file,
                    anchor: spec_anchor(
                        v.fd.type_ref_source_map.spans@,
                        v.fd.params@[n - 1] as int,
                    ),
                },
            ]
        } else {
            Seq::<Diagnostic>::empty()
        })
    }
}

/// Everything `validate_extern` reports for one function, in order: nothing
/// for a non-external declaration; for an external one, exactly one
/// `ExternCannotHaveBody` if its body is not the missing placeholder, then
/// one diagnostic per struct-typed parameter, then one for a struct-typed
/// return.
pub open spec fn spec_extern_diags(v: ExprValidator) -> Seq<Diagnostic> {
    if !v.fd.is_extern {
        Seq::<Diagnostic>::empty()
    } else {
        (if !v.body.root_missing {
            seq![Diagnostic::ExternCannotHaveBody { file: v.file, anchor: v.body.decl_span }]
        } else {
            Seq::<Diagnostic>::empty()
        }) + spec_param_diags(v, v.sig.params@.len() as int) + (if v.sig.ret matches Ty::Struct(_) {
            seq![
                Diagnostic::ExternNonPrimitiveParam {
                    file: v.file,
                    anchor: spec_anchor(v.fd.type_ref_source_map.spans@, v.fd.ret_type as int),
                },
            ]
        } else {
            Seq::<Diagnostic>::empty()
        })
    }
}

/// The validator for one function: it pulls the function's body, inferred
/// signature and data through the cached queries once, then checks
/// cross-cutting declaration constraints without mutating shared state.
pub struct ExprValidator {
    pub func: FunctionId,
    pub file: FileId,
    pub fd: FnData,
    pub body: BodyData,
    pub sig: FnSig,
}

impl ExprValidator {
    /// Pull the function's cached facts out of the engine: the captured
    /// data, body and signature are the respective cells' values.
    pub fn new(func: FunctionId, db: &mut CompilerDatabase) -> (v: ExprValidator)
        requires
            old(db).wf(),
        ensures
            final(db).wf(),
            evolved(*old(db), *final(db), 5int),
            v.func == func,
            fd_like_cell(*final(db), func, v.fd),
            body_like_cell(*final(db), func, v.body),
            sig_like_cell(*final(db), func, v.sig),
            crate::db::fresh_cell(*final(db), crate::memo::QueryKey::FnData(func)),
            crate::db::fresh_cell(*final(db), crate::memo::QueryKey::Body(func)),
            crate::db::fresh_cell(
                *final(db),
                crate::memo::QueryKey::CallableSig(CallableDef::Function(func)),
            ),
    {
        let file = match db.functions.lookup(func.0) {
            Some(loc) => loc.file,
            None => FileId(0),
        };
        let ghost d0 = *db;
        let fd = db.fn_data(func);
        let ghost d1 = *db;
        let body = db.body(func);
        let ghost d2 = *db;
        proof {
            crate::db::lemma_fresh_value_preserved(
                d1,
                d2,
                3int,
                crate::memo::QueryKey::FnData(func),
            );
            crate::db::lemma_fd_like_transfer(d1, d2, func, fd);
        }
        let sig = db.callable_sig(CallableDef::Function(func));
        proof {
            crate::db::lemma_fresh_value_preserved(
                d2,
                *db,
                5int,
                crate::memo::QueryKey::FnData(func),
            );
            crate::db::lemma_fd_like_transfer(d2, *db, func, fd);
            crate::db::lemma_fresh_value_preserved(
                d2,
                *db,
                5int,
                crate::memo::QueryKey::Body(func),
            );
            crate::db::lemma_body_like_transfer(d2, *db, func, body);
            crate::db::lemma_evolved_widen(d0, d1, 3int, 5int);
            crate::db::lemma_evolved_widen(d1, d2, 3int, 5int);
            crate::db::lemma_evolved_trans(d0, d1, d2, 5int);
            crate::db::lemma_evolved_trans(d0, d2, *db, 5int);
        }
        ExprValidator { func, file, fd, body, sig }
    }

    /// Check the constraints on external declarations and push exactly the
    /// diagnostics `spec_extern_diags` describes, in that order.
    pub fn validate_extern(&self, sink: &mut DiagnosticSink)
        ensures
            final(sink).diags@ == old(sink).diags@ + spec_extern_diags(*self),
    {
        if !self.fd.is_extern {
            proof {
                assert(sink.diags@ =~= old(sink).diags@ + spec_extern_diags(*self));
            }
            return ;
        }
        let ghost base = sink.diags@;
        if !self.body.root_missing {
            sink.push(
                Diagnostic::ExternCannotHaveBody { file: self.file, anchor: self.body.decl_span },
            );
        }
        let ghost head = sink.diags@;
        let mut j: usize = 0;
        while j < self.sig.params.len()
            invariant
                0 <= j <= self.sig.params@.len(),
                sink.diags@ =~= head + spec_param_diags(*self, j as int),
            decreases self.sig.params@.len() - j,
        {
            let is_struct = match self.sig.params[j] {
                Ty::Struct(_) => true,
                _ => false,
            };
            if is_struct && j < self.fd.params.len() {
                let anchor = self.fd.type_ref_source_map.type_ref_span(self.fd.params[j]);
                sink.push(Diagnostic::ExternNonPrimitiveParam { file: self.file, anchor });
            }
            j += 1;
        }
        let ret_is_struct = match self.sig.ret {
            Ty::Struct(_) => true,
            _ => false,
        };
        if ret_is_struct {
            let anchor = self.fd.type_ref_source_map.type_ref_span(self.fd.ret_type);
            sink.push(Diagnostic::ExternNonPrimitiveParam { file: self.file, anchor });
        }
        proof {
            assert(sink.diags@ =~= base + spec_extern_diags(*self));
        }
    }

    /// Validate the function's body-level constraints, writing to the
    /// caller's sink only.
    pub fn validate_body(&self, sink: &mut DiagnosticSink)
        ensures
            final(sink).diags@ == old(sink).diags@ + spec_extern_diags(*self),
    {
        self.validate_extern(sink);
    }
}

proof fn lemma_param_diags_empty(v: ExprValidator, n: int)
    requires
        forall|j: int| 0 <= j < n ==> !((#[trigger] v.sig.params@[j]) matches Ty::Struct(_)),
    ensures
        spec_param_diags(v, n) == Seq::<Diagnostic>::empty(),
    decreases n,
{
    if n > 0 {
        lemma_param_diags_empty(v, n - 1);
        assert(spec_param_diags(v, n) =~= Seq::<Diagnostic>::empty());
    } else {
        assert(spec_param_diags(v, n) =~= Seq::<Diagnostic>::empty());
    }
}

/// Law (extern validation): an external declaration whose body is present
/// yields exactly one `ExternCannotHaveBody` diagnostic when none of its
/// parameter or return types is a struct; and every struct-typed parameter
/// or return of an external declaration yields exactly one
/// `ExternNonPrimitiveParam`, anchored at its own annotation.
pub proof fn lemma_extern_body_single_diag(v: ExprValidator)
    requires
        v.fd.is_extern,
        !v.body.root_missing,
        forall|j: int|
            0 <= j < v.sig.params@.len() ==> !((#[trigger] v.sig.params@[j]) matches Ty::Struct(_)),
        !(v.sig.ret matches Ty::Struct(_)),
    ensures
        spec_extern_diags(v) == seq![
            Diagnostic::ExternCannotHaveBody { file: v.file, anchor: v.body.decl_span },
        ],
{
    lemma_param_diags_empty(v, v.sig.params@.len() as int);
    assert(spec_extern_diags(v) =~= seq![
        Diagnostic::ExternCannotHaveBody { file: v.file, anchor: v.body.decl_span },
    ]);
}

} // verus!
