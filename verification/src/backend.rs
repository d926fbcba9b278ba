use vstd::prelude::*;
use crate::syntax::{bytes_clone, bytes_eq};

verus! {

/// The optimization level handed to code generation.
#[derive(Clone, Copy, PartialEq, Eq, Structural, Debug)]
pub enum OptimizationLevel {
    Off,
    Less,
    Standard,
    Aggressive,
}

/// Which linker convention the target uses.
#[derive(Clone, Copy, PartialEq, Eq, Structural, Debug)]
pub enum LinkerFlavor {
    Ld,
    Ld64,
    Msvc,
}

/// The code-generation target, held as plain values: triple, cpu and feature
/// strings, the architecture name, and the linker convention.
#[derive(Debug)]
pub struct TargetSpec {
    pub triple: Vec<u8>,
    pub cpu: Vec<u8>,
    pub features: Vec<u8>,
    pub arch: Vec<u8>,
    pub linker_flavor: LinkerFlavor,
}

/// The configuration inputs of the backend: everything the expensive backend
/// handle is built from, and nothing of the source layer.
#[derive(Debug)]
pub struct Config {
    pub target: TargetSpec,
    pub optimization_lvl: OptimizationLevel,
}

pub open spec fn target_eq(a: TargetSpec, b: TargetSpec) -> bool {
    &&& a.triple@ == b.triple@
    &&& a.cpu@ == b.cpu@
    &&& a.features@ == b.features@
    &&& a.arch@ == b.arch@
    &&& a.linker_flavor == b.linker_flavor
}

pub open spec fn config_eq(a: Config, b: Config) -> bool {
    target_eq(a.target, b.target) && a.optimization_lvl == b.optimization_lvl
}

pub fn config_eq_exec(a: &Config, b: &Config) -> (r: bool)
    ensures
        r == config_eq(*a, *b),
{
    bytes_eq(&a.target.triple, &b.target.triple) && bytes_eq(&a.target.cpu, &b.target.cpu)
        && bytes_eq(&a.target.features, &b.target.features) && bytes_eq(
        &a.target.arch,
        &b.target.arch,
    ) && a.target.linker_flavor == b.target.linker_flavor && a.optimization_lvl
        == b.optimization_lvl
}

pub fn config_clone(a: &Config) -> (r: Config)
    ensures
        config_eq(r, *a),
{
    Config {
        target: TargetSpec {
            triple: bytes_clone(&a.target.triple),
            cpu: bytes_clone(&a.target.cpu),
            features: bytes_clone(&a.target.features),
            arch: bytes_clone(&a.target.arch),
            linker_flavor: a.target.linker_flavor,
        },
        optimization_lvl: a.optimization_lvl,
    }
}

/// The identity-comparable wrapper around the one non-shareable backend
/// handle: consumers key their own caches on the token, never on the handle's
/// contents, so reference identity replaces deep value equality.
#[derive(Clone, Copy, PartialEq, Eq, Structural, Debug)]
pub struct TargetMachineHandle {
    pub token: u64,
}

/// The cache slot for the backend resource. It sits outside the general memo
/// table on purpose: the native handle it stands for has no stable value
/// equality and must never be shared through the ordinary query cache. The
/// slot is keyed by the configuration alone and rebuilt only when the
/// configuration changes.
#[derive(Debug)]
pub struct BackendCache {
    pub cached: Option<(Config, TargetMachineHandle)>,
    pub next_token: u64,
}

impl BackendCache {
    pub fn new() -> (r: BackendCache)
        ensures
            r.cached matches Option::None,
            r.next_token == 0,
    {
        BackendCache { cached: None, next_token: 0 }
    }

    /// The handle for a configuration: the cached handle, identical token and
    /// all, while the configuration is unchanged; a freshly minted handle as
    /// soon as it differs.
    pub fn get(&mut self, cfg: &Config) -> (h: TargetMachineHandle)
        requires
            old(self).next_token < u64::MAX,
        ensures
            match old(self).cached {
                Some(p) => {
                    if config_eq(p.0, *cfg) {
                        h == p.1 && *final(self) == *old(self)
                    } else {
                        h.token == old(self).next_token && final(self).next_token == old(
                            self,
                        ).next_token + 1 && (final(self).cached matches Some(q) && q.1 == h
                            && config_eq(q.0, *cfg))
                    }
                },
                None => {
                    h.token == old(self).next_token && final(self).next_token == old(
                        self,
                    ).next_token + 1 && (final(self).cached matches Some(q) && q.1 == h
                        && config_eq(q.0, *cfg))
                },
            },
    {
        let rebuild: bool = match &self.cached {
            Some(p) => !config_eq_exec(&p.0, cfg),
            None => true,
        };
        if !rebuild {
            match &self.cached {
                Some(p) => {
                    return p.1;
                },
                None => {
                    proof {
                        assert(false);
                    }
                    return TargetMachineHandle { token: 0 };
                },
            }
        }
        let h = TargetMachineHandle { token: self.next_token };
        self.next_token = self.next_token + 1;
        self.cached = Some((config_clone(cfg), h));
        h
    }
}


// ---------------------------------------------------------------------------
// Linker command construction. Building the argument list for a shared
// library is pure logic and verified here; invoking the platform linker on
// the finished list is the caller's edge.
// ---------------------------------------------------------------------------

/// Errors from preparing or running a link.
#[derive(Debug)]
pub enum LinkerError {
    /// Error emitted by the linker.
    LinkError(Vec<u8>),
    /// Error in path conversion: the path's bytes are not valid UTF-8.
    PathError(Vec<u8>),
    /// Could not locate the platform SDK.
    PlatformSdkMissing(Vec<u8>),
}

pub open spec fn lit_shared_flag() -> Seq<u8> {
    seq![45u8, 45u8, 115u8, 104u8, 97u8, 114u8, 101u8, 100u8]
}

fn lit_shared_flag_vec() -> (v: Vec<u8>)
    ensures
        v@ == lit_shared_flag(),
{
    let mut v: Vec<u8> = Vec::new();
    v.push(45u8);
    v.push(45u8);
    v.push(115u8);
    v.push(104u8);
    v.push(97u8);
    v.push(114u8);
    v.push(101u8);
    v.push(100u8);
    proof {
        assert(v@ =~= lit_shared_flag());
    }
    v
}

pub open spec fn lit_out_flag() -> Seq<u8> {
    seq![45u8, 111u8]
}

fn lit_out_flag_vec() -> (v: Vec<u8>)
    ensures
        v@ == lit_out_flag(),
{
    let mut v: Vec<u8> = Vec::new();
    v.push(45u8);
    v.push(111u8);
    proof {
        assert(v@ =~= lit_out_flag());
    }
    v
}

pub open spec fn lit_arch_flag() -> Seq<u8> {
    seq![45u8, 97u8, 114u8, 99u8, 104u8, 32u8]
}

fn lit_arch_flag_vec() -> (v: Vec<u8>)
    ensures
        v@ == lit_arch_flag(),
{
    let mut v: Vec<u8> = Vec::new();
    v.push(45u8);
    v.push(97u8);
    v.push(114u8);
    v.push(99u8);
    v.push(104u8);
    v.push(32u8);
    proof {
        assert(v@ =~= lit_arch_flag());
    }
    v
}

pub open spec fn lit_dylib_flag() -> Seq<u8> {
    seq![45u8, 100u8, 121u8, 108u8, 105u8, 98u8]
}

fn lit_dylib_flag_vec() -> (v: Vec<u8>)
    ensures
        v@ == lit_dylib_flag(),
{
    let mut v: Vec<u8> = Vec::new();
    v.push(45u8);
    v.push(100u8);
    v.push(121u8);
    v.push(108u8);
    v.push(105u8);
    v.push(98u8);
    proof {
        assert(v@ =~= lit_dylib_flag());
    }
    v
}

pub open spec fn lit_lib_dir_flag() -> Seq<u8> {
    seq![45u8, 76u8]
}

fn lit_lib_dir_flag_vec() -> (v: Vec<u8>)
    ensures
        v@ == lit_lib_dir_flag(),
{
    let mut v: Vec<u8> = Vec::new();
    v.push(45u8);
    v.push(76u8);
    proof {
        assert(v@ =~= lit_lib_dir_flag());
    }
    v
}

pub open spec fn lit_usr_lib_suffix() -> Seq<u8> {
    seq![47u8, 117u8, 115u8, 114u8, 47u8, 108u8, 105u8, 98u8]
}

fn lit_usr_lib_suffix_vec() -> (v: Vec<u8>)
    ensures
        v@ == lit_usr_lib_suffix(),
{
    let mut v: Vec<u8> = Vec::new();
    v.push(47u8);
    v.push(117u8);
    v.push(115u8);
    v.push(114u8);
    v.push(47u8);
    v.push(108u8);
    v.push(105u8);
    v.push(98u8);
    proof {
        assert(v@ =~= lit_usr_lib_suffix());
    }
    v
}

pub open spec fn lit_lsystem_flag() -> Seq<u8> {
    seq![45u8, 108u8, 115u8, 121u8, 115u8, 116u8, 101u8, 109u8]
}

fn lit_lsystem_flag_vec() -> (v: Vec<u8>)
    ensures
        v@ == lit_lsystem_flag(),
{
    let mut v: Vec<u8> = Vec::new();
    v.push(45u8);
    v.push(108u8);
    v.push(115u8);
    v.push(121u8);
    v.push(115u8);
    v.push(116u8);
    v.push(101u8);
    v.push(109u8);
    proof {
        assert(v@ =~= lit_lsystem_flag());
    }
    v
}

pub open spec fn lit_install_name_flag() -> Seq<u8> {
    seq![45u8, 105u8, 110u8, 115u8, 116u8, 97u8, 108u8, 108u8, 95u8, 110u8, 97u8, 109u8, 101u8]
}

fn lit_install_name_flag_vec() -> (v: Vec<u8>)
    ensures
        v@ == lit_install_name_flag(),
{
    let mut v: Vec<u8> = Vec::new();
    v.push(45u8);
    v.push(105u8);
    v.push(110u8);
    v.push(115u8);
    v.push(116u8);
    v.push(97u8);
    v.push(108u8);
    v.push(108u8);
    v.push(95u8);
    v.push(110u8);
    v.push(97u8);
    v.push(109u8);
    v.push(101u8);
    proof {
        assert(v@ =~= lit_install_name_flag());
    }
    v
}

pub open spec fn lit_dll_flag() -> Seq<u8> {
    seq![47u8, 68u8, 76u8, 76u8]
}

fn lit_dll_flag_vec() -> (v: Vec<u8>)
    ensures
        v@ == lit_dll_flag(),
{
    let mut v: Vec<u8> = Vec::new();
    v.push(47u8);
    v.push(68u8);
    v.push(76u8);
    v.push(76u8);
    proof {
        assert(v@ =~= lit_dll_flag());
    }
    v
}

pub open spec fn lit_noentry_flag() -> Seq<u8> {
    seq![47u8, 78u8, 79u8, 69u8, 78u8, 84u8, 82u8, 89u8]
}

fn lit_noentry_flag_vec() -> (v: Vec<u8>)
    ensures
        v@ == lit_noentry_flag(),
{
    let mut v: Vec<u8> = Vec::new();
    v.push(47u8);
    v.push(78u8);
    v.push(79u8);
    v.push(69u8);
    v.push(78u8);
    v.push(84u8);
    v.push(82u8);
    v.push(89u8);
    proof {
        assert(v@ =~= lit_noentry_flag());
    }
    v
}

pub open spec fn lit_export_get_info() -> Seq<u8> {
    seq![47u8, 69u8, 88u8, 80u8, 79u8, 82u8, 84u8, 58u8, 103u8, 101u8, 116u8, 95u8, 105u8, 110u8, 102u8, 111u8]
}

fn lit_export_get_info_vec() -> (v: Vec<u8>)
    ensures
        v@ == lit_export_get_info(),
{
    let mut v: Vec<u8> = Vec::new();
    v.push(47u8);
    v.push(69u8);
    v.push(88u8);
    v.push(80u8);
    v.push(79u8);
    v.push(82u8);
    v.push(84u8);
    v.push(58u8);
    v.push(103u8);
    v.push(101u8);
    v.push(116u8);
    v.push(95u8);
    v.push(105u8);
    v.push(110u8);
    v.push(102u8);
    v.push(111u8);
    proof {
        assert(v@ =~= lit_export_get_info());
    }
    v
}

pub open spec fn lit_export_get_version() -> Seq<u8> {
    seq![47u8, 69u8, 88u8, 80u8, 79u8, 82u8, 84u8, 58u8, 103u8, 101u8, 116u8, 95u8, 118u8, 101u8, 114u8, 115u8, 105u8, 111u8, 110u8]
}

fn lit_export_get_version_vec() -> (v: Vec<u8>)
    ensures
        v@ == lit_export_get_version(),
{
    let mut v: Vec<u8> = Vec::new();
    v.push(47u8);
    v.push(69u8);
    v.push(88u8);
    v.push(80u8);
    v.push(79u8);
    v.push(82u8);
    v.push(84u8);
    v.push(58u8);
    v.push(103u8);
    v.push(101u8);
    v.push(116u8);
    v.push(95u8);
    v.push(118u8);
    v.push(101u8);
    v.push(114u8);
    v.push(115u8);
    v.push(105u8);
    v.push(111u8);
    v.push(110u8);
    proof {
        assert(v@ =~= lit_export_get_version());
    }
    v
}

pub open spec fn lit_export_set_allocator() -> Seq<u8> {
    seq![47u8, 69u8, 88u8, 80u8, 79u8, 82u8, 84u8, 58u8, 115u8, 101u8, 116u8, 95u8, 97u8, 108u8, 108u8, 111u8, 99u8, 97u8, 116u8, 111u8, 114u8, 95u8, 104u8, 97u8, 110u8, 100u8, 108u8, 101u8]
}

fn lit_export_set_allocator_vec() -> (v: Vec<u8>)
    ensures
        v@ == lit_export_set_allocator(),
{
    let mut v: Vec<u8> = Vec::new();
    v.push(47u8);
    v.push(69u8);
    v.push(88u8);
    v.push(80u8);
    v.push(79u8);
    v.push(82u8);
    v.push(84u8);
    v.push(58u8);
    v.push(115u8);
    v.push(101u8);
    v.push(116u8);
    v.push(95u8);
    v.push(97u8);
    v.push(108u8);
    v.push(108u8);
    v.push(111u8);
    v.push(99u8);
    v.push(97u8);
    v.push(116u8);
    v.push(111u8);
    v.push(114u8);
    v.push(95u8);
    v.push(104u8);
    v.push(97u8);
    v.push(110u8);
    v.push(100u8);
    v.push(108u8);
    v.push(101u8);
    proof {
        assert(v@ =~= lit_export_set_allocator());
    }
    v
}

pub open spec fn lit_implib_prefix() -> Seq<u8> {
    seq![47u8, 73u8, 77u8, 80u8, 76u8, 73u8, 66u8, 58u8]
}

fn lit_implib_prefix_vec() -> (v: Vec<u8>)
    ensures
        v@ == lit_implib_prefix(),
{
    let mut v: Vec<u8> = Vec::new();
    v.push(47u8);
    v.push(73u8);
    v.push(77u8);
    v.push(80u8);
    v.push(76u8);
    v.push(73u8);
    v.push(66u8);
    v.push(58u8);
    proof {
        assert(v@ =~= lit_implib_prefix());
    }
    v
}

pub open spec fn lit_out_prefix() -> Seq<u8> {
    seq![47u8, 79u8, 85u8, 84u8, 58u8]
}

fn lit_out_prefix_vec() -> (v: Vec<u8>)
    ensures
        v@ == lit_out_prefix(),
{
    let mut v: Vec<u8> = Vec::new();
    v.push(47u8);
    v.push(79u8);
    v.push(85u8);
    v.push(84u8);
    v.push(58u8);
    proof {
        assert(v@ =~= lit_out_prefix());
    }
    v
}

pub open spec fn lit_msg_bad_path() -> Seq<u8> {
    seq![112u8, 97u8, 116u8, 104u8, 32u8, 99u8, 111u8, 110u8, 116u8, 97u8, 105u8, 110u8, 115u8, 32u8, 105u8, 110u8, 118u8, 97u8, 108u8, 105u8, 100u8, 32u8, 85u8, 84u8, 70u8, 45u8, 56u8, 32u8, 99u8, 104u8, 97u8, 114u8, 97u8, 99u8, 116u8, 101u8, 114u8, 115u8, 58u8, 32u8]
}

fn lit_msg_bad_path_vec() -> (v: Vec<u8>)
    ensures
        v@ == lit_msg_bad_path(),
{
    let mut v: Vec<u8> = Vec::new();
    v.push(112u8);
    v.push(97u8);
    v.push(116u8);
    v.push(104u8);
    v.push(32u8);
    v.push(99u8);
    v.push(111u8);
    v.push(110u8);
    v.push(116u8);
    v.push(97u8);
    v.push(105u8);
    v.push(110u8);
    v.push(115u8);
    v.push(32u8);
    v.push(105u8);
    v.push(110u8);
    v.push(118u8);
    v.push(97u8);
    v.push(108u8);
    v.push(105u8);
    v.push(100u8);
    v.push(32u8);
    v.push(85u8);
    v.push(84u8);
    v.push(70u8);
    v.push(45u8);
    v.push(56u8);
    v.push(32u8);
    v.push(99u8);
    v.push(104u8);
    v.push(97u8);
    v.push(114u8);
    v.push(97u8);
    v.push(99u8);
    v.push(116u8);
    v.push(101u8);
    v.push(114u8);
    v.push(115u8);
    v.push(58u8);
    v.push(32u8);
    proof {
        assert(v@ =~= lit_msg_bad_path());
    }
    v
}

pub open spec fn lit_msg_no_sdk() -> Seq<u8> {
    seq![99u8, 111u8, 117u8, 108u8, 100u8, 32u8, 110u8, 111u8, 116u8, 32u8, 102u8, 105u8, 110u8, 100u8, 32u8, 112u8, 108u8, 97u8, 116u8, 102u8, 111u8, 114u8, 109u8, 32u8, 115u8, 100u8, 107u8, 58u8, 32u8]
}

fn lit_msg_no_sdk_vec() -> (v: Vec<u8>)
    ensures
        v@ == lit_msg_no_sdk(),
{
    let mut v: Vec<u8> = Vec::new();
    v.push(99u8);
    v.push(111u8);
    v.push(117u8);
    v.push(108u8);
    v.push(100u8);
    v.push(32u8);
    v.push(110u8);
    v.push(111u8);
    v.push(116u8);
    v.push(32u8);
    v.push(102u8);
    v.push(105u8);
    v.push(110u8);
    v.push(100u8);
    v.push(32u8);
    v.push(112u8);
    v.push(108u8);
    v.push(97u8);
    v.push(116u8);
    v.push(102u8);
    v.push(111u8);
    v.push(114u8);
    v.push(109u8);
    v.push(32u8);
    v.push(115u8);
    v.push(100u8);
    v.push(107u8);
    v.push(58u8);
    v.push(32u8);
    proof {
        assert(v@ =~= lit_msg_no_sdk());
    }
    v
}

impl LinkerError {
    /// The error rendered as a message.
    pub fn message(&self) -> (r: Vec<u8>)
        ensures
            r@ == match *self {
                LinkerError::LinkError(e) => e@,
                LinkerError::PathError(p) => lit_msg_bad_path() + p@,
                LinkerError::PlatformSdkMissing(e) => lit_msg_no_sdk() + e@,
            },
    {
        match self {
            LinkerError::LinkError(e) => bytes_clone(e),
            LinkerError::PathError(p) => bytes_concat(&lit_msg_bad_path_vec(), p),
            LinkerError::PlatformSdkMissing(e) => bytes_concat(&lit_msg_no_sdk_vec(), e),
        }
    }
}

/// Which of the linker conventions a finished argument list is meant for.
#[derive(Clone, Copy, PartialEq, Eq, Structural, Debug)]
pub enum LldFlavor {
    Elf,
    MachO,
    Coff,
}

pub fn bytes_concat(a: &Vec<u8>, b: &Vec<u8>) -> (r: Vec<u8>)
    ensures
        r@ == a@ + b@,
{
    let mut out = bytes_clone(a);
    let mut i: usize = 0;
    while i < b.len()
        invariant
            0 <= i <= b@.len(),
            out@ =~= a@ + b@.take(i as int),
        decreases b@.len() - i,
    {
        out.push(b[i]);
        i += 1;
    }
    proof {
        assert(out@ =~= a@ + b@);
    }
    out
}

fn vecs_clone(a: &Vec<Vec<u8>>) -> (r: Vec<Vec<u8>>)
    ensures
        r@.len() == a@.len(),
        forall|i: int| 0 <= i < a@.len() ==> (#[trigger] r@[i])@ == a@[i]@,
{
    let mut out: Vec<Vec<u8>> = Vec::new();
    let mut i: usize = 0;
    while i < a.len()
        invariant
            0 <= i <= a@.len(),
            out@.len() == i,
            forall|j: int| 0 <= j < i ==> (#[trigger] out@[j])@ == a@[j]@,
        decreases a@.len() - i,
    {
        out.push(bytes_clone(&a[i]));
        i += 1;
    }
    out
}

/// `k` is the last path separator in `p`.
pub open spec fn last_slash_at(p: Seq<u8>, k: int) -> bool {
    0 <= k < p.len() && p[k] == 47u8 && forall|q: int| k < q < p.len() ==> (#[trigger] p[q]) != 47u8
}

/// The file name of a path: everything after the last separator, the whole
/// path when it has none.
pub open spec fn spec_file_name(p: Seq<u8>) -> Seq<u8> {
    if exists|k: int| #[trigger] last_slash_at(p, k) {
        let k = choose|k: int| #[trigger] last_slash_at(p, k);
        p.subrange(k + 1, p.len() as int)
    } else {
        p
    }
}

pub proof fn lemma_last_slash_unique(p: Seq<u8>, k1: int, k2: int)
    requires
        last_slash_at(p, k1),
        last_slash_at(p, k2),
    ensures
        k1 == k2,
{
    if k1 < k2 {
        assert(p[k2] != 47u8);
    }
    if k2 < k1 {
        assert(p[k1] != 47u8);
    }
}

pub fn file_name(p: &Vec<u8>) -> (r: Vec<u8>)
    ensures
        r@ == spec_file_name(p@),
{
    let mut i: usize = p.len();
    while i > 0
        invariant
            0 <= i <= p@.len(),
            forall|q: int| i <= q < p@.len() ==> (#[trigger] p@[q]) != 47u8,
        decreases i,
    {
        if p[i - 1] == 47u8 {
            proof {
                assert(last_slash_at(p@, i - 1));
                let kw = choose|k: int| #[trigger] last_slash_at(p@, k);
                lemma_last_slash_unique(p@, kw, i - 1);
            }
            return crate::parser::bytes_sub(p, i, p.len());
        }
        i -= 1;
    }
    proof {
        if exists|k: int| #[trigger] last_slash_at(p@, k) {
            let k = choose|k: int| #[trigger] last_slash_at(p@, k);
            assert(p@[k] != 47u8);
        }
    }
    bytes_clone(p)
}

/// Append one object file to an argument list.
fn push_object(args: &mut Vec<Vec<u8>>, path: &Vec<u8>)
    ensures
        final(args)@.len() == old(args)@.len() + 1,
        forall|i: int| 0 <= i < old(args)@.len() ==> final(args)@[i] == old(args)@[i],
        (final(args)@[old(args)@.len() as int])@ == path@,
{
    args.push(bytes_clone(path));
}

// ---------------------------------------------------------------------------
// Path encoding. The linker drivers take their arguments as strings, so a
// path whose bytes are not well-formed UTF-8 is rejected with `PathError`
// before it can enter an argument list.
// ---------------------------------------------------------------------------

/// A continuation byte of a multi-byte encoding.
pub open spec fn utf8_cont(b: u8) -> bool {
    0x80 <= b && b <= 0xBF
}

/// Well-formed UTF-8, by the standard byte-range table: ASCII, two- to
/// four-byte sequences with their continuation ranges, surrogates and
/// overlong forms excluded.
pub open spec fn utf8_ok(s: Seq<u8>) -> bool
    decreases s.len(),
{
    if s.len() == 0 {
        true
    } else {
        let b0 = s[0];
        if b0 < 0x80 {
            utf8_ok(s.skip(1))
        } else if 0xC2 <= b0 && b0 <= 0xDF {
            if s.len() >= 2 && utf8_cont(s[1]) {
                utf8_ok(s.skip(2))
            } else {
                false
            }
        } else if b0 == 0xE0 {
            if s.len() >= 3 && 0xA0 <= s[1] && s[1] <= 0xBF && utf8_cont(s[2]) {
                utf8_ok(s.skip(3))
            } else {
                false
            }
        } else if (0xE1 <= b0 && b0 <= 0xEC) || b0 == 0xEE || b0 == 0xEF {
            if s.len() >= 3 && utf8_cont(s[1]) && utf8_cont(s[2]) {
                utf8_ok(s.skip(3))
            } else {
                false
            }
        } else if b0 == 0xED {
            if s.len() >= 3 && 0x80 <= s[1] && s[1] <= 0x9F && utf8_cont(s[2]) {
                utf8_ok(s.skip(3))
            } else {
                false
            }
        } else if b0 == 0xF0 {
            if s.len() >= 4 && 0x90 <= s[1] && s[1] <= 0xBF && utf8_cont(s[2]) && utf8_cont(s[3]) {
                utf8_ok(s.skip(4))
            } else {
                false
            }
        } else if 0xF1 <= b0 && b0 <= 0xF3 {
            if s.len() >= 4 && utf8_cont(s[1]) && utf8_cont(s[2]) && utf8_cont(s[3]) {
                utf8_ok(s.skip(4))
            } else {
                false
            }
        } else if b0 == 0xF4 {
            if s.len() >= 4 && 0x80 <= s[1] && s[1] <= 0x8F && utf8_cont(s[2]) && utf8_cont(s[3]) {
                utf8_ok(s.skip(4))
            } else {
                false
            }
        } else {
            false
        }
    }
}

fn cont_at(v: &Vec<u8>, k: usize) -> (r: bool)
    requires
        k < v@.len(),
    ensures
        r == utf8_cont(v@[k as int]),
{
    let b = v[k];
    0x80 <= b && b <= 0xBF
}

fn utf8_check_from(v: &Vec<u8>, i: usize) -> (r: bool)
    requires
        i <= v@.len(),
    ensures
        r == utf8_ok(v@.skip(i as int)),
    decreases v@.len() - i,
{
    let n = v.len();
    let ghost s = v@.skip(i as int);
    if i == n {
        proof {
            assert(s =~= Seq::<u8>::empty());
        }
        return true;
    }
    proof {
        assert(s.len() == v@.len() - i);
        assert forall|k: int| 0 <= k < s.len() implies s[k] == v@[i + k] by {}
    }
    let b0 = v[i];
    if b0 < 0x80 {
        proof {
            assert(s.skip(1) =~= v@.skip(i + 1));
        }
        utf8_check_from(v, i + 1)
    } else if 0xC2 <= b0 && b0 <= 0xDF {
        if n - i >= 2 && cont_at(v, i + 1) {
            proof {
                assert(s.skip(2) =~= v@.skip(i + 2));
            }
            utf8_check_from(v, i + 2)
        } else {
            false
        }
    } else if b0 == 0xE0 {
        if n - i >= 3 && 0xA0 <= v[i + 1] && v[i + 1] <= 0xBF && cont_at(v, i + 2) {
            proof {
                assert(s.skip(3) =~= v@.skip(i + 3));
            }
            utf8_check_from(v, i + 3)
        } else {
            false
        }
    } else if (0xE1 <= b0 && b0 <= 0xEC) || b0 == 0xEE || b0 == 0xEF {
        if n - i >= 3 && cont_at(v, i + 1) && cont_at(v, i + 2) {
            proof {
                assert(s.skip(3) =~= v@.skip(i + 3));
            }
            utf8_check_from(v, i + 3)
        } else {
            false
        }
    } else if b0 == 0xED {
        if n - i >= 3 && 0x80 <= v[i + 1] && v[i + 1] <= 0x9F && cont_at(v, i + 2) {
            proof {
                assert(s.skip(3) =~= v@.skip(i + 3));
            }
            utf8_check_from(v, i + 3)
        } else {
            false
        }
    } else if b0 == 0xF0 {
        if n - i >= 4 && 0x90 <= v[i + 1] && v[i + 1] <= 0xBF && cont_at(v, i + 2) && cont_at(v, i + 3) {
            proof {
                assert(s.skip(4) =~= v@.skip(i + 4));
            }
            utf8_check_from(v, i + 4)
        } else {
            false
        }
    } else if 0xF1 <= b0 && b0 <= 0xF3 {
        if n - i >= 4 && cont_at(v, i + 1) && cont_at(v, i + 2) && cont_at(v, i + 3) {
            proof {
                assert(s.skip(4) =~= v@.skip(i + 4));
            }
            utf8_check_from(v, i + 4)
        } else {
            false
        }
    } else if b0 == 0xF4 {
        if n - i >= 4 && 0x80 <= v[i + 1] && v[i + 1] <= 0x8F && cont_at(v, i + 2) && cont_at(v, i + 3) {
            proof {
                assert(s.skip(4) =~= v@.skip(i + 4));
            }
            utf8_check_from(v, i + 4)
        } else {
            false
        }
    } else {
        false
    }
}

/// Whether a byte path is well-formed UTF-8.
pub fn utf8_valid(v: &Vec<u8>) -> (r: bool)
    ensures
        r == utf8_ok(v@),
{
    let n = v.len();
    proof {
        assert(v@.skip(0) =~= v@);
    }
    utf8_check_from(v, 0)
}

/// A linker builds the argument list for one shared library: objects are
/// added one by one, the platform flags follow, and the finished invocation
/// is handed back for the caller's linker driver to run. The contract pins
/// each convention's behavior through its own spec members: the list built
/// so far, the flags one shared library adds, whether a build is possible at
/// all, and which driver the list is meant for.
pub trait Linker {
    /// The argument list built so far.
    spec fn args_view(&self) -> Seq<Seq<u8>>;

    /// The flags this convention appends for a shared library at `path`.
    spec fn shared_args(&self, path: Seq<u8>) -> Seq<Seq<u8>>;

    /// Whether a shared library can be built: the Mach-O convention cannot
    /// without a platform SDK root.
    spec fn can_build(&self) -> bool;

    /// Which linker driver the finished list is for.
    spec fn flavor_spec(&self) -> LldFlavor;

    /// The message carried when no shared library can be built at all.
    spec fn build_error_msg(&self) -> Seq<u8>;

    fn add_object(&mut self, path: &Vec<u8>) -> (r: Result<(), LinkerError>)
        ensures
            match r {
                Ok(u) => utf8_ok(path@) && final(self).args_view() == old(self).args_view().push(
                    path@,
                ),
                Err(e) => !utf8_ok(path@) && final(self).args_view() == old(self).args_view() && (e
                    matches LinkerError::PathError(p) && p@ == path@),
            },
            forall|p: Seq<u8>| final(self).shared_args(p) == old(self).shared_args(p),
            final(self).can_build() == old(self).can_build(),
            final(self).build_error_msg() == old(self).build_error_msg(),
            final(self).flavor_spec() == old(self).flavor_spec(),
    ;

    fn build_shared_object(&mut self, path: &Vec<u8>) -> (r: Result<(), LinkerError>)
        ensures
            match r {
                Ok(u) => utf8_ok(path@) && old(self).can_build() && final(self).args_view() == old(
                    self,
                ).args_view() + old(self).shared_args(path@),
                Err(e) => final(self).args_view() == old(self).args_view() && (match e {
                    LinkerError::PathError(p) => !utf8_ok(path@) && p@ == path@,
                    LinkerError::PlatformSdkMissing(m) => utf8_ok(path@) && !old(self).can_build()
                        && m@ == old(self).build_error_msg(),
                    LinkerError::LinkError(_) => false,
                }),
            },
            final(self).can_build() == old(self).can_build(),
            final(self).build_error_msg() == old(self).build_error_msg(),
            final(self).flavor_spec() == old(self).flavor_spec(),
            forall|p: Seq<u8>| final(self).shared_args(p) == old(self).shared_args(p),
    ;

    fn finalize(&mut self) -> (r: (LldFlavor, Vec<Vec<u8>>))
        ensures
            final(self).args_view() == old(self).args_view(),
            forall|p: Seq<u8>| final(self).shared_args(p) == old(self).shared_args(p),
            final(self).can_build() == old(self).can_build(),
            final(self).build_error_msg() == old(self).build_error_msg(),
            final(self).flavor_spec() == old(self).flavor_spec(),
            r.0 == old(self).flavor_spec(),
            r.1@.len() == old(self).args_view().len(),
            forall|i: int|
                0 <= i < r.1@.len() ==> (#[trigger] r.1@[i])@ == old(self).args_view()[i],
    ;
}

pub open spec fn args_seq_view(args: Seq<Vec<u8>>) -> Seq<Seq<u8>> {
    args.map_values(|v: Vec<u8>| v@)
}

/// The GNU ld convention.
#[derive(Debug)]
pub struct LdLinker {
    pub args: Vec<Vec<u8>>,
}

impl LdLinker {
    pub fn new(target: &TargetSpec) -> (r: LdLinker)
        ensures
            r.args@.len() == 0,
    {
        LdLinker { args: Vec::new() }
    }
}

/// The flags the GNU ld convention appends for a shared library at `path`.
pub open spec fn ld_shared_args(path: Seq<u8>) -> Seq<Seq<u8>> {
    seq![lit_shared_flag(), lit_out_flag(), path]
}

fn ld_build_shared(args: &mut Vec<Vec<u8>>, path: &Vec<u8>)
    ensures
        final(args)@.len() == old(args)@.len() + 3,
        forall|i: int| 0 <= i < old(args)@.len() ==> final(args)@[i] == old(args)@[i],
        forall|i: int|
            0 <= i < 3 ==> (#[trigger] final(args)@[old(args)@.len() + i])@ == ld_shared_args(
                path@,
            )[i],
{
    args.push(lit_shared_flag_vec());
    args.push(lit_out_flag_vec());
    args.push(bytes_clone(path));
}

impl Linker for LdLinker {
    open spec fn args_view(&self) -> Seq<Seq<u8>> {
        args_seq_view(self.args@)
    }

    open spec fn shared_args(&self, path: Seq<u8>) -> Seq<Seq<u8>> {
        ld_shared_args(path)
    }

    open spec fn can_build(&self) -> bool {
        true
    }

    open spec fn build_error_msg(&self) -> Seq<u8> {
        Seq::<u8>::empty()
    }

    open spec fn flavor_spec(&self) -> LldFlavor {
        LldFlavor::Elf
    }

    fn add_object(&mut self, path: &Vec<u8>) -> Result<(), LinkerError> {
        if !utf8_valid(path) {
            return Err(LinkerError::PathError(bytes_clone(path)));
        }
        push_object(&mut self.args, path);
        proof {
            assert(args_seq_view(self.args@) =~= args_seq_view(old(self).args@).push(path@));
        }
        Ok(())
    }

    fn build_shared_object(&mut self, path: &Vec<u8>) -> Result<(), LinkerError> {
        if !utf8_valid(path) {
            return Err(LinkerError::PathError(bytes_clone(path)));
        }
        ld_build_shared(&mut self.args, path);
        proof {
            assert forall|k: int|
                0 <= k < self.args@.len() implies (args_seq_view(self.args@))[k] == (args_seq_view(
                old(self).args@,
            ) + ld_shared_args(path@))[k] by {
                if k >= old(self).args@.len() {
                    let i = k - old(self).args@.len();
                    assert((self.args@[old(self).args@.len() + i])@ == ld_shared_args(path@)[i]);
                }
            }
            assert(args_seq_view(self.args@) =~= args_seq_view(old(self).args@) + ld_shared_args(
                path@,
            ));
        }
        Ok(())
    }

    fn finalize(&mut self) -> (LldFlavor, Vec<Vec<u8>>) {
        (LldFlavor::Elf, vecs_clone(&self.args))
    }
}

/// The Mach-O ld64 convention. The platform SDK root is discovered by the
/// caller and supplied at construction, or the discovery error's message in
/// its place; linking without a root is the `PlatformSdkMissing` error,
/// carrying that message.
#[derive(Debug)]
pub struct Ld64Linker {
    pub args: Vec<Vec<u8>>,
    pub sdk_root: Result<Vec<u8>, Vec<u8>>,
}

impl Ld64Linker {
    pub fn new(target: &TargetSpec, sdk_root: Result<Vec<u8>, Vec<u8>>) -> (r: Ld64Linker)
        ensures
            r.args@.len() == 1,
            (r.args@[0])@ == lit_arch_flag() + target.arch@,
            r.sdk_root == sdk_root,
    {
        let mut args: Vec<Vec<u8>> = Vec::new();
        args.push(bytes_concat(&lit_arch_flag_vec(), &target.arch));
        Ld64Linker { args, sdk_root }
    }
}

/// The flags the ld64 convention appends for a shared library at `path`,
/// given the SDK root: the library is a dylib against the system library,
/// and its install name is the bare file name, never a full path.
pub open spec fn ld64_shared_args(path: Seq<u8>, sdk: Seq<u8>) -> Seq<Seq<u8>> {
    seq![
        lit_dylib_flag(),
        lit_lib_dir_flag() + sdk + lit_usr_lib_suffix(),
        lit_lsystem_flag(),
        lit_out_flag(),
        path,
        lit_install_name_flag(),
        spec_file_name(path),
    ]
}

fn ld64_build_shared(args: &mut Vec<Vec<u8>>, path: &Vec<u8>, sdk: &Vec<u8>)
    ensures
        final(args)@.len() == old(args)@.len() + 7,
        forall|i: int| 0 <= i < old(args)@.len() ==> final(args)@[i] == old(args)@[i],
        forall|i: int|
            0 <= i < 7 ==> (#[trigger] final(args)@[old(args)@.len() + i])@ == ld64_shared_args(
                path@,
                sdk@,
            )[i],
{
    args.push(lit_dylib_flag_vec());
    args.push(bytes_concat(&bytes_concat(&lit_lib_dir_flag_vec(), sdk), &lit_usr_lib_suffix_vec()));
    args.push(lit_lsystem_flag_vec());
    args.push(lit_out_flag_vec());
    args.push(bytes_clone(path));
    args.push(lit_install_name_flag_vec());
    args.push(file_name(path));
}

impl Linker for Ld64Linker {
    open spec fn args_view(&self) -> Seq<Seq<u8>> {
        args_seq_view(self.args@)
    }

    open spec fn shared_args(&self, path: Seq<u8>) -> Seq<Seq<u8>> {
        match self.sdk_root {
            Ok(root) => ld64_shared_args(path, root@),
            _ => Seq::<Seq<u8>>::empty(),
        }
    }

    open spec fn can_build(&self) -> bool {
        self.sdk_root matches Ok(_)
    }

    open spec fn build_error_msg(&self) -> Seq<u8> {
        match self.sdk_root {
            Err(m) => m@,
            _ => Seq::<u8>::empty(),
        }
    }

    open spec fn flavor_spec(&self) -> LldFlavor {
        LldFlavor::MachO
    }

    fn add_object(&mut self, path: &Vec<u8>) -> Result<(), LinkerError> {
        if !utf8_valid(path) {
            return Err(LinkerError::PathError(bytes_clone(path)));
        }
        push_object(&mut self.args, path);
        proof {
            assert(args_seq_view(self.args@) =~= args_seq_view(old(self).args@).push(path@));
        }
        Ok(())
    }

    fn build_shared_object(&mut self, path: &Vec<u8>) -> Result<(), LinkerError> {
        if !utf8_valid(path) {
            return Err(LinkerError::PathError(bytes_clone(path)));
        }
        let sdk = match &self.sdk_root {
            Ok(root) => bytes_clone(root),
            Err(m) => {
                return Err(LinkerError::PlatformSdkMissing(bytes_clone(m)));
            },
        };
        ld64_build_shared(&mut self.args, path, &sdk);
        proof {
            assert forall|k: int|
                0 <= k < self.args@.len() implies (args_seq_view(self.args@))[k] == (args_seq_view(
                old(self).args@,
            ) + old(self).shared_args(path@))[k] by {
                if k >= old(self).args@.len() {
                    let i = k - old(self).args@.len();
                    assert((self.args@[old(self).args@.len() + i])@ == ld64_shared_args(
                        path@,
                        sdk@,
                    )[i]);
                }
            }
            assert(args_seq_view(self.args@) =~= args_seq_view(old(self).args@) + old(
                self,
            ).shared_args(path@));
        }
        Ok(())
    }

    fn finalize(&mut self) -> (LldFlavor, Vec<Vec<u8>>) {
        (LldFlavor::MachO, vecs_clone(&self.args))
    }
}

/// The MSVC link.exe convention.
#[derive(Debug)]
pub struct MsvcLinker {
    pub args: Vec<Vec<u8>>,
}

impl MsvcLinker {
    pub fn new(target: &TargetSpec) -> (r: MsvcLinker)
        ensures
            r.args@.len() == 0,
    {
        MsvcLinker { args: Vec::new() }
    }
}

/// The flags the MSVC convention appends for a shared library at `path`: a
/// DLL without an entry point, exporting the runtime's entry symbols.
pub open spec fn msvc_shared_args(path: Seq<u8>) -> Seq<Seq<u8>> {
    seq![
        lit_dll_flag(),
        lit_noentry_flag(),
        lit_export_get_info(),
        lit_export_get_version(),
        lit_export_set_allocator(),
        lit_implib_prefix() + path,
        lit_out_prefix() + path,
    ]
}

fn msvc_build_shared(args: &mut Vec<Vec<u8>>, path: &Vec<u8>)
    ensures
        final(args)@.len() == old(args)@.len() + 7,
        forall|i: int| 0 <= i < old(args)@.len() ==> final(args)@[i] == old(args)@[i],
        forall|i: int|
            0 <= i < 7 ==> (#[trigger] final(args)@[old(args)@.len() + i])@ == msvc_shared_args(
                path@,
            )[i],
{
    args.push(lit_dll_flag_vec());
    args.push(lit_noentry_flag_vec());
    args.push(lit_export_get_info_vec());
    args.push(lit_export_get_version_vec());
    args.push(lit_export_set_allocator_vec());
    args.push(bytes_concat(&lit_implib_prefix_vec(), path));
    args.push(bytes_concat(&lit_out_prefix_vec(), path));
}

impl Linker for MsvcLinker {
    open spec fn args_view(&self) -> Seq<Seq<u8>> {
        args_seq_view(self.args@)
    }

    open spec fn shared_args(&self, path: Seq<u8>) -> Seq<Seq<u8>> {
        msvc_shared_args(path)
    }

    open spec fn can_build(&self) -> bool {
        true
    }

    open spec fn build_error_msg(&self) -> Seq<u8> {
        Seq::<u8>::empty()
    }

    open spec fn flavor_spec(&self) -> LldFlavor {
        LldFlavor::Coff
    }

    fn add_object(&mut self, path: &Vec<u8>) -> Result<(), LinkerError> {
        if !utf8_valid(path) {
            return Err(LinkerError::PathError(bytes_clone(path)));
        }
        push_object(&mut self.args, path);
        proof {
            assert(args_seq_view(self.args@) =~= args_seq_view(old(self).args@).push(path@));
        }
        Ok(())
    }

    fn build_shared_object(&mut self, path: &Vec<u8>) -> Result<(), LinkerError> {
        if !utf8_valid(path) {
            return Err(LinkerError::PathError(bytes_clone(path)));
        }
        msvc_build_shared(&mut self.args, path);
        proof {
            assert forall|k: int|
                0 <= k < self.args@.len() implies (args_seq_view(self.args@))[k] == (args_seq_view(
                old(self).args@,
            ) + msvc_shared_args(path@))[k] by {
                if k >= old(self).args@.len() {
                    let i = k - old(self).args@.len();
                    assert((self.args@[old(self).args@.len() + i])@ == msvc_shared_args(path@)[i]);
                }
            }
            assert(args_seq_view(self.args@) =~= args_seq_view(old(self).args@) + msvc_shared_args(
                path@,
            ));
        }
        Ok(())
    }

    fn finalize(&mut self) -> (LldFlavor, Vec<Vec<u8>>) {
        (LldFlavor::Coff, vecs_clone(&self.args))
    }
}

/// One linker of any convention, dispatched by the target's flavor.
#[derive(Debug)]
pub enum AnyLinker {
    Ld(LdLinker),
    Ld64(Ld64Linker),
    Msvc(MsvcLinker),
}

impl Linker for AnyLinker {
    open spec fn args_view(&self) -> Seq<Seq<u8>> {
        match self {
            AnyLinker::Ld(l) => l.args_view(),
            AnyLinker::Ld64(l) => l.args_view(),
            AnyLinker::Msvc(l) => l.args_view(),
        }
    }

    open spec fn shared_args(&self, path: Seq<u8>) -> Seq<Seq<u8>> {
        match self {
            AnyLinker::Ld(l) => l.shared_args(path),
            AnyLinker::Ld64(l) => l.shared_args(path),
            AnyLinker::Msvc(l) => l.shared_args(path),
        }
    }

    open spec fn can_build(&self) -> bool {
        match self {
            AnyLinker::Ld(l) => l.can_build(),
            AnyLinker::Ld64(l) => l.can_build(),
            AnyLinker::Msvc(l) => l.can_build(),
        }
    }

    open spec fn build_error_msg(&self) -> Seq<u8> {
        match self {
            AnyLinker::Ld(l) => l.build_error_msg(),
            AnyLinker::Ld64(l) => l.build_error_msg(),
            AnyLinker::Msvc(l) => l.build_error_msg(),
        }
    }

    open spec fn flavor_spec(&self) -> LldFlavor {
        match self {
            AnyLinker::Ld(l) => l.flavor_spec(),
            AnyLinker::Ld64(l) => l.flavor_spec(),
            AnyLinker::Msvc(l) => l.flavor_spec(),
        }
    }

    fn add_object(&mut self, path: &Vec<u8>) -> Result<(), LinkerError> {
        match self {
            AnyLinker::Ld(l) => l.add_object(path),
            AnyLinker::Ld64(l) => l.add_object(path),
            AnyLinker::Msvc(l) => l.add_object(path),
        }
    }

    fn build_shared_object(&mut self, path: &Vec<u8>) -> Result<(), LinkerError> {
        match self {
            AnyLinker::Ld(l) => l.build_shared_object(path),
            AnyLinker::Ld64(l) => l.build_shared_object(path),
            AnyLinker::Msvc(l) => l.build_shared_object(path),
        }
    }

    fn finalize(&mut self) -> (LldFlavor, Vec<Vec<u8>>) {
        match self {
            AnyLinker::Ld(l) => l.finalize(),
            AnyLinker::Ld64(l) => l.finalize(),
            AnyLinker::Msvc(l) => l.finalize(),
        }
    }
}

/// The linker for a target, by the target's linker flavor. The Mach-O
/// convention additionally needs the platform SDK root the caller found.
pub fn create_with_target(target: &TargetSpec, sdk_root: Result<Vec<u8>, Vec<u8>>) -> (r: AnyLinker)
    ensures
        match target.linker_flavor {
            LinkerFlavor::Ld => r matches AnyLinker::Ld(l) && l.args@.len() == 0,
            LinkerFlavor::Ld64 => r matches AnyLinker::Ld64(l) && l.args@.len() == 1 && (
            l.args@[0])@ == lit_arch_flag() + target.arch@ && l.sdk_root == sdk_root,
            LinkerFlavor::Msvc => r matches AnyLinker::Msvc(l) && l.args@.len() == 0,
        },
{
    match target.linker_flavor {
        LinkerFlavor::Ld => AnyLinker::Ld(LdLinker::new(target)),
        LinkerFlavor::Ld64 => AnyLinker::Ld64(Ld64Linker::new(target, sdk_root)),
        LinkerFlavor::Msvc => AnyLinker::Msvc(MsvcLinker::new(target)),
    }
}

} // verus!
