//! The loader's bookkeeping: which configured plugins load, which
//! fail, and why.
//!
//! Loading itself is operating-system work; what the host decides is
//! recorded here.  For each configured path, in order, the OS layer
//! reports whether the library loaded and whether each of the two
//! required entry points resolved; a plugin with a missing entry point
//! counts as failed to load as a whole.  One plugin failing never
//! stops the others: the loader keeps every success, in configured
//! order, and reports every failure alongside.

use vstd::prelude::*;

verus! {

/// What the operating-system loader reported for one configured
/// plugin path: `None` for each step that succeeded, or the OS error
/// code where it failed.  An entry-point field matters only when the
/// library itself loaded.
#[derive(Clone, Copy, Debug, PartialEq, Eq)]
pub struct ModuleProbe {
    /// Error code if the dynamic library could not be loaded.
    pub load_error: Option<u32>,
    /// Error code if the inspection entry point did not resolve.
    pub inspect_error: Option<u32>,
    /// Error code if the selection entry point did not resolve.
    pub select_error: Option<u32>,
}

/// Why one plugin failed to load; recoverable at the granularity of
/// that single plugin.
#[derive(Clone, Copy, Debug, PartialEq, Eq, Structural)]
pub enum LoadError {
    /// The dynamic library itself could not be loaded.
    OsError(u32),
    /// The library loaded but the inspection entry point was missing;
    /// the whole plugin counts as failed and is unloaded.
    LoadInspectConfigFn(u32),
    /// The library loaded but the selection entry point was missing;
    /// the whole plugin counts as failed and is unloaded.
    LoadSshArgsFn(u32),
}

/// The loader's verdict on one probe: loading comes first, then the
/// inspection entry point, then the selection entry point.
pub open spec fn probe_result(p: ModuleProbe) -> Result<(), LoadError> {
    match p.load_error {
        Some(code) => Err(LoadError::OsError(code)),
        None => match p.inspect_error {
            Some(code) => Err(LoadError::LoadInspectConfigFn(code)),
            None => match p.select_error {
                Some(code) => Err(LoadError::LoadSshArgsFn(code)),
                None => Ok(()),
            },
        },
    }
}

/// The loader's verdict on one probe.
pub fn classify_probe(p: &ModuleProbe) -> (r: Result<(), LoadError>)
    ensures
        r == probe_result(*p),
{
    match p.load_error {
        Some(code) => Err(LoadError::OsError(code)),
        None => match p.inspect_error {
            Some(code) => Err(LoadError::LoadInspectConfigFn(code)),
            None => match p.select_error {
                Some(code) => Err(LoadError::LoadSshArgsFn(code)),
                None => Ok(()),
            },
        },
    }
}

/// Whether the failed plugin behind `e` still holds an OS-level
/// module reference that must be released.
pub fn error_needs_unload(e: &LoadError) -> (r: bool)
    ensures
        r == !(*e is OsError),
{
    match e {
        LoadError::OsError(_) => false,
        LoadError::LoadInspectConfigFn(_) => true,
        LoadError::LoadSshArgsFn(_) => true,
    }
}

/// Indices among the first `n` probes whose plugin loaded, in order.
pub open spec fn loaded_upto(probes: Seq<ModuleProbe>, n: int) -> Seq<usize>
    decreases n,
{
    if n <= 0 || n > probes.len() {
        Seq::empty()
    } else {
        let prefix = loaded_upto(probes, n - 1);
        if probe_result(probes[n - 1]) is Ok {
            prefix.push((n - 1) as usize)
        } else {
            prefix
        }
    }
}

/// Indices of the probes whose plugin loaded, in configured order.
pub open spec fn loaded_indices(probes: Seq<ModuleProbe>) -> Seq<usize> {
    loaded_upto(probes, probes.len() as int)
}

/// Failures among the first `n` probes, each index with its error.
pub open spec fn failures_upto(probes: Seq<ModuleProbe>, n: int) -> Seq<(usize, LoadError)>
    decreases n,
{
    if n <= 0 || n > probes.len() {
        Seq::empty()
    } else {
        let prefix = failures_upto(probes, n - 1);
        match probe_result(probes[n - 1]) {
            Ok(_) => prefix,
            Err(e) => prefix.push(((n - 1) as usize, e)),
        }
    }
}

/// Every failure, each index with its error, in configured order.
pub open spec fn failed_loads(probes: Seq<ModuleProbe>) -> Seq<(usize, LoadError)> {
    failures_upto(probes, probes.len() as int)
}

/// The loader's decisions for a configured sequence of plugin paths.
#[derive(Debug, PartialEq, Eq)]
pub struct LoadPlan {
    /// Indices of the plugins that loaded, in configured order.
    pub loaded: Vec<usize>,
    /// Each failed index with why it failed, in configured order.
    pub failures: Vec<(usize, LoadError)>,
}

/// Decides, for each probed path in order, whether its plugin is kept
/// or reported as failed; one failure never affects the rest.
pub fn load_plugins(probes: &Vec<ModuleProbe>) -> (r: LoadPlan)
    ensures
        r.loaded@ == loaded_indices(probes@),
        r.failures@ == failed_loads(probes@),
{
    let n = probes.len();
    let mut loaded: Vec<usize> = Vec::new();
    let mut failures: Vec<(usize, LoadError)> = Vec::new();
    let mut i: usize = 0;
    while i < n
        invariant
            i <= n,
            n == probes@.len(),
            loaded@ == loaded_upto(probes@, i as int),
            failures@ == failures_upto(probes@, i as int),
        decreases n - i,
    {
        match classify_probe(&probes[i]) {
            Ok(_) => loaded.push(i),
            Err(e) => failures.push((i, e)),
        }
        i += 1;
    }
    LoadPlan { loaded, failures }
}

/// Loader resilience: the plan's loaded list holds exactly the probes
/// that resolved everything, in configured order, and every other
/// probe appears among the failures with its own error, in order.
pub proof fn lemma_loader_resilience(probes: Seq<ModuleProbe>, n: int)
    requires
        0 <= n <= probes.len(),
        probes.len() <= usize::MAX,
    ensures
        forall|k: int|
            0 <= k < loaded_upto(probes, n).len() ==> (#[trigger] loaded_upto(probes, n)[k]) < n
                && probe_result(probes[loaded_upto(probes, n)[k] as int]) is Ok,
        forall|k1: int, k2: int|
            0 <= k1 < k2 < loaded_upto(probes, n).len() ==> loaded_upto(probes, n)[k1]
                < loaded_upto(probes, n)[k2],
        forall|i: int|
            0 <= i < n && probe_result(probes[i]) is Ok ==> loaded_upto(probes, n).contains(
                i as usize,
            ),
        forall|k: int|
            0 <= k < failures_upto(probes, n).len() ==> (#[trigger] failures_upto(probes, n)[k]).0
                < n && probe_result(probes[failures_upto(probes, n)[k].0 as int]) == Err::<
                (),
                LoadError,
            >(failures_upto(probes, n)[k].1),
        forall|k1: int, k2: int|
            0 <= k1 < k2 < failures_upto(probes, n).len() ==> failures_upto(probes, n)[k1].0
                < failures_upto(probes, n)[k2].0,
        forall|i: int|
            0 <= i < n && probe_result(probes[i]) is Err ==> exists|k: int|
                0 <= k < failures_upto(probes, n).len() && (#[trigger] failures_upto(
                    probes,
                    n,
                )[k]).0 == i as usize,
    decreases n,
{
    if n > 0 {
        lemma_loader_resilience(probes, n - 1);
        let prev = loaded_upto(probes, n - 1);
        let prevf = failures_upto(probes, n - 1);
        let cur = loaded_upto(probes, n);
        let curf = failures_upto(probes, n);
        match probe_result(probes[n - 1]) {
            Ok(_) => {
                assert(cur == prev.push((n - 1) as usize));
                assert(curf == prevf);
            },
            Err(e) => {
                assert(cur == prev);
                assert(curf == prevf.push(((n - 1) as usize, e)));
            },
        }
        assert forall|k: int|
            0 <= k < cur.len() implies (#[trigger] cur[k]) < n && probe_result(
            probes[cur[k] as int],
        ) is Ok by {
            if k < prev.len() {
                assert(cur[k] == prev[k]);
            }
        }
        assert forall|k1: int, k2: int| 0 <= k1 < k2 < cur.len() implies cur[k1] < cur[k2] by {
            if k2 < prev.len() {
                assert(cur[k1] == prev[k1] && cur[k2] == prev[k2]);
            } else {
                assert(cur[k1] == prev[k1]);
            }
        }
        assert forall|i: int|
            0 <= i < n && probe_result(probes[i]) is Ok implies cur.contains(i as usize) by {
            if i < n - 1 {
                let k = choose|k: int| 0 <= k < prev.len() && prev[k] == i as usize;
                assert(cur[k] == i as usize);
            } else {
                assert(cur[prev.len() as int] == i as usize);
            }
        }
        assert forall|k: int|
            0 <= k < curf.len() implies (#[trigger] curf[k]).0 < n && probe_result(
            probes[curf[k].0 as int],
        ) == Err::<(), LoadError>(curf[k].1) by {
            if k < prevf.len() {
                assert(curf[k] == prevf[k]);
            }
        }
        assert forall|k1: int, k2: int| 0 <= k1 < k2 < curf.len() implies curf[k1].0
            < curf[k2].0 by {
            if k2 < prevf.len() {
                assert(curf[k1] == prevf[k1] && curf[k2] == prevf[k2]);
            } else {
                assert(curf[k1] == prevf[k1]);
            }
        }
        assert forall|i: int|
            0 <= i < n && probe_result(probes[i]) is Err implies exists|k: int|
                0 <= k < curf.len() && (#[trigger] curf[k]).0 == i as usize by {
            if i < n - 1 {
                let k = choose|k: int| 0 <= k < prevf.len() && (#[trigger] prevf[k]).0
                    == i as usize;
                assert(curf[k].0 == i as usize);
            } else {
                assert(curf[prevf.len() as int].0 == i as usize);
            }
        }
    }
}

} // verus!
