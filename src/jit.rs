use vstd::prelude::*;
use vstd::string::StringExecFns;

verus! {

/// What one claim on the initialization guard decides: whether the caller
/// runs the one-time native setup, and whether the backend is ready after.
pub open spec fn claim_step(ready: bool) -> (bool, bool) {
    (!ready, true)
}

/// How many of `n` successive claims, starting from `ready`, run the setup.
pub open spec fn setups(ready: bool, n: nat) -> nat
    decreases n,
{
    if n == 0 {
        0
    } else {
        (if claim_step(ready).0 {
            1nat
        } else {
            0nat
        }) + setups(claim_step(ready).1, (n - 1) as nat)
    }
}

/// Whether the backend is ready after `n` successive claims from `ready`.
pub open spec fn ready_after(ready: bool, n: nat) -> bool
    decreases n,
{
    if n == 0 {
        ready
    } else {
        ready_after(claim_step(ready).1, (n - 1) as nat)
    }
}

/// The process-wide state of the native backend's one-time setup. Callers
/// that may race hold it behind a lock and claim it while holding the lock.
pub struct NativeInit {
    ready: bool,
}

impl NativeInit {
    pub closed spec fn ready(&self) -> bool {
        self.ready
    }

    /// A backend on which no setup has run.
    pub fn new() -> (r: NativeInit)
        ensures
            !r.ready(),
    {
        NativeInit { ready: false }
    }

    /// Claims the setup: true for the caller that must run it, false when it
    /// has already run. The backend counts as ready afterwards.
    pub fn claim(&mut self) -> (run: bool)
        ensures
            (run, final(self).ready()) == claim_step(old(self).ready()),
    {
        let run = !self.ready;
        self.ready = true;
        run
    }

    pub fn is_ready(&self) -> (r: bool)
        ensures
            r == self.ready(),
    {
        self.ready
    }
}

/// Setup runs exactly once over any number of claims on a fresh backend,
/// never again on a ready one, and the backend is ready after any claim.
pub proof fn lemma_setup_once(ready: bool, n: nat)
    requires
        n >= 1,
    ensures
        setups(ready, n) == (if ready {
            0nat
        } else {
            1nat
        }),
        ready_after(ready, n),
    decreases n,
{
    if n > 1 {
        lemma_setup_once(true, (n - 1) as nat);
    } else {
        assert(setups(true, 0) == 0);
        assert(ready_after(true, 0));
    }
}

/// The steps of building a backend that can fail.
pub enum Stage {
    /// Detecting the host target.
    DetectHost,
    /// Creating the engine builder.
    CreateBuilder,
    /// Creating the engine.
    CreateJit,
}

impl Stage {
    /// The name of the native call that performs the step.
    pub open spec fn name_spec(&self) -> Seq<char> {
        match self {
            Stage::DetectHost => "LLVMOrcJITTargetMachineBuilderDetectHost"@,
            Stage::CreateBuilder => "LLVMOrcCreateLLJITBuilder"@,
            Stage::CreateJit => "LLVMOrcCreateLLJIT"@,
        }
    }

    pub fn name(&self) -> (r: &'static str)
        ensures
            r@ == self.name_spec(),
    {
        match self {
            Stage::DetectHost => "LLVMOrcJITTargetMachineBuilderDetectHost",
            Stage::CreateBuilder => "LLVMOrcCreateLLJITBuilder",
            Stage::CreateJit => "LLVMOrcCreateLLJIT",
        }
    }
}

/// The report of a failed step: the native call's name, then the backend's
/// own diagnostic text.
pub fn stage_error(stage: &Stage, diag: &str) -> (r: String)
    ensures
        r@ == stage.name_spec() + ": "@ + diag@,
{
    let head = String::from_str(stage.name());
    let with_sep = head.concat(": ");
    with_sep.concat(diag)
}

} // verus!
