//! The control surface: translation of the fixed signal set into
//! supervisor actions, the terminate sequence, and the reaper that
//! reclaims terminated children. The blocking waits themselves (signal
//! wait, child wait, the backoff sleep) run outside the library; every
//! decision between them is made here.

use vstd::prelude::*;

use crate::haproxy::HAProxyProcessError;

verus! {

/// The signals the control loop reacts to: one reload signal and two
/// terminate signals. Anything else never reaches the loop.
#[derive(Debug, Clone, Copy, PartialEq, Eq, Structural)]
pub enum ControlSignal {
    /// Re-exec a new worker generation, keeping the listeners.
    Hup,
    /// Graceful shutdown of the supervisor and its current worker.
    Term,
    /// Graceful shutdown, requested interactively.
    Int,
}

/// What the control loop does for one signal.
#[derive(Debug, Clone, Copy, PartialEq, Eq, Structural)]
pub enum ControlAction {
    Reload,
    Terminate,
}

/// The action each signal demands.
pub open spec fn action_of(sig: ControlSignal) -> ControlAction {
    match sig {
        ControlSignal::Hup => ControlAction::Reload,
        ControlSignal::Term => ControlAction::Terminate,
        ControlSignal::Int => ControlAction::Terminate,
    }
}

/// Translate a received signal: the reload signal reloads, both
/// terminate signals terminate.
pub fn action_for_signal(sig: ControlSignal) -> (a: ControlAction)
    ensures
        a == action_of(sig),
{
    match sig {
        ControlSignal::Hup => ControlAction::Reload,
        ControlSignal::Term => ControlAction::Terminate,
        ControlSignal::Int => ControlAction::Terminate,
    }
}

/// The terminate sequence, as data: whom to ask to drain, whether to
/// remove the PID file, and the process's exit code.
#[derive(Debug, Clone, Copy, PartialEq, Eq, Structural)]
pub struct TerminatePlan {
    /// Send the graceful-stop signal to this worker, if one was found.
    pub kill_pid: Option<u32>,
    /// Remove the PID file (best effort).
    pub remove_pid_file: bool,
    /// Exit status of the supervisor: non-zero, to distinguish a
    /// deliberate stop from success.
    pub exit_code: i32,
}

/// Decide the terminate sequence from the PID-file reading: when the
/// file names a worker, that worker is asked to drain and the file is
/// removed; when it does not, neither happens. Shutdown always
/// completes, with exit code 1 either way; the supervisor's exit does
/// not wait for the reaper to observe the old worker's end — the OS
/// releases what is left when the process exits.
pub fn terminate_plan(wp: &Result<u32, HAProxyProcessError>) -> (p: TerminatePlan)
    ensures
        p.exit_code == 1,
        match wp {
            Ok(pid) => p.kill_pid == Some(*pid) && p.remove_pid_file,
            Err(_) => p.kill_pid is None && !p.remove_pid_file,
        },
{
    match wp {
        Ok(pid) => TerminatePlan { kill_pid: Some(*pid), remove_pid_file: true, exit_code: 1 },
        Err(_) => TerminatePlan { kill_pid: None, remove_pid_file: false, exit_code: 1 },
    }
}

/// Relies on nix::sys::signal::kill with SIGUSR1: delivers the
/// graceful-stop signal — the contract with the worker that it stop
/// accepting on inherited sockets and exit once drained. On failure the
/// OS error number is returned.
#[verifier::external_body]
fn sys_kill_usr1(pid: i32) -> (r: Result<(), i32>) {
    match nix::sys::signal::kill(nix::unistd::Pid::from_raw(pid), nix::sys::signal::Signal::SIGUSR1)
    {
        Ok(()) => Ok(()),
        Err(e) => Err(e as i32),
    }
}

/// Ask the worker with this process id to drain and exit. Whether the
/// signal is delivered is the OS's to decide; a failure carries the OS
/// error number and blocks nothing else of the shutdown.
pub fn send_graceful_stop(pid: u32) -> (r: Result<(), i32>)
    requires
        pid <= i32::MAX as u32,
{
    sys_kill_usr1(pid as i32)
}

/// Relies on nix::sys::wait::wait: blocks until any child of this
/// process changes state and reclaims it, releasing its process-table
/// entry; returns the child's process id when the status names one. On
/// failure (e.g., no children exist) the OS error number is returned.
#[verifier::external_body]
fn sys_wait_any() -> (r: Result<Option<i32>, i32>) {
    match nix::sys::wait::wait() {
        Ok(st) => Ok(st.pid().map(|p| p.as_raw())),
        Err(e) => Err(e as i32),
    }
}

/// What the reaper does next after one blocking wait.
#[derive(Debug, Clone, Copy, PartialEq, Eq, Structural)]
pub enum ReaperDirective {
    /// A terminated child was reclaimed (its pid, when the OS named
    /// one); loop again immediately.
    Reaped(Option<i32>),
    /// The wait failed with this OS error; back off before retrying,
    /// to avoid a busy loop on a persistent error.
    Backoff(i32),
}

/// The reaper's next step for one wait outcome: a reclaimed child is
/// reported and the loop continues at once; a failed wait backs off.
pub fn directive_for(r: Result<Option<i32>, i32>) -> (d: ReaperDirective)
    ensures
        match r {
            Ok(pid) => d == ReaperDirective::Reaped(pid),
            Err(e) => d == ReaperDirective::Backoff(e),
        },
{
    match r {
        Ok(pid) => ReaperDirective::Reaped(pid),
        Err(e) => ReaperDirective::Backoff(e),
    }
}

/// One reaper iteration: block until any child of this process changes
/// state and reclaim it. Every child this process ever spawns is
/// eventually reclaimed this way, superseded worker generations
/// included. Which child (if any) is reclaimed is the OS's to decide;
/// each outcome maps to exactly one directive.
pub fn reap_one() -> (d: ReaperDirective) {
    directive_for(sys_wait_any())
}

/// How long the reaper backs off after a failed wait.
pub fn reaper_backoff_seconds() -> (n: u64)
    ensures
        n == 10,
{
    10
}

/// One externally triggered request, together with the spawn outcome
/// its handling observed (`None`: the spawn failed and the previous
/// worker was left untouched).
pub ghost enum ControlRequest {
    Reload(Option<u32>),
    Terminate,
}

/// The current-worker handle after one reload: a spawned worker becomes
/// current, a failed spawn changes nothing.
pub open spec fn apply_reload(cur: Option<u32>, spawned: Option<u32>) -> Option<u32> {
    match spawned {
        Some(p) => Some(p),
        None => cur,
    }
}

/// The current-worker handle after the control loop has handled the
/// given requests in arrival order, one at a time; a terminate request
/// ends the loop, so nothing after it is observed.
pub open spec fn handle_requests(cur: Option<u32>, reqs: Seq<ControlRequest>) -> Option<u32>
    decreases reqs.len(),
{
    if reqs.len() == 0 {
        cur
    } else {
        match reqs[0] {
            ControlRequest::Reload(out) => handle_requests(apply_reload(cur, out), reqs.skip(1)),
            ControlRequest::Terminate => cur,
        }
    }
}

/// Requests are totally ordered by arrival at the single control
/// thread: a terminate request that arrives while a reload's spawn is
/// in flight is handled only after that reload completes, so the state
/// it observes is the post-reload state, never an interleaving.
pub proof fn lemma_terminate_after_reload(cur: Option<u32>, out: Option<u32>)
    ensures
        handle_requests(
            cur,
            seq![ControlRequest::Reload(out), ControlRequest::Terminate],
        ) == apply_reload(cur, out),
{
    let reqs = seq![ControlRequest::Reload(out), ControlRequest::Terminate];
    let tail = seq![ControlRequest::Terminate];
    assert(reqs.skip(1) =~= tail);
    assert(handle_requests(apply_reload(cur, out), tail) == apply_reload(cur, out));
}

} // verus!
