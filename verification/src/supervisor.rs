//! Lifecycle state machine of the supervised game-server process.
//!
//! The supervisor owns the knowledge of whether a process is live and
//! decides, for every operation, what the surrounding runtime must do:
//! spawn a process, write a termination line to its stdin, or nothing.
//! The runtime performs the spawn or write and reports the outcome back
//! through the `*_outcome` methods, so every decision here is verified
//! for every possible outcome of the outside work.

use vstd::prelude::*;

verus! {

/// Lifecycle states: `Stopped -> Starting -> Running -> Stopping -> Stopped`.
/// `Starting` and `Stopping` exist only between an operation and its
/// reported outcome; between completed calls the machine is at rest.
#[derive(Clone, Copy, Debug, PartialEq, Eq, Structural)]
pub enum SupervisorState {
    Stopped,
    Starting,
    Running,
    Stopping,
}

/// The errors a supervisor operation surfaces.  `SpawnError`: the
/// process could not be launched, the state returns to `Stopped`.
/// `NotRunning`: a command was issued with no live process.  Write,
/// flush and exit-wait failures on the child's streams are the
/// runtime's to log: they are never propagated, so the state machine
/// cannot wedge on them.
#[derive(Clone, Copy, Debug, PartialEq, Eq, Structural)]
pub enum SupervisorError {
    SpawnError,
    NotRunning,
}

/// What the runtime must do after a `start` decision.
#[derive(Clone, Copy, Debug, PartialEq, Eq, Structural)]
pub enum StartAction {
    /// The process is already live (or being started): nothing to do,
    /// the call counts as a success.
    AlreadyRunning,
    /// Spawn the process with piped stdin/stdout/stderr, then report
    /// the outcome through `start_outcome`.
    Spawn,
}

/// What the runtime must do after a `stop` decision.
pub enum StopAction {
    /// No live process: nothing to do, the call counts as a success.
    AlreadyStopped,
    /// Write the carried line to the child's stdin and flush; if stdin
    /// is unavailable or the write fails, kill the process instead.
    /// Then wait for the exit and call `stop_outcome`.
    Terminate(String),
}

/// The line that asks the supervised process to shut itself down.
pub open spec fn stop_line() -> Seq<char> {
    seq!['s', 't', 'o', 'p', '\n']
}

/// A console line as written to the process: the text plus a newline.
pub open spec fn framed(text: Seq<char>) -> Seq<char> {
    text + seq!['\n']
}

/// The machine is between completed calls: no operation is in flight.
pub open spec fn at_rest(st: SupervisorState) -> bool {
    st is Stopped || st is Running
}

/// State and action decided by `start`.
pub open spec fn start_transition(st: SupervisorState) -> (SupervisorState, StartAction) {
    if st is Running || st is Starting {
        (st, StartAction::AlreadyRunning)
    } else {
        (SupervisorState::Starting, StartAction::Spawn)
    }
}

/// State after the runtime reports whether the spawn succeeded.
pub open spec fn start_outcome_transition(spawn_ok: bool) -> SupervisorState {
    if spawn_ok {
        SupervisorState::Running
    } else {
        SupervisorState::Stopped
    }
}

/// State decided by `stop`, and whether a termination is owed.
pub open spec fn stop_transition(st: SupervisorState) -> (SupervisorState, bool) {
    if st is Stopped {
        (st, false)
    } else {
        (SupervisorState::Stopping, true)
    }
}

/// Owner of the subprocess lifecycle.  It holds no process handle
/// itself: the runtime that drives it does, and there is one handle
/// exactly when this machine is not `Stopped`.
pub struct MinecraftServer {
    state: SupervisorState,
}

impl View for MinecraftServer {
    type V = SupervisorState;

    closed spec fn view(&self) -> SupervisorState {
        self.state
    }
}

impl MinecraftServer {
    /// A fresh supervisor with no live process.
    pub fn new() -> (s: Self)
        ensures
            s@ is Stopped,
    {
        MinecraftServer { state: SupervisorState::Stopped }
    }

    /// Decide a start: a no-op success when the process is already live
    /// or being started, otherwise a spawn is owed and the machine
    /// moves to `Starting`.
    pub fn start(&mut self) -> (act: StartAction)
        ensures
            final(self)@ == start_transition(old(self)@).0,
            act == start_transition(old(self)@).1,
    {
        match self.state {
            SupervisorState::Running | SupervisorState::Starting => StartAction::AlreadyRunning,
            _ => {
                self.state = SupervisorState::Starting;
                StartAction::Spawn
            },
        }
    }

    /// Record the outcome of the spawn the runtime was asked to do:
    /// success makes the process live, failure returns the machine to
    /// `Stopped` and surfaces `SpawnError`.
    pub fn start_outcome(&mut self, spawn_ok: bool) -> (r: Result<(), SupervisorError>)
        requires
            old(self)@ is Starting,
        ensures
            final(self)@ == start_outcome_transition(spawn_ok),
            r is Ok <==> spawn_ok,
            r is Err ==> r == Result::<(), SupervisorError>::Err(SupervisorError::SpawnError),
    {
        if spawn_ok {
            self.state = SupervisorState::Running;
            Ok(())
        } else {
            self.state = SupervisorState::Stopped;
            Err(SupervisorError::SpawnError)
        }
    }

    /// Decide a stop: a no-op success when nothing is live, otherwise
    /// the machine moves to `Stopping` and the runtime owes a
    /// termination with the carried `stop` line.
    pub fn stop(&mut self) -> (act: StopAction)
        ensures
            final(self)@ == stop_transition(old(self)@).0,
            (act is AlreadyStopped) <==> !stop_transition(old(self)@).1,
            act matches StopAction::Terminate(line) ==> line@ == stop_line(),
    {
        match self.state {
            SupervisorState::Stopped => StopAction::AlreadyStopped,
            _ => {
                self.state = SupervisorState::Stopping;
                let line = frame_line("stop");
                proof {
                    reveal_strlit("stop");
                    assert(line@ =~= stop_line());
                }
                StopAction::Terminate(line)
            },
        }
    }

    /// Record that the process has exited (or was killed).  Wait
    /// failures are not reported here: the handle is dropped regardless,
    /// so the machine never wedges in `Stopping`.
    pub fn stop_outcome(&mut self)
        requires
            old(self)@ is Stopping,
        ensures
            final(self)@ is Stopped,
    {
        self.state = SupervisorState::Stopped;
    }

    /// True exactly when the process is live.
    pub fn is_running(&self) -> (r: bool)
        ensures
            r == (self@ is Running),
    {
        match self.state {
            SupervisorState::Running => true,
            _ => false,
        }
    }

    /// Decide a console command: only a live process accepts one.  On
    /// success the returned line is exactly the command plus a newline,
    /// ready to be written to the child's stdin and flushed.
    pub fn send_command(&self, command: &str) -> (r: Result<String, SupervisorError>)
        ensures
            r is Ok <==> self@ is Running,
            r matches Ok(line) ==> line@ == framed(command@),
            r is Err ==> r == Result::<String, SupervisorError>::Err(SupervisorError::NotRunning),
    {
        match self.state {
            SupervisorState::Running => Ok(frame_line(command)),
            _ => Err(SupervisorError::NotRunning),
        }
    }
}

/// One completed lifecycle call, as a caller sees it: a `start` whose
/// spawn (if one was attempted) went as `spawn_ok` says, or a `stop`.
#[derive(Clone, Copy, Debug, PartialEq, Eq, Structural)]
pub enum SupervisorCall {
    Start { spawn_ok: bool },
    Stop,
}

/// The state after one completed call: the `start` or `stop` decision
/// followed, where one was owed, by the reported outcome.
pub open spec fn apply_call(st: SupervisorState, c: SupervisorCall) -> SupervisorState {
    match c {
        SupervisorCall::Start { spawn_ok } => {
            let (st1, act) = start_transition(st);
            if act is Spawn {
                start_outcome_transition(spawn_ok)
            } else {
                st1
            }
        },
        SupervisorCall::Stop => {
            let (st1, must_terminate) = stop_transition(st);
            if must_terminate {
                SupervisorState::Stopped
            } else {
                st1
            }
        },
    }
}

/// What one completed call returns to its caller.
pub open spec fn call_result(st: SupervisorState, c: SupervisorCall) -> Result<
    (),
    SupervisorError,
> {
    match c {
        SupervisorCall::Start { spawn_ok } => {
            if start_transition(st).1 is AlreadyRunning || spawn_ok {
                Ok(())
            } else {
                Err(SupervisorError::SpawnError)
            }
        },
        SupervisorCall::Stop => Ok(()),
    }
}

/// The state after a sequence of completed calls, from `Stopped`.
pub open spec fn run_calls(calls: Seq<SupervisorCall>) -> SupervisorState
    decreases calls.len(),
{
    if calls.len() == 0 {
        SupervisorState::Stopped
    } else {
        apply_call(run_calls(calls.drop_last()), calls.last())
    }
}

/// Position `i` holds a successful start that no later stop undoes.
pub open spec fn live_start_at(calls: Seq<SupervisorCall>, i: int) -> bool {
    &&& 0 <= i < calls.len()
    &&& calls[i] == (SupervisorCall::Start { spawn_ok: true })
    &&& forall|j: int| i < j < calls.len() ==> !((#[trigger] calls[j]) is Stop)
}

/// Between completed calls the machine is at rest: no `Starting` or
/// `Stopping` state survives a call.
pub proof fn lemma_run_calls_at_rest(calls: Seq<SupervisorCall>)
    ensures
        at_rest(run_calls(calls)),
    decreases calls.len(),
{
    if calls.len() > 0 {
        lemma_run_calls_at_rest(calls.drop_last());
    }
}

/// Law: after any sequence of completed start/stop calls, the process
/// is running exactly when some call was a start with a successful
/// spawn outcome and no stop completed after it.  In particular starts
/// and stops are idempotent: repeating one changes nothing.
pub proof fn lemma_is_running_characterization(calls: Seq<SupervisorCall>)
    ensures
        run_calls(calls) is Running <==> exists|i: int| live_start_at(calls, i),
    decreases calls.len(),
{
    if calls.len() == 0 {
    } else {
        let pre = calls.drop_last();
        let c = calls.last();
        lemma_is_running_characterization(pre);
        lemma_run_calls_at_rest(pre);
        if c is Stop {
            assert forall|i: int| !live_start_at(calls, i) by {
                if live_start_at(calls, i) {
                    assert(calls[calls.len() - 1] is Stop);
                    assert(i < calls.len() - 1);
                }
            }
        } else {
            let spawn_ok = c->spawn_ok;
            if run_calls(pre) is Running {
                let w = choose|i: int| live_start_at(pre, i);
                assert(calls[w] == pre[w]);
                assert forall|j: int| w < j < calls.len() implies !((#[trigger] calls[j])
                    is Stop) by {
                    if j < calls.len() - 1 {
                        assert(calls[j] == pre[j]);
                    }
                }
                assert(live_start_at(calls, w));
            } else {
                if spawn_ok {
                    assert(live_start_at(calls, calls.len() - 1));
                } else {
                    assert forall|i: int| !live_start_at(calls, i) by {
                        if live_start_at(calls, i) {
                            if i == calls.len() - 1 {
                                assert(calls[i] == (SupervisorCall::Start { spawn_ok: false }));
                            } else {
                                assert(calls[i] == pre[i]);
                                assert forall|j: int| i < j < pre.len() implies !((
                                #[trigger] pre[j]) is Stop) by {
                                    assert(pre[j] == calls[j]);
                                }
                                assert(live_start_at(pre, i));
                            }
                        }
                    }
                }
            }
        }
    }
}

/// Law: starting while running and stopping while stopped leave the
/// state unchanged and succeed.
pub proof fn lemma_start_stop_idempotent(spawn_ok: bool)
    ensures
        apply_call(SupervisorState::Running, SupervisorCall::Start { spawn_ok })
            == SupervisorState::Running,
        call_result(SupervisorState::Running, SupervisorCall::Start { spawn_ok }) is Ok,
        apply_call(SupervisorState::Stopped, SupervisorCall::Stop) == SupervisorState::Stopped,
        call_result(SupervisorState::Stopped, SupervisorCall::Stop) is Ok,
{
}

/// Append the newline that makes a console command take effect.
pub fn frame_line(text: &str) -> (r: String)
    ensures
        r@ == framed(text@),
{
    let mut r = String::new();
    r.append(text);
    r.append("\n");
    proof {
        reveal_strlit("\n");
        assert(r@ =~= framed(text@));
    }
    r
}

} // verus!
