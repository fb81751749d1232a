//! The shared application state: the one supervisor and the one hub,
//! behind a single owner so a mutual-exclusion discipline outside the
//! library can serialize every structural mutation.

use crate::hub::Hub;
use crate::supervisor::{
    framed, start_transition, stop_transition, MinecraftServer, StartAction, StopAction,
    SupervisorError,
};
use tokio::sync::mpsc::UnboundedReceiver;
use vstd::prelude::*;

verus! {

/// The parsed body of a start request: the path of the server
/// executable to launch.  The supervisor's state machine does not read
/// it; the runtime that performs the spawn does.
pub struct StartRequest {
    pub file_path: String,
}

/// Everything the request handlers and the client sessions share: the
/// supervisor of the one game-server process and the broadcast hub.
pub struct AppState {
    pub server: MinecraftServer,
    pub hub: Hub,
}

impl AppState {
    /// A fresh state: nothing running, nobody subscribed, client ids
    /// starting at 1.
    pub fn new() -> (s: Self)
        ensures
            s.server@ is Stopped,
            s.hub.wf(),
            s.hub.ids() == Seq::<u64>::empty(),
            s.hub.next_client_id() == 1,
    {
        AppState { server: MinecraftServer::new(), hub: Hub::new() }
    }

    /// Start the game server unless it is already live; the hub is
    /// untouched.
    pub fn start_minecraft(&mut self) -> (act: StartAction)
        ensures
            final(self).server@ == start_transition(old(self).server@).0,
            act == start_transition(old(self).server@).1,
            final(self).hub == old(self).hub,
    {
        self.server.start()
    }

    /// Report how the spawn went; see `MinecraftServer::start_outcome`.
    pub fn start_minecraft_outcome(&mut self, spawn_ok: bool) -> (r: Result<(), SupervisorError>)
        requires
            old(self).server@ is Starting,
        ensures
            final(self).server@ is Running <==> spawn_ok,
            final(self).server@ is Stopped <==> !spawn_ok,
            r is Ok <==> spawn_ok,
            final(self).hub == old(self).hub,
    {
        self.server.start_outcome(spawn_ok)
    }

    /// Stop the game server unless nothing is live; the hub is
    /// untouched.
    pub fn stop_minecraft(&mut self) -> (act: StopAction)
        ensures
            final(self).server@ == stop_transition(old(self).server@).0,
            (act is AlreadyStopped) <==> old(self).server@ is Stopped,
            act matches StopAction::Terminate(line) ==> line@ == crate::supervisor::stop_line(),
            final(self).hub == old(self).hub,
    {
        self.server.stop()
    }

    /// Report that the process has exited; see
    /// `MinecraftServer::stop_outcome`.
    pub fn stop_minecraft_outcome(&mut self)
        requires
            old(self).server@ is Stopping,
        ensures
            final(self).server@ is Stopped,
            final(self).hub == old(self).hub,
    {
        self.server.stop_outcome()
    }

    /// Whether the game server is live.
    pub fn is_running(&self) -> (r: bool)
        ensures
            r == (self.server@ is Running),
    {
        self.server.is_running()
    }

    /// Frame a console command for the process, or refuse it while
    /// nothing is running.
    pub fn send_command(&self, command: &str) -> (r: Result<String, SupervisorError>)
        ensures
            r is Ok <==> self.server@ is Running,
            r matches Ok(line) ==> line@ == framed(command@),
            r is Err ==> r == Result::<String, SupervisorError>::Err(SupervisorError::NotRunning),
    {
        self.server.send_command(command)
    }

    /// Subscribe a new client; see `Hub::register_client`.
    pub fn register_client(&mut self) -> (r: (u64, UnboundedReceiver<String>))
        requires
            old(self).hub.wf(),
            old(self).hub.next_client_id() < u64::MAX,
        ensures
            final(self).hub.wf(),
            r.0 == old(self).hub.next_client_id(),
            !old(self).hub.contains_id(r.0),
            final(self).hub.next_client_id() == r.0 + 1,
            final(self).hub.ids() == old(self).hub.ids().push(r.0),
            final(self).hub.log_of(r.0) == Seq::<Seq<char>>::empty(),
            forall|id: u64|
                id != r.0 ==> (#[trigger] final(self).hub.contains_id(id) <==> old(
                    self,
                ).hub.contains_id(id)),
            forall|id: u64|
                old(self).hub.contains_id(id) ==> #[trigger] final(self).hub.log_of(id) == old(
                    self,
                ).hub.log_of(id),
            final(self).server == old(self).server,
    {
        self.hub.register_client()
    }

    /// Drop a client's subscription; see `Hub::unregister_client`.
    pub fn unregister_client(&mut self, id: u64)
        requires
            old(self).hub.wf(),
        ensures
            final(self).hub.wf(),
            final(self).hub.next_client_id() == old(self).hub.next_client_id(),
            !final(self).hub.contains_id(id),
            final(self).hub.ids() == old(self).hub.ids().remove_value(id),
            forall|other: u64|
                other != id ==> (#[trigger] final(self).hub.contains_id(other) <==> old(
                    self,
                ).hub.contains_id(other)),
            forall|other: u64|
                other != id && old(self).hub.contains_id(other) ==> #[trigger] final(self).hub.log_of(other) == old(self).hub.log_of(other),
            final(self).server == old(self).server,
    {
        self.hub.unregister_client(id)
    }

    /// Fan one line out to every subscriber; see `Hub::broadcast_log`.
    pub fn broadcast_log(&mut self, message: &String)
        requires
            old(self).hub.wf(),
        ensures
            final(self).hub.wf(),
            final(self).hub.next_client_id() == old(self).hub.next_client_id(),
            forall|id: u64| #[trigger]
                final(self).hub.contains_id(id) ==> old(self).hub.contains_id(id),
            forall|id: u64| #[trigger]
                final(self).hub.contains_id(id) ==> final(self).hub.log_of(id) == old(
                    self,
                ).hub.log_of(id).push(message@),
            crate::hub::is_subsequence(final(self).hub.ids(), old(self).hub.ids()),
            final(self).server == old(self).server,
    {
        self.hub.broadcast_log(message)
    }
}

} // verus!
