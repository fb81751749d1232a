//! The per-connection client session: a state machine bridging one
//! streaming transport and the hub/supervisor pair.
//!
//! The session decides, for every transport event and every heartbeat
//! tick, how its state changes and what the transport must do next;
//! the connection itself (frames, timers, the forwarding task) lives
//! with the runtime that drives these methods.

use crate::state::AppState;
use tokio::sync::mpsc::UnboundedReceiver;
use vstd::prelude::*;

verus! {

/// Time-units between liveness probes sent to the transport.
pub const HEARTBEAT_INTERVAL: u64 = 5;

/// Time-units of silence after which a session gives its client up.
pub const CLIENT_TIMEOUT: u64 = 10;

/// Phases of a session: `Connecting -> Active -> Closing`.
#[derive(Clone, Copy, Debug, PartialEq, Eq, Structural)]
pub enum SessionState {
    Connecting,
    Active,
    Closing,
}

/// One frame received from the transport, as the session judges it.
pub enum WsMessage {
    /// A liveness probe from the client, with its payload.
    Ping(Vec<u8>),
    /// The client's answer to one of our probes.
    Pong,
    /// A console command for the supervised process.
    Text(String),
    /// Opaque binary data.
    Binary(Vec<u8>),
    /// The client asked to close the connection.
    Close,
    /// A frame the transport could not make sense of.
    Malformed,
}

/// What the transport must do after the session handled a frame.
pub enum SessionAction {
    /// Answer the client's probe with its own payload.
    ReplyPong(Vec<u8>),
    /// Acknowledge the command synchronously with `ack`, then forward
    /// `command` to the supervisor; a refused command is logged, never
    /// a reason to tear the connection down.
    AckAndForward { ack: String, command: String },
    /// Echo the binary frame back.
    EchoBinary(Vec<u8>),
    /// Close the connection and stop the session.
    CloseConnection,
    /// Nothing.
    Ignore,
}

/// What the heartbeat timer must do on a tick.
#[derive(Clone, Copy, Debug, PartialEq, Eq, Structural)]
pub enum HeartbeatAction {
    /// Send a liveness probe to the transport.
    Probe,
    /// The client went silent too long: stop the session.
    Terminate,
}

/// The client has been silent for more than the allowed timeout.
pub open spec fn timed_out(last_seen: u64, now: u64) -> bool {
    now >= last_seen && now - last_seen > CLIENT_TIMEOUT
}

/// What a heartbeat tick at `now` decides.
pub open spec fn hb_decision(last_seen: u64, now: u64) -> HeartbeatAction {
    if timed_out(last_seen, now) {
        HeartbeatAction::Terminate
    } else {
        HeartbeatAction::Probe
    }
}

/// The synchronous acknowledgement sent for a received command.
pub open spec fn ack_prefix() -> Seq<char> {
    seq!['C', 'o', 'm', 'm', 'a', 'n', 'd', ' ', 'r', 'e', 'c', 'e', 'i', 'v', 'e', 'd', ':', ' ']
}

/// The character for one decimal digit.
pub open spec fn digit_char(d: nat) -> char {
    if d == 0 {
        '0'
    } else if d == 1 {
        '1'
    } else if d == 2 {
        '2'
    } else if d == 3 {
        '3'
    } else if d == 4 {
        '4'
    } else if d == 5 {
        '5'
    } else if d == 6 {
        '6'
    } else if d == 7 {
        '7'
    } else if d == 8 {
        '8'
    } else {
        '9'
    }
}

/// The decimal digits of `n`, most significant first, no leading zero
/// except for zero itself.
pub open spec fn dec_digits(n: nat) -> Seq<char>
    decreases n,
{
    if n < 10 {
        seq![digit_char(n)]
    } else {
        dec_digits(n / 10).push(digit_char(n % 10))
    }
}

/// The character of one decimal digit.
fn digit_str(d: u64) -> (s: &'static str)
    requires
        d < 10,
    ensures
        s@ == seq![digit_char(d as nat)],
{
    let s: &'static str = match d {
        0 => "0",
        1 => "1",
        2 => "2",
        3 => "3",
        4 => "4",
        5 => "5",
        6 => "6",
        7 => "7",
        8 => "8",
        _ => "9",
    };
    proof {
        reveal_strlit("0");
        reveal_strlit("1");
        reveal_strlit("2");
        reveal_strlit("3");
        reveal_strlit("4");
        reveal_strlit("5");
        reveal_strlit("6");
        reveal_strlit("7");
        reveal_strlit("8");
        reveal_strlit("9");
        assert(s@ =~= seq![digit_char(d as nat)]);
    }
    s
}

/// Render `n` in decimal.
pub fn fmt_u64(n: u64) -> (s: String)
    ensures
        s@ == dec_digits(n as nat),
    decreases n,
{
    if n < 10 {
        let s = digit_str(n).to_owned();
        s
    } else {
        let mut s = fmt_u64(n / 10);
        s.append(digit_str(n % 10));
        proof {
            assert(s@ =~= dec_digits(n as nat));
        }
        s
    }
}

/// The one-line welcome banner a fresh session sends its client: the
/// assigned client id and the connect timestamp, so separate
/// connections can be told apart.
pub fn welcome_banner(client_id: u64, timestamp: u64) -> (s: String)
    ensures
        s@ == "--- Connected to Minecraft console WebSocket (client ID: "@ + dec_digits(
            client_id as nat,
        ) + ", timestamp: "@ + dec_digits(timestamp as nat) + ") ---"@,
{
    let mut s = String::new();
    s.append("--- Connected to Minecraft console WebSocket (client ID: ");
    let id_text = fmt_u64(client_id);
    s.append(id_text.as_str());
    s.append(", timestamp: ");
    let ts_text = fmt_u64(timestamp);
    s.append(ts_text.as_str());
    s.append(") ---");
    proof {
        assert(s@ =~= "--- Connected to Minecraft console WebSocket (client ID: "@ + dec_digits(
            client_id as nat,
        ) + ", timestamp: "@ + dec_digits(timestamp as nat) + ") ---"@);
    }
    s
}

/// A session bound to one transport connection.
pub struct ConsoleWebSocket {
    state: SessionState,
    client_id: u64,
    last_heartbeat: u64,
}

impl ConsoleWebSocket {
    /// The session's phase.
    pub closed spec fn phase(&self) -> SessionState {
        self.state
    }

    /// The id the hub assigned at registration (0 before that).
    pub closed spec fn id(&self) -> u64 {
        self.client_id
    }

    /// When the client last showed it was alive, in time-units.
    pub closed spec fn last_seen(&self) -> u64 {
        self.last_heartbeat
    }

    /// A session for a connection opened at `now`, not yet registered.
    pub fn new(now: u64) -> (s: Self)
        ensures
            s.phase() is Connecting,
            s.id() == 0,
            s.last_seen() == now,
    {
        ConsoleWebSocket {
            state: SessionState::Connecting,
            client_id: 0,
            last_heartbeat: now,
        }
    }

    /// Enter `Active`: register with the hub, keep the assigned id, and
    /// hand the delivery channel's receiving end to the caller, who
    /// must drain it into the transport.
    pub fn started(&mut self, app: &mut AppState) -> (rx: UnboundedReceiver<String>)
        requires
            old(self).phase() is Connecting,
            old(app).hub.wf(),
            old(app).hub.next_client_id() < u64::MAX,
        ensures
            final(self).phase() is Active,
            final(self).id() == old(app).hub.next_client_id(),
            final(self).last_seen() == old(self).last_seen(),
            final(app).hub.wf(),
            final(app).hub.contains_id(final(self).id()),
            !old(app).hub.contains_id(final(self).id()),
            final(app).hub.ids() == old(app).hub.ids().push(final(self).id()),
            final(app).hub.log_of(final(self).id()) == Seq::<Seq<char>>::empty(),
            final(app).hub.next_client_id() == final(self).id() + 1,
            forall|id: u64|
                id != final(self).id() ==> (#[trigger] final(app).hub.contains_id(id) <==> old(
                    app,
                ).hub.contains_id(id)),
            forall|id: u64|
                old(app).hub.contains_id(id) ==> #[trigger] final(app).hub.log_of(id) == old(
                    app,
                ).hub.log_of(id),
            final(app).server == old(app).server,
    {
        let (id, rx) = app.register_client();
        self.client_id = id;
        self.state = SessionState::Active;
        proof {
            assert(app.hub.ids()[app.hub.ids().len() - 1] == id);
            assert(app.hub.contains_id(id));
        }
        rx
    }

    /// The id the hub assigned to this session.
    pub fn assigned_id(&self) -> (r: u64)
        ensures
            r == self.id(),
    {
        self.client_id
    }

    /// One heartbeat tick at `now`: probe the client, unless it has
    /// been silent past the timeout, in which case the session closes.
    pub fn hb(&mut self, now: u64) -> (act: HeartbeatAction)
        requires
            old(self).phase() is Active,
        ensures
            act == hb_decision(old(self).last_seen(), now),
            act is Terminate ==> final(self).phase() is Closing,
            act is Probe ==> *final(self) == *old(self),
            final(self).id() == old(self).id(),
            final(self).last_seen() == old(self).last_seen(),
    {
        if now >= self.last_heartbeat && now - self.last_heartbeat > CLIENT_TIMEOUT {
            self.state = SessionState::Closing;
            HeartbeatAction::Terminate
        } else {
            HeartbeatAction::Probe
        }
    }

    /// Handle one transport frame at `now`.  Probes and probe answers
    /// refresh the liveness timestamp; text becomes a synchronous
    /// acknowledgement plus a command to forward; a close request
    /// closes the session; anything else changes nothing.
    pub fn handle(&mut self, msg: WsMessage, now: u64) -> (act: SessionAction)
        requires
            old(self).phase() is Active,
        ensures
            final(self).id() == old(self).id(),
            msg matches WsMessage::Ping(p) ==> final(self).last_seen() == now && final(self).phase() is Active && act == (SessionAction::ReplyPong(p)),
            msg is Pong ==> final(self).last_seen() == now && final(self).phase() is Active && act
                is Ignore,
            msg matches WsMessage::Text(t) ==> *final(self) == *old(self) && (act matches
                SessionAction::AckAndForward { ack, command } && ack@ == ack_prefix() + t@
                && command == t),
            msg matches WsMessage::Binary(b) ==> *final(self) == *old(self) && act == (
            SessionAction::EchoBinary(b)),
            msg is Close ==> final(self).phase() is Closing && final(self).last_seen() == old(
                self,
            ).last_seen() && act is CloseConnection,
            msg is Malformed ==> *final(self) == *old(self) && act is Ignore,
    {
        match msg {
            WsMessage::Ping(p) => {
                self.last_heartbeat = now;
                SessionAction::ReplyPong(p)
            },
            WsMessage::Pong => {
                self.last_heartbeat = now;
                SessionAction::Ignore
            },
            WsMessage::Text(t) => {
                let mut ack = String::new();
                ack.append("Command received: ");
                ack.append(t.as_str());
                proof {
                    reveal_strlit("Command received: ");
                    assert(ack@ =~= ack_prefix() + t@);
                }
                SessionAction::AckAndForward { ack, command: t }
            },
            WsMessage::Binary(b) => SessionAction::EchoBinary(b),
            WsMessage::Close => {
                self.state = SessionState::Closing;
                SessionAction::CloseConnection
            },
            WsMessage::Malformed => SessionAction::Ignore,
        }
    }

    /// The session is going away, for whatever reason: leave the
    /// subscriber table, releasing the delivery channel's sending end.
    pub fn stopping(&mut self, app: &mut AppState)
        requires
            old(app).hub.wf(),
        ensures
            final(self).phase() is Closing,
            final(self).id() == old(self).id(),
            final(app).hub.wf(),
            !final(app).hub.contains_id(old(self).id()),
            final(app).hub.ids() == old(app).hub.ids().remove_value(old(self).id()),
            final(app).hub.next_client_id() == old(app).hub.next_client_id(),
            forall|other: u64|
                other != old(self).id() ==> (#[trigger] final(app).hub.contains_id(other) <==> old(
                    app,
                ).hub.contains_id(other)),
            forall|other: u64|
                other != old(self).id() && old(app).hub.contains_id(other) ==> #[trigger] final(app).hub.log_of(other) == old(app).hub.log_of(other),
            final(app).server == old(app).server,
    {
        self.state = SessionState::Closing;
        app.unregister_client(self.client_id);
    }
}

/// Law: a session whose client has answered no liveness probe for more
/// than `CLIENT_TIMEOUT` time-units decides, on its next heartbeat
/// tick, to terminate itself; and once it unregisters, the subscriber
/// table — which never holds duplicate ids — holds its id no more.
pub proof fn lemma_silent_session_pruned(last_seen: u64, now: u64, ids: Seq<u64>, id: u64)
    requires
        now >= last_seen,
        now - last_seen > CLIENT_TIMEOUT,
        ids.no_duplicates(),
    ensures
        hb_decision(last_seen, now) is Terminate,
        !ids.remove_value(id).contains(id),
{
    crate::hub::lemma_remove_value_absent(ids, id);
}

} // verus!
