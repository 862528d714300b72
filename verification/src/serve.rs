//! Serving connections: admitting a peer, the handshake with the compositor,
//! and the loop that moves messages.
use crate::clock::is_within;
use crate::error::SeatError;
use crate::proxy::{Argument, Conn, ConnView, Message, MessageView, UpstreamObject};
use crate::seat_app::{Action, SeatApp};
use crate::session::{validate_peer, PeerCredentials};
use crate::text::join3;
use std::time::Duration;
use vstd::prelude::*;

verus! {

broadcast use vstd::std_specs::hash::group_hash_axioms;

// ---------------------------------------------------------------------------
// Admission
// ---------------------------------------------------------------------------

/// What waiting for a connection came to.
#[derive(Clone, Copy, Debug, PartialEq, Eq, Structural)]
pub enum AcceptOutcome {
    Accepted,
    /// There was none.
    WouldBlock,
    Failed,
}

/// How long to wait before the next attempt, where there was no connection.
pub fn accept_pause(outcome: AcceptOutcome) -> (millis: Option<u64>)
    ensures
        millis == match outcome {
            AcceptOutcome::Accepted => None::<u64>,
            AcceptOutcome::WouldBlock => Some(20),
            AcceptOutcome::Failed => Some(100),
        },
{
    match outcome {
        AcceptOutcome::Accepted => None,
        AcceptOutcome::WouldBlock => Some(20),
        AcceptOutcome::Failed => Some(100),
    }
}

/// The process at the other end of a connection, where it belongs to the
/// seat's own user.
pub fn trusted_peer_pid(
    credentials: Result<PeerCredentials, SeatError>,
    owner_uid: u32,
) -> (pid: Result<u32, SeatError>)
    ensures
        match (credentials, pid) {
            (Ok(credentials), Ok(pid)) => credentials.uid == owner_uid && pid == credentials.pid,
            (Ok(credentials), Err(SeatError::PeerCredential(message))) => credentials.uid
                != owner_uid && message@ == "peer uid "@ + crate::text::decimal(
                credentials.uid as nat,
            ) + " does not match agent-seat owner uid "@ + crate::text::decimal(owner_uid as nat),
            (Ok(_), Err(_)) => false,
            (Err(error), _) => pid == Err::<u32, SeatError>(error),
        },
{
    match credentials {
        Ok(credentials) => validate_peer(credentials, owner_uid),
        Err(error) => Err(error),
    }
}

// ---------------------------------------------------------------------------
// Handshake
// ---------------------------------------------------------------------------

/// What reading from the compositor came to.
#[derive(Clone, Copy, Debug, PartialEq, Eq, Structural)]
pub enum ReadOutcome {
    /// Something was read, or somebody else is reading.
    Fine,
    /// There was nothing to read.
    WouldBlock,
    /// The connection is lost.
    Lost,
}

/// What the handshake does next.
pub enum HandshakeStep {
    /// The globals are there: accept the application.
    Accept,
    /// Read from the compositor, wait this many milliseconds, and ask again.
    Read { millis: u64 },
    /// The compositor advertised nothing in time.
    Fail(String),
}

/// How long the compositor gets to advertise its globals, in seconds.
pub const HANDSHAKE_SECS: u64 = 3;

/// Give up a handshake whose connection is lost.
pub fn handshake_read(outcome: ReadOutcome) -> (goes_on: Result<(), String>)
    ensures
        match goes_on {
            Ok(()) => outcome != ReadOutcome::Lost,
            Err(message) => outcome == ReadOutcome::Lost && message@
                == "lost the compositor connection during the registry handshake"@,
        },
{
    match outcome {
        ReadOutcome::Lost => Err(
            "lost the compositor connection during the registry handshake".to_owned(),
        ),
        _ => Ok(()),
    }
}

/// A step of setting a connection up that may fail.
#[derive(Clone, Copy, Debug, PartialEq, Eq, Structural)]
pub enum ConnectStep {
    AppSocket,
    UpstreamSocket,
    Upstream,
    Server,
    GetRegistry,
    FlushGetRegistry,
    InsertClient,
    DisplayId,
}

impl ConnectStep {
    /// How errors call a step.
    pub open spec fn name(self) -> Seq<char> {
        match self {
            ConnectStep::AppSocket => "app socket"@,
            ConnectStep::UpstreamSocket => "upstream socket"@,
            ConnectStep::Upstream => "upstream"@,
            ConnectStep::Server => "server"@,
            ConnectStep::GetRegistry => "get_registry"@,
            ConnectStep::FlushGetRegistry => "flush get_registry"@,
            ConnectStep::InsertClient => "insert_client"@,
            ConnectStep::DisplayId => "display id"@,
        }
    }

    /// The error of a step that failed.
    pub fn error(self, reason: &str) -> (message: String)
        ensures
            message@ == self.name() + ": "@ + reason@,
    {
        let name: &str = match self {
            ConnectStep::AppSocket => "app socket",
            ConnectStep::UpstreamSocket => "upstream socket",
            ConnectStep::Upstream => "upstream",
            ConnectStep::Server => "server",
            ConnectStep::GetRegistry => "get_registry",
            ConnectStep::FlushGetRegistry => "flush get_registry",
            ConnectStep::InsertClient => "insert_client",
            ConnectStep::DisplayId => "display id",
        };
        join3(name, ": ", reason)
    }
}

/// `wl_display.get_registry`, sent upstream.
pub fn registry_request<F>(upstream_display: u64) -> (message: Message<F>)
    ensures
        message@ == (MessageView {
            sender: upstream_display,
            opcode: 1,
            args: seq![Argument::<F>::NewId(0)],
        }),
{
    let args: Vec<Argument<F>> = vec![Argument::NewId(0)];
    assert(args@ =~= seq![Argument::<F>::NewId(0)]);
    Message { sender: upstream_display, opcode: 1, args }
}

impl<F> Conn<F> {
    /// Note the upstream registry.
    pub fn registry_created(&mut self, registry: u64)
        ensures
            final(self)@ == (ConnView { upstream_registry: Some(registry), ..old(self)@ }),
    {
        self.upstream_registry = Some(registry);
    }

    /// What to do so long after the registry was asked for. The application
    /// is accepted only once globals are there: its first round trip must see
    /// them.
    pub fn handshake(&self, elapsed: &Duration) -> (step: HandshakeStep)
        ensures
            match step {
                HandshakeStep::Accept => self@.globals.dom() != Set::<u32>::empty(),
                HandshakeStep::Read { millis } => self@.globals.dom() == Set::<u32>::empty()
                    && crate::clock::duration_nanos(*elapsed) <= HANDSHAKE_SECS * 1_000_000_000
                    && millis == 5,
                HandshakeStep::Fail(message) => self@.globals.dom() == Set::<u32>::empty()
                    && crate::clock::duration_nanos(*elapsed) > HANDSHAKE_SECS * 1_000_000_000
                    && message@ == "the compositor advertised no globals within 3s"@,
            },
    {
        let count: usize = self.globals.len();
        proof {
            assert(self.globals@.dom().finite());
            if count == 0 {
                assert(self.globals@.dom() =~= Set::empty());
            } else {
                assert(self.globals@.dom().len() > 0);
                assert(Set::<u32>::empty().len() == 0);
            }
        }
        if count != 0 {
            return HandshakeStep::Accept;
        }
        if is_within(&Duration::from_secs(HANDSHAKE_SECS), elapsed) {
            return HandshakeStep::Fail("the compositor advertised no globals within 3s".to_owned());
        }
        HandshakeStep::Read { millis: 5 }
    }

    /// Note the client of an application that was accepted.
    pub fn client_accepted(&mut self, client: u64)
        ensures
            final(self)@ == (ConnView { client: Some(client), ..old(self)@ }),
    {
        self.client = Some(client);
    }

    /// Pair the two displays: messages can be moved from now on.
    pub fn displays_known(&mut self, server: u64, upstream: UpstreamObject)
        ensures
            final(self)@ == old(self)@.linked(server, upstream),
    {
        self.link(server, upstream);
    }
}

// ---------------------------------------------------------------------------
// The loop
// ---------------------------------------------------------------------------

/// The keys under which the two sides are polled.
pub const SERVER_KEY: usize = 1;

pub const UPSTREAM_KEY: usize = 2;

/// What serving a connection asks for.
#[derive(Clone, Copy, Debug, PartialEq, Eq, Structural)]
pub enum LoopAction {
    /// Wait for either side, at most this many milliseconds.
    Poll { millis: u64 },
    /// Handle what the application sent.
    DispatchServer,
    /// Read what the compositor sent.
    ReadUpstream,
    /// Handle what the compositor sent.
    DispatchUpstream,
    /// Send what is queued for both sides.
    Flush,
    /// Stop serving.
    Exit,
    /// What was reported was not asked for.
    Ignore,
}

/// What came of an action.
pub enum LoopEvent {
    /// The keys of the sides that are ready, maybe among others.
    Polled { keys: Vec<usize> },
    PollFailed,
    ServerDispatched { ok: bool },
    UpstreamRead { outcome: ReadOutcome },
    UpstreamDispatched,
    Flushed,
}

/// How far a round is.
#[derive(Clone, Copy, Debug, PartialEq, Eq, Structural)]
pub enum LoopState {
    Polling,
    Serving { upstream: bool },
    Reading,
    Dispatching,
    Flushing,
    Over,
}

/// The loop of a connection.
#[derive(Debug)]
pub struct ProxyLoop {
    pub state: LoopState,
}

/// Another round, unless the seat stops or the connection is dead.
pub open spec fn round(stopping: bool, dead: bool) -> (LoopState, LoopAction) {
    if stopping || dead {
        (LoopState::Over, LoopAction::Exit)
    } else {
        (LoopState::Polling, LoopAction::Poll { millis: 200 })
    }
}

/// Read from the compositor where it is ready.
pub open spec fn upstream_turn(upstream: bool) -> (LoopState, LoopAction) {
    if upstream {
        (LoopState::Reading, LoopAction::ReadUpstream)
    } else {
        (LoopState::Flushing, LoopAction::Flush)
    }
}

/// What serving does next, and whether the connection is dead then. An error
/// of either side kills the connection, but the round is finished first.
pub open spec fn serves(state: LoopState, event: LoopEvent, stopping: bool, dead: bool) -> (
    LoopState,
    LoopAction,
    bool,
) {
    match (state, event) {
        (LoopState::Polling, LoopEvent::Polled { keys }) => {
            let upstream = keys@.contains(UPSTREAM_KEY);
            if keys@.contains(SERVER_KEY) {
                (LoopState::Serving { upstream }, LoopAction::DispatchServer, dead)
            } else {
                (upstream_turn(upstream).0, upstream_turn(upstream).1, dead)
            }
        },
        (LoopState::Polling, LoopEvent::PollFailed) => (LoopState::Over, LoopAction::Exit, dead),
        (LoopState::Serving { upstream }, LoopEvent::ServerDispatched { ok }) => (
            upstream_turn(upstream).0,
            upstream_turn(upstream).1,
            dead || !ok,
        ),
        (LoopState::Reading, LoopEvent::UpstreamRead { outcome }) => (
            LoopState::Dispatching,
            LoopAction::DispatchUpstream,
            dead || outcome == ReadOutcome::Lost,
        ),
        (LoopState::Dispatching, LoopEvent::UpstreamDispatched) => (
            LoopState::Flushing,
            LoopAction::Flush,
            dead,
        ),
        (LoopState::Flushing, LoopEvent::Flushed) => (
            round(stopping, dead).0,
            round(stopping, dead).1,
            dead,
        ),
        _ => (state, LoopAction::Ignore, dead),
    }
}

fn has_key(keys: &Vec<usize>, key: usize) -> (found: bool)
    ensures
        found == keys@.contains(key),
{
    let mut i: usize = 0;
    while i < keys.len()
        invariant
            i <= keys@.len(),
            forall|j: int| 0 <= j < i ==> keys@[j] != key,
        decreases keys@.len() - i,
    {
        if keys[i] == key {
            assert(keys@[i as int] == key);
            return true;
        }
        i = i + 1;
    }
    false
}

impl ProxyLoop {
    /// Begin to serve a connection.
    pub fn begin(stopping: bool, dead: bool) -> (begun: (Self, LoopAction))
        ensures
            (begun.0.state, begun.1) == round(stopping, dead),
    {
        if stopping || dead {
            (ProxyLoop { state: LoopState::Over }, LoopAction::Exit)
        } else {
            (ProxyLoop { state: LoopState::Polling }, LoopAction::Poll { millis: 200 })
        }
    }

    fn read_upstream(&mut self, upstream: bool) -> (action: LoopAction)
        ensures
            (final(self).state, action) == upstream_turn(upstream),
    {
        if upstream {
            self.state = LoopState::Reading;
            LoopAction::ReadUpstream
        } else {
            self.state = LoopState::Flushing;
            LoopAction::Flush
        }
    }

    /// Report what came of the last action and get the next one. Queued
    /// actions are forgotten before each flush.
    pub fn handle<F>(&mut self, app: &mut SeatApp<F>, stopping: bool, event: LoopEvent) -> (action:
        LoopAction)
        ensures
            (final(self).state, action, final(app).conn@.dead) == serves(
                old(self).state,
                event,
                stopping,
                old(app).conn@.dead,
            ),
            final(app).conn@ == (ConnView { dead: final(app).conn@.dead, ..old(app).conn@ }),
            final(app).pid == old(app).pid,
            final(app).cleanup_paths == old(app).cleanup_paths,
            final(app).actions@ == (if action == LoopAction::Flush {
                Seq::<Action>::empty()
            } else {
                old(app).actions@
            }),
    {
        let action: LoopAction = match (self.state, event) {
            (LoopState::Polling, LoopEvent::Polled { keys }) => {
                let upstream: bool = has_key(&keys, UPSTREAM_KEY);
                if has_key(&keys, SERVER_KEY) {
                    self.state = LoopState::Serving { upstream };
                    LoopAction::DispatchServer
                } else {
                    self.read_upstream(upstream)
                }
            },
            (LoopState::Polling, LoopEvent::PollFailed) => {
                self.state = LoopState::Over;
                LoopAction::Exit
            },
            (LoopState::Serving { upstream }, LoopEvent::ServerDispatched { ok }) => {
                if !ok {
                    app.conn.dead = true;
                }
                self.read_upstream(upstream)
            },
            (LoopState::Reading, LoopEvent::UpstreamRead { outcome }) => {
                if outcome == ReadOutcome::Lost {
                    app.conn.dead = true;
                }
                self.state = LoopState::Dispatching;
                LoopAction::DispatchUpstream
            },
            (LoopState::Dispatching, LoopEvent::UpstreamDispatched) => {
                self.state = LoopState::Flushing;
                LoopAction::Flush
            },
            (LoopState::Flushing, LoopEvent::Flushed) => {
                if stopping || app.conn.dead {
                    self.state = LoopState::Over;
                    LoopAction::Exit
                } else {
                    self.state = LoopState::Polling;
                    LoopAction::Poll { millis: 200 }
                }
            },
            _ => LoopAction::Ignore,
        };
        if action == LoopAction::Flush {
            app.drain_actions();
        }
        action
    }
}

// ---------------------------------------------------------------------------
// Laws
// ---------------------------------------------------------------------------

/// A dead connection stays dead, and no further round begins on it.
pub proof fn law_dead_connections_end(
    state: LoopState,
    event: LoopEvent,
    stopping: bool,
    dead: bool,
)
    ensures
        dead ==> serves(state, event, stopping, dead).2,
        serves(state, event, stopping, dead).1 is Poll ==> !dead && !stopping,
{
}

} // verus!
