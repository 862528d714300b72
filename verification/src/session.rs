//! Finding the Wayland session, and opening the private socket next to it.
use crate::error::SeatError;
use crate::paths::join_path;
use crate::text::{chars_of, decimal_text, decoded, join2, join4, parse_u32, split, strip_prefix};
use vstd::prelude::*;

verus! {

// ---------------------------------------------------------------------------
// The session
// ---------------------------------------------------------------------------

/// Where the session keeps its sockets, and that of the compositor.
#[derive(Debug)]
pub struct Session {
    pub runtime_dir: String,
    pub upstream_socket: String,
}

/// Whether a variable is set to something.
pub open spec fn is_set(value: Option<String>) -> bool {
    value matches Some(text) && text@.len() > 0
}

/// The socket that a display names: a path of its own, or a name in the
/// runtime directory.
pub open spec fn socket_of(runtime_dir: Seq<char>, display: Seq<char>) -> Seq<char> {
    if display[0] == '/' {
        display
    } else {
        crate::paths::below(runtime_dir, display, '/')
    }
}

impl Session {
    /// Find the session, given `XDG_RUNTIME_DIR` and `WAYLAND_DISPLAY`.
    pub fn discover(runtime_dir: Option<String>, display: Option<String>) -> (session: Result<
        Self,
        SeatError,
    >)
        ensures
            match session {
                Ok(session) => {
                    &&& is_set(runtime_dir) && is_set(display)
                    &&& session.runtime_dir@ == runtime_dir.unwrap()@
                    &&& session.upstream_socket@ == socket_of(
                        runtime_dir.unwrap()@,
                        display.unwrap()@,
                    )
                },
                Err(SeatError::MissingRuntimeDir) => !is_set(runtime_dir),
                Err(SeatError::NoWaylandSession) => is_set(runtime_dir) && !is_set(display),
                Err(_) => false,
            },
            session is Ok <==> runtime_dir is Some && runtime_dir.unwrap()@.len() > 0 && display
                is Some && display.unwrap()@.len() > 0,
            session matches Ok(session) ==> session.upstream_socket@ == (if display.unwrap()@[0]
                == '/' {
                display.unwrap()@
            } else if runtime_dir.unwrap()@.last() == '/' {
                runtime_dir.unwrap()@ + display.unwrap()@
            } else {
                runtime_dir.unwrap()@ + seq!['/'] + display.unwrap()@
            }),
    {
        let runtime_dir: String = match runtime_dir {
            Some(text) => text,
            None => {
                return Err(SeatError::MissingRuntimeDir);
            },
        };
        if runtime_dir.as_str().is_empty() {
            return Err(SeatError::MissingRuntimeDir);
        }
        let display: String = match display {
            Some(text) => text,
            None => {
                return Err(SeatError::NoWaylandSession);
            },
        };
        if display.as_str().is_empty() {
            return Err(SeatError::NoWaylandSession);
        }
        let chars: Vec<char> = chars_of(display.as_str());
        let upstream_socket: String = if chars[0] == '/' {
            display
        } else {
            join_path(runtime_dir.as_str(), display.as_str())
        };
        Ok(Session { runtime_dir, upstream_socket })
    }
}

// ---------------------------------------------------------------------------
// Sockets left behind
// ---------------------------------------------------------------------------

/// The process that a seat socket's name tells as its owner.
pub open spec fn owner_of(name: Seq<char>) -> Option<u32> {
    if crate::text::has_prefix(name, "agent-seat-"@) {
        crate::text::parsed(
            crate::text::split_on(name.skip("agent-seat-"@.len() as int), '-')[0],
        )
    } else {
        None
    }
}

/// The process that a file's name tells as the owner of a seat socket.
pub fn socket_owner(name: &Vec<u8>) -> (owner: Option<u32>)
    ensures
        owner == (if vstd::utf8::valid_utf8(name@) {
            owner_of(vstd::utf8::decode_utf8(name@))
        } else {
            None
        }),
{
    match decoded(name) {
        Some(text) => match strip_prefix(text.as_str(), "agent-seat-") {
            Some(rest) => {
                let parts: Vec<String> = split(rest, '-');
                assert(parts@[0]@ == crate::text::texts(parts@)[0]);
                parse_u32(parts[0].as_str())
            },
            None => None,
        },
        None => None,
    }
}

/// Whether a file is a seat socket whose owner has exited. The sockets of
/// this process are left alone without a further look.
pub fn is_stale_socket<A: Fn(u32) -> bool>(name: &Vec<u8>, my_pid: u32, is_alive: A) -> (stale:
    bool)
    requires
        forall|pid: u32| call_requires(is_alive, (pid,)),
    ensures
        ({
            let owner = if vstd::utf8::valid_utf8(name@) {
                owner_of(vstd::utf8::decode_utf8(name@))
            } else {
                None
            };
            match owner {
                Some(pid) => if pid == my_pid {
                    !stale
                } else {
                    call_ensures(is_alive, (pid,), !stale)
                },
                None => !stale,
            }
        }),
{
    match socket_owner(name) {
        Some(pid) => {
            if pid == my_pid {
                false
            } else {
                !is_alive(pid)
            }
        },
        None => false,
    }
}

/// The parts of a text without separators, and those of such a text with more
/// behind a separator: the text itself comes first.
proof fn lemma_first_part(head: Seq<char>, separator: char, rest: Seq<char>)
    requires
        forall|i: int| 0 <= i < head.len() ==> #[trigger] head[i] != separator,
    ensures
        crate::text::split_on(head, separator) == seq![head],
        crate::text::split_on(head.push(separator) + rest, separator).len() > 1,
        crate::text::split_on(head.push(separator) + rest, separator)[0] == head,
    decreases head.len() + rest.len(),
{
    if rest.len() > 0 {
        lemma_first_part(head, separator, rest.drop_last());
        let all = head.push(separator) + rest;
        assert(all.drop_last() =~= head.push(separator) + rest.drop_last());
    } else {
        if head.len() > 0 {
            lemma_first_part(head.drop_last(), separator, rest);
            let before = crate::text::split_on(head.drop_last(), separator);
            assert(before.drop_last() =~= Seq::<Seq<char>>::empty());
            assert(head.drop_last().push(head.last()) =~= head);
            assert(crate::text::split_on(head, separator) =~= seq![head]);
        } else {
            assert(head =~= Seq::<char>::empty());
        }
        assert(head.push(separator) + rest =~= head.push(separator));
        assert(head.push(separator).drop_last() =~= head);
    }
}

/// A number in decimal is made of digits, and they denote that number.
proof fn lemma_decimal_denotes(n: nat)
    ensures
        crate::text::all_digits(crate::text::decimal(n)),
        crate::text::digits_value(crate::text::decimal(n)) == n,
    decreases n,
{
    let text = crate::text::decimal(n);
    if n < 10 {
        assert(text.drop_last() =~= Seq::<char>::empty());
        assert(crate::text::digits_value(text.drop_last()) == 0);
    } else {
        lemma_decimal_denotes(n / 10);
        assert(text.drop_last() =~= crate::text::decimal(n / 10));
    }
}

/// A seat's socket tells the process that opened it. So a sweep leaves the
/// sockets of live processes alone and removes those of processes that have
/// exited.
pub proof fn law_seat_sockets_tell_their_owner(pid: u32, id: u128)
    ensures
        owner_of(crate::identity::seat_name(pid, id)) == Some(pid),
{
    reveal_strlit("-");
    let name = crate::identity::seat_name(pid, id);
    let number = crate::text::decimal(pid as nat);
    let rest = name.skip("agent-seat-"@.len() as int);
    assert(name.take("agent-seat-"@.len() as int) =~= "agent-seat-"@);
    assert(rest =~= number.push('-') + crate::identity::id_digits(id));
    lemma_decimal_denotes(pid as nat);
    assert forall|i: int| 0 <= i < number.len() implies #[trigger] number[i] != '-' by {
        assert(crate::text::is_digit(number[i]));
    }
    lemma_first_part(number, '-', crate::identity::id_digits(id));
    assert(crate::text::is_digit(number[0]));
}

/// The owner that a name tells is the number between the prefix and the next
/// dash, whatever follows; what is no number tells none.
pub proof fn law_owner_stands_behind_the_prefix(owner: Seq<char>, rest: Seq<char>)
    requires
        forall|i: int| 0 <= i < owner.len() ==> #[trigger] owner[i] != '-',
    ensures
        owner_of("agent-seat-"@ + owner) == crate::text::parsed(owner),
        owner_of("agent-seat-"@ + owner + seq!['-'] + rest) == crate::text::parsed(owner),
{
    let prefix = "agent-seat-"@;
    let short = prefix + owner;
    let long = prefix + owner + seq!['-'] + rest;
    assert(short.take(prefix.len() as int) =~= prefix);
    assert(short.skip(prefix.len() as int) =~= owner);
    assert(long.take(prefix.len() as int) =~= prefix);
    assert(long.skip(prefix.len() as int) =~= owner.push('-') + rest);
    lemma_first_part(owner, '-', rest);
}

/// A bridge's directory is never taken for a socket that was left behind.
pub proof fn law_bridge_directories_are_not_swept(pid: u32, id: u128)
    ensures
        owner_of(crate::identity::bridge_name(pid, id)) is None,
{
    reveal_strlit("-");
    reveal_strlit("agent-seat-");
    reveal_strlit("agent-seat-xwayland-");
    let name = crate::identity::bridge_name(pid, id);
    let head = seq!['x', 'w', 'a', 'y', 'l', 'a', 'n', 'd'];
    let tail = crate::text::decimal(pid as nat) + "-"@ + crate::identity::id_groups(id);
    let rest = name.skip("agent-seat-"@.len() as int);
    assert(name.take("agent-seat-"@.len() as int) =~= "agent-seat-"@);
    assert(rest =~= head.push('-') + tail);
    lemma_first_part(head, '-', tail);
    assert(!crate::text::is_digit(head[0]));
}

/// What exists only while a process is alive.
pub fn process_path(pid: u32) -> (path: String)
    ensures
        path@ == "/proc/"@ + crate::text::decimal(pid as nat),
{
    let number: String = decimal_text(pid as u64);
    join2("/proc/", number.as_str())
}

// ---------------------------------------------------------------------------
// Opening the socket
// ---------------------------------------------------------------------------

/// Access rights of the seat socket: its owner may read and write.
pub const SOCKET_MODE: u32 = 0o600;

/// What opening a seat asks for.
pub enum SetupAction {
    /// See whether the compositor's socket is there.
    CheckUpstream,
    /// Remove the seat sockets in the runtime directory whose owner has exited.
    SweepStale,
    /// Remove the file at the seat's path, if there is one.
    ClearPath,
    /// Bind a socket there.
    Bind,
    /// Give the socket these access rights.
    Restrict { mode: u32 },
    /// Make the socket nonblocking.
    Unblock,
    /// Remove the socket.
    Discard,
    /// The seat is open.
    Ready,
    /// The seat could not be opened.
    Fail(SeatError),
    /// What was reported was not asked for.
    Ignore,
}

/// What came of an action.
pub enum SetupEvent {
    UpstreamSeen { exists: bool },
    Swept,
    Cleared,
    Bound,
    BindFailed { error: String },
    Restricted,
    RestrictFailed { error: String },
    Unblocked,
    UnblockFailed { error: String },
    Discarded,
}

/// How far opening a seat is.
#[derive(Clone, Copy, Debug, PartialEq, Eq, Structural)]
pub enum SetupState {
    Checking,
    Sweeping,
    Clearing,
    Binding,
    Restricting,
    Unblocking,
    Discarding,
    Over,
}

/// A seat that is being opened.
pub struct SeatSetup {
    pub session: Session,
    /// The name of the seat's socket.
    pub socket_name: String,
    pub state: SetupState,
    /// The error that is reported once the socket is removed.
    pub failure: Option<String>,
}

/// Whether an action reports that the socket could not be made.
pub open spec fn refuses(action: SetupAction, message: Seq<char>) -> bool {
    action matches SetupAction::Fail(SeatError::SocketCreate(text)) && text@ == message
}

/// Whether opening a seat goes on like this.
pub open spec fn setup_steps_to(
    state: SetupState,
    failure: Option<Seq<char>>,
    event: SetupEvent,
    next: SetupState,
    next_failure: Option<Seq<char>>,
    action: SetupAction,
) -> bool {
    match (state, event) {
        (SetupState::Checking, SetupEvent::UpstreamSeen { exists }) => next_failure == failure && if exists {
            next == SetupState::Sweeping && action is SweepStale
        } else {
            next == SetupState::Over && action == SetupAction::Fail(SeatError::NoWaylandSession)
        },
        (SetupState::Sweeping, SetupEvent::Swept) => next_failure == failure && next
            == SetupState::Clearing && action is ClearPath,
        (SetupState::Clearing, SetupEvent::Cleared) => next_failure == failure && next
            == SetupState::Binding && action is Bind,
        (SetupState::Binding, SetupEvent::Bound) => next_failure == failure && next
            == SetupState::Restricting && action == (SetupAction::Restrict { mode: SOCKET_MODE }),
        (SetupState::Binding, SetupEvent::BindFailed { error }) => next_failure == failure && next
            == SetupState::Over && refuses(
            action,
            "could not bind the agent seat socket: "@ + error@,
        ),
        (SetupState::Restricting, SetupEvent::Restricted) => next_failure == failure && next
            == SetupState::Unblocking && action is Unblock,
        (SetupState::Restricting, SetupEvent::RestrictFailed { error }) => next
            == SetupState::Discarding && action is Discard && next_failure == Some(
            "could not restrict the agent seat socket permissions: "@ + error@,
        ),
        (SetupState::Unblocking, SetupEvent::Unblocked) => next_failure == failure && next
            == SetupState::Over && action is Ready,
        (SetupState::Unblocking, SetupEvent::UnblockFailed { error }) => next
            == SetupState::Discarding && action is Discard && next_failure == Some(
            "could not make the seat socket nonblocking: "@ + error@,
        ),
        (SetupState::Discarding, SetupEvent::Discarded) => match failure {
            Some(message) => next == SetupState::Over && next_failure is None && refuses(
                action,
                message,
            ),
            None => next == state && next_failure is None && action is Ignore,
        },
        _ => next == state && next_failure == failure && action is Ignore,
    }
}

impl SeatSetup {
    /// Begin to open a seat.
    pub fn begin(session: Session, socket_name: String) -> (begun: (Self, SetupAction))
        ensures
            begun.0.session == session,
            begun.0.socket_name == socket_name,
            begun.0.state == SetupState::Checking,
            begun.0.failure is None,
            begun.1 is CheckUpstream,
    {
        let setup = SeatSetup { session, socket_name, state: SetupState::Checking, failure: None };
        (setup, SetupAction::CheckUpstream)
    }

    /// Where the seat's socket goes.
    pub fn socket_path(&self) -> (path: String)
        ensures
            path@ == crate::paths::below(self.session.runtime_dir@, self.socket_name@, '/'),
    {
        join_path(self.session.runtime_dir.as_str(), self.socket_name.as_str())
    }

    /// Report what came of the last action and get the next one.
    pub fn handle(&mut self, event: SetupEvent) -> (action: SetupAction)
        ensures
            setup_steps_to(
                old(self).state,
                crate::run::shown(old(self).failure),
                event,
                final(self).state,
                crate::run::shown(final(self).failure),
                action,
            ),
            final(self).session == old(self).session,
            final(self).socket_name == old(self).socket_name,
    {
        match (self.state, event) {
            (SetupState::Checking, SetupEvent::UpstreamSeen { exists }) => {
                if exists {
                    self.state = SetupState::Sweeping;
                    SetupAction::SweepStale
                } else {
                    self.state = SetupState::Over;
                    SetupAction::Fail(SeatError::NoWaylandSession)
                }
            },
            (SetupState::Sweeping, SetupEvent::Swept) => {
                self.state = SetupState::Clearing;
                SetupAction::ClearPath
            },
            (SetupState::Clearing, SetupEvent::Cleared) => {
                self.state = SetupState::Binding;
                SetupAction::Bind
            },
            (SetupState::Binding, SetupEvent::Bound) => {
                self.state = SetupState::Restricting;
                SetupAction::Restrict { mode: SOCKET_MODE }
            },
            (SetupState::Binding, SetupEvent::BindFailed { error }) => {
                self.state = SetupState::Over;
                SetupAction::Fail(
                    SeatError::SocketCreate(
                        join2("could not bind the agent seat socket: ", error.as_str()),
                    ),
                )
            },
            (SetupState::Restricting, SetupEvent::Restricted) => {
                self.state = SetupState::Unblocking;
                SetupAction::Unblock
            },
            (SetupState::Restricting, SetupEvent::RestrictFailed { error }) => {
                self.state = SetupState::Discarding;
                self.failure = Some(
                    join2("could not restrict the agent seat socket permissions: ", error.as_str()),
                );
                SetupAction::Discard
            },
            (SetupState::Unblocking, SetupEvent::Unblocked) => {
                self.state = SetupState::Over;
                SetupAction::Ready
            },
            (SetupState::Unblocking, SetupEvent::UnblockFailed { error }) => {
                self.state = SetupState::Discarding;
                self.failure = Some(
                    join2("could not make the seat socket nonblocking: ", error.as_str()),
                );
                SetupAction::Discard
            },
            (SetupState::Discarding, SetupEvent::Discarded) => match self.failure.take() {
                Some(message) => {
                    self.state = SetupState::Over;
                    SetupAction::Fail(SeatError::SocketCreate(message))
                },
                None => SetupAction::Ignore,
            },
            _ => SetupAction::Ignore,
        }
    }
}

/// How many sockets a state owns.
pub open spec fn sockets_owned(state: SetupState) -> int {
    if state == SetupState::Restricting || state == SetupState::Unblocking {
        1
    } else {
        0
    }
}

/// A socket that was bound is either removed again or handed out, and it is
/// handed out only after its access was restricted to its owner.
pub proof fn law_bound_sockets_are_accounted_for(
    state: SetupState,
    failure: Option<Seq<char>>,
    event: SetupEvent,
    next: SetupState,
    next_failure: Option<Seq<char>>,
    action: SetupAction,
)
    requires
        setup_steps_to(state, failure, event, next, next_failure, action),
    ensures
        sockets_owned(state) + (if state == SetupState::Binding && event is Bound {
            1int
        } else {
            0
        }) == sockets_owned(next) + (if action is Discard || action is Ready {
            1int
        } else {
            0
        }),
        action is Ready ==> state == SetupState::Unblocking,
        next == SetupState::Unblocking && state != next ==> state == SetupState::Restricting
            && event is Restricted,
        next == SetupState::Restricting && state != next ==> action == (SetupAction::Restrict {
            mode: SOCKET_MODE,
        }),
{
}

// ---------------------------------------------------------------------------
// Peers
// ---------------------------------------------------------------------------

/// Who is at the other end of a connection, as the kernel tells.
#[derive(Clone, Copy, Debug, PartialEq, Eq, Structural)]
pub struct PeerCredentials {
    pub pid: u32,
    pub uid: u32,
}

/// The credentials that the kernel gave: `failure` is what it said where it
/// gave none, `length` and `expected` are the sizes of its answer.
pub fn peer_credentials(
    failure: Option<String>,
    length: usize,
    expected: usize,
    pid: i32,
    uid: u32,
) -> (credentials: Result<PeerCredentials, SeatError>)
    ensures
        match credentials {
            Ok(credentials) => failure is None && length == expected && pid > 0 && credentials.pid
                == pid && credentials.uid == uid,
            Err(SeatError::PeerCredential(message)) => match failure {
                Some(reason) => message@ == "could not read SO_PEERCRED: "@ + reason@,
                None => (length != expected || pid <= 0) && message@
                    == "SO_PEERCRED returned invalid credentials"@,
            },
            Err(_) => false,
        },
{
    match failure {
        Some(reason) => Err(
            SeatError::PeerCredential(join2("could not read SO_PEERCRED: ", reason.as_str())),
        ),
        None => {
            if length != expected || pid <= 0 {
                Err(
                    SeatError::PeerCredential(
                        "SO_PEERCRED returned invalid credentials".to_owned(),
                    ),
                )
            } else {
                Ok(PeerCredentials { pid: pid as u32, uid })
            }
        },
    }
}

/// Accept a peer of the seat's own user and of nobody else.
pub fn validate_peer(credentials: PeerCredentials, expected_uid: u32) -> (accepted: Result<
    u32,
    SeatError,
>)
    ensures
        match accepted {
            Ok(pid) => credentials.uid == expected_uid && pid == credentials.pid,
            Err(SeatError::PeerCredential(message)) => credentials.uid != expected_uid && message@
                == "peer uid "@ + crate::text::decimal(credentials.uid as nat)
                + " does not match agent-seat owner uid "@ + crate::text::decimal(
                expected_uid as nat,
            ),
            Err(_) => false,
        },
{
    if credentials.uid != expected_uid {
        let uid: String = decimal_text(credentials.uid as u64);
        let expected: String = decimal_text(expected_uid as u64);
        return Err(
            SeatError::PeerCredential(
                join4(
                    "peer uid ",
                    uid.as_str(),
                    " does not match agent-seat owner uid ",
                    expected.as_str(),
                ),
            ),
        );
    }
    Ok(credentials.pid)
}

} // verus!
