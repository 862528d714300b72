//! The XWayland bridge: starting one, connecting to it and getting rid of it.
//!
//! A bridge is an X server with one root window that is itself a client of
//! the seat. Only who knows its secret can connect to it, and its pixels are
//! readable like those of any other client.
use crate::bytes::bytes_of;
use crate::clock::is_within;
use crate::command::{CommandPlan, CommandPlanView};
use crate::error::SeatError;
use crate::harness::configure_display;
use crate::identity::{fresh_bridge_name, fresh_cookie};
use crate::paths::join_path;
use crate::process::display_socket;
use crate::text::{decimal_text, join2, join3};
use std::time::Duration;
use vstd::prelude::*;

verus! {

/// Access rights of a bridge's directory.
pub const DIRECTORY_MODE: u32 = 0o700;

/// Access rights of a bridge's secret.
pub const AUTHORITY_MODE: u32 = 0o600;

/// How long to wait between two looks at a starting bridge.
pub const BRIDGE_PAUSE_MS: u64 = 50;

/// How long a bridge gets to start, in seconds.
pub const BRIDGE_START_SECS: u64 = 5;

// ---------------------------------------------------------------------------
// Failures
// ---------------------------------------------------------------------------

/// What kind of failure keeps a bridge from starting.
#[derive(Clone, Copy, Debug, PartialEq, Eq, Structural)]
pub enum BridgeFailure {
    Xwayland,
    Xauth,
}

/// Whether an error is of this kind and says this.
pub open spec fn is_failure(error: SeatError, kind: BridgeFailure, message: Seq<char>) -> bool {
    match kind {
        BridgeFailure::Xwayland => error matches SeatError::Xwayland(text) && text@ == message,
        BridgeFailure::Xauth => error matches SeatError::Xauth(text) && text@ == message,
    }
}

fn failure_of(kind: BridgeFailure, message: String) -> (error: SeatError)
    ensures
        is_failure(error, kind, message@),
{
    match kind {
        BridgeFailure::Xwayland => SeatError::Xwayland(message),
        BridgeFailure::Xauth => SeatError::Xauth(message),
    }
}

// ---------------------------------------------------------------------------
// Starting a bridge
// ---------------------------------------------------------------------------

/// What starting a bridge asks for.
pub enum BridgeAction {
    /// Find the `Xwayland` executable.
    FindXwayland,
    /// Pick a free X display.
    PickDisplay,
    /// Create the bridge's directory.
    CreateDirectory,
    /// Give the directory these access rights.
    RestrictDirectory { mode: u32 },
    /// Run this process to write the secret down, and wait for it.
    Authorize(CommandPlan),
    /// Give the secret these access rights.
    RestrictAuthority { mode: u32 },
    /// Start this process.
    Spawn(CommandPlan),
    /// Say how long ago the process was started.
    Clock,
    /// See whether the display's socket is there.
    CheckSocket,
    /// See whether the process has exited, reaping it in that case.
    CheckExit,
    /// Wait.
    Pause { millis: u64 },
    /// Kill and reap the process.
    StopChild,
    /// Remove the directory with all that is in it.
    RemoveDirectory,
    /// The bridge is ready.
    Ready,
    /// The bridge could not be started.
    Fail(SeatError),
    /// What was reported was not asked for.
    Ignore,
}

/// What an action says.
pub enum BridgeActionView {
    FindXwayland,
    PickDisplay,
    CreateDirectory,
    RestrictDirectory { mode: u32 },
    Authorize(CommandPlanView),
    RestrictAuthority { mode: u32 },
    Spawn(CommandPlanView),
    Clock,
    CheckSocket,
    CheckExit,
    Pause { millis: u64 },
    StopChild,
    RemoveDirectory,
    Ready,
    Fail { kind: BridgeFailure, message: Seq<char> },
    Ignore,
}

impl BridgeAction {
    /// Whether this action says so.
    pub open spec fn says(self, view: BridgeActionView) -> bool {
        match self {
            BridgeAction::FindXwayland => view is FindXwayland,
            BridgeAction::PickDisplay => view is PickDisplay,
            BridgeAction::CreateDirectory => view is CreateDirectory,
            BridgeAction::RestrictDirectory { mode } => view
                == (BridgeActionView::RestrictDirectory { mode }),
            BridgeAction::Authorize(plan) => view == BridgeActionView::Authorize(plan@),
            BridgeAction::RestrictAuthority { mode } => view
                == (BridgeActionView::RestrictAuthority { mode }),
            BridgeAction::Spawn(plan) => view == BridgeActionView::Spawn(plan@),
            BridgeAction::Clock => view is Clock,
            BridgeAction::CheckSocket => view is CheckSocket,
            BridgeAction::CheckExit => view is CheckExit,
            BridgeAction::Pause { millis } => view == (BridgeActionView::Pause { millis }),
            BridgeAction::StopChild => view is StopChild,
            BridgeAction::RemoveDirectory => view is RemoveDirectory,
            BridgeAction::Ready => view is Ready,
            BridgeAction::Fail(error) => view matches BridgeActionView::Fail { kind, message }
                && is_failure(error, kind, message),
            BridgeAction::Ignore => view is Ignore,
        }
    }
}

/// What came of an action.
pub enum BridgeEvent {
    XwaylandFound { path: Option<Vec<u8>> },
    DisplayPicked { display: Option<u32> },
    Created,
    CreateFailed { error: String },
    Restricted,
    RestrictFailed { error: String },
    Authorized { success: bool },
    AuthorizeFailed { error: String },
    Spawned,
    SpawnFailed { error: String },
    Elapsed { span: Duration },
    SocketSeen { exists: bool },
    ExitSeen { exited: bool },
    Paused,
    Stopped,
    Removed,
}

/// How far starting a bridge is.
#[derive(Clone, Copy, Debug, PartialEq, Eq, Structural)]
pub enum BridgeState {
    Finding,
    Picking,
    Creating,
    Restricting,
    Authorizing,
    Guarding,
    Spawning,
    Timing,
    Looking,
    Checking,
    Pausing,
    Stopping,
    Removing,
    Over,
}

/// What a bridge is made of: its size, the seat's socket, the directory that
/// its own directory goes below, the name of that, its secret, and whether
/// its diagnostics are shown.
#[derive(Debug)]
pub struct BridgeOrder {
    pub width: u16,
    pub height: u16,
    pub socket_name: String,
    pub runtime_dir: String,
    pub name: String,
    pub cookie: String,
    pub diagnostics: bool,
}

impl BridgeOrder {
    /// The bridge's directory.
    pub open spec fn directory(self) -> Seq<char> {
        crate::paths::below(self.runtime_dir@, self.name@, '/')
    }

    /// The file with the bridge's secret.
    pub open spec fn authority(self) -> Seq<char> {
        crate::paths::below(self.directory(), "Xauthority"@, '/')
    }

    /// The process that writes the secret down.
    pub open spec fn authorization(self, display: u32) -> CommandPlanView {
        CommandPlanView {
            program: crate::bytes::encoded("xauth"@),
            arguments: seq![
                crate::bytes::encoded("-f"@),
                crate::bytes::encoded(self.authority()),
                crate::bytes::encoded("add"@),
                crate::bytes::encoded(display_name(display)),
                crate::bytes::encoded("MIT-MAGIC-COOKIE-1"@),
                crate::bytes::encoded(self.cookie@),
            ],
            current_dir: None,
            inherit_stdout: false,
            inherit_stderr: false,
            environment: Seq::empty(),
        }
    }

    /// The bridge's process: a client of the seat that asks for the secret,
    /// takes no connections over the network and shares its pixels.
    pub open spec fn server(self, program: Seq<u8>, display: u32) -> CommandPlanView {
        CommandPlanView {
            program,
            arguments: seq![
                crate::bytes::encoded(display_name(display)),
                crate::bytes::encoded("-auth"@),
                crate::bytes::encoded(self.authority()),
                crate::bytes::encoded("-nolisten"@),
                crate::bytes::encoded("tcp"@),
                crate::bytes::encoded("-terminate"@),
                crate::bytes::encoded("10"@),
                crate::bytes::encoded("-shm"@),
                crate::bytes::encoded("-geometry"@),
                crate::bytes::encoded(
                    crate::text::decimal(self.width as nat) + "x"@ + crate::text::decimal(
                        self.height as nat,
                    ),
                ),
            ],
            current_dir: None,
            inherit_stdout: false,
            inherit_stderr: self.diagnostics,
            environment: Seq::empty(),
        }.on_seat(self.socket_name@).env_remove("DISPLAY"@)
    }
}

/// How a display is called.
pub open spec fn display_name(display: u32) -> Seq<char> {
    ":"@ + crate::text::decimal(display as nat)
}

/// How a display is called.
pub fn display_text(display: u32) -> (name: String)
    ensures
        name@ == display_name(display),
{
    let number: String = decimal_text(display as u64);
    join2(":", number.as_str())
}

/// Whether a bridge of this size can be started.
pub open spec fn is_bridge_size(width: u16, height: u16) -> bool {
    width >= 160 && height >= 120
}

/// A bridge that is being started.
pub struct BridgeStart {
    order: BridgeOrder,
    program: Vec<u8>,
    display: u32,
    state: BridgeState,
    failure: Option<(BridgeFailure, String)>,
}

/// What a starting bridge amounts to. The failure is reported once everything
/// is removed.
pub struct BridgeRun {
    pub order: BridgeOrder,
    pub program: Seq<u8>,
    pub display: u32,
    pub state: BridgeState,
    pub failure: Option<(BridgeFailure, Seq<char>)>,
}

impl View for BridgeStart {
    type V = BridgeRun;

    closed spec fn view(&self) -> BridgeRun {
        BridgeRun {
            order: self.order,
            program: self.program@,
            display: self.display,
            state: self.state,
            failure: match self.failure {
                Some((kind, message)) => Some((kind, message@)),
                None => None,
            },
        }
    }
}

impl BridgeRun {
    /// In another state, asking for something.
    pub open spec fn asking(self, state: BridgeState, action: BridgeActionView) -> (
        Self,
        BridgeActionView,
    ) {
        (BridgeRun { state, ..self }, action)
    }

    /// Over, with an error.
    pub open spec fn failed(self, kind: BridgeFailure, message: Seq<char>) -> (
        Self,
        BridgeActionView,
    ) {
        self.asking(BridgeState::Over, BridgeActionView::Fail { kind, message })
    }

    /// Remove the directory first, and report an error then.
    pub open spec fn removing(self, kind: BridgeFailure, message: Seq<char>) -> (
        Self,
        BridgeActionView,
    ) {
        (
            BridgeRun {
                state: BridgeState::Removing,
                failure: Some((kind, message)),
                ..self
            },
            BridgeActionView::RemoveDirectory,
        )
    }

    /// Stop the process and remove the directory first, and report an error
    /// then.
    pub open spec fn stopping(self, kind: BridgeFailure, message: Seq<char>) -> (
        Self,
        BridgeActionView,
    ) {
        (
            BridgeRun {
                state: BridgeState::Stopping,
                failure: Some((kind, message)),
                ..self
            },
            BridgeActionView::StopChild,
        )
    }

    /// What starting a bridge does next.
    pub open spec fn next(self, event: BridgeEvent) -> (Self, BridgeActionView) {
        match (self.state, event) {
            (BridgeState::Finding, BridgeEvent::XwaylandFound { path: Some(path) }) => BridgeRun {
                program: path@,
                ..self
            }.asking(BridgeState::Picking, BridgeActionView::PickDisplay),
            (BridgeState::Finding, BridgeEvent::XwaylandFound { path: None }) => self.failed(
                BridgeFailure::Xwayland,
                "XWayland is not installed for compatibility fallback"@,
            ),
            (BridgeState::Picking, BridgeEvent::DisplayPicked { display: Some(display) }) =>
            BridgeRun { display, ..self }.asking(
                BridgeState::Creating,
                BridgeActionView::CreateDirectory,
            ),
            (BridgeState::Picking, BridgeEvent::DisplayPicked { display: None }) => self.failed(
                BridgeFailure::Xwayland,
                "no free X display number for the compatibility bridge"@,
            ),
            (BridgeState::Creating, BridgeEvent::Created) => self.asking(
                BridgeState::Restricting,
                BridgeActionView::RestrictDirectory { mode: DIRECTORY_MODE },
            ),
            (BridgeState::Creating, BridgeEvent::CreateFailed { error }) => self.failed(
                BridgeFailure::Xwayland,
                "could not create XWayland runtime directory: "@ + error@,
            ),
            (BridgeState::Restricting, BridgeEvent::Restricted) => self.asking(
                BridgeState::Authorizing,
                BridgeActionView::Authorize(self.order.authorization(self.display)),
            ),
            (BridgeState::Restricting, BridgeEvent::RestrictFailed { error }) => self.removing(
                BridgeFailure::Xwayland,
                "could not restrict XWayland runtime directory: "@ + error@,
            ),
            (BridgeState::Authorizing, BridgeEvent::Authorized { success }) => if success {
                self.asking(
                    BridgeState::Guarding,
                    BridgeActionView::RestrictAuthority { mode: AUTHORITY_MODE },
                )
            } else {
                self.removing(
                    BridgeFailure::Xauth,
                    "xauth could not create credentials for display "@ + display_name(self.display),
                )
            },
            (BridgeState::Authorizing, BridgeEvent::AuthorizeFailed { error }) => self.removing(
                BridgeFailure::Xauth,
                "could not create XWayland authority file: "@ + error@,
            ),
            (BridgeState::Guarding, BridgeEvent::Restricted) => self.asking(
                BridgeState::Spawning,
                BridgeActionView::Spawn(self.order.server(self.program, self.display)),
            ),
            (BridgeState::Guarding, BridgeEvent::RestrictFailed { error }) => self.removing(
                BridgeFailure::Xauth,
                "could not restrict XWayland authority file: "@ + error@,
            ),
            (BridgeState::Spawning, BridgeEvent::Spawned) => self.asking(
                BridgeState::Timing,
                BridgeActionView::Clock,
            ),
            (BridgeState::Spawning, BridgeEvent::SpawnFailed { error }) => self.removing(
                BridgeFailure::Xwayland,
                "could not start XWayland compatibility bridge: "@ + error@,
            ),
            (BridgeState::Timing, BridgeEvent::Elapsed { span }) =>
            if crate::clock::duration_nanos(span) < BRIDGE_START_SECS * 1_000_000_000 {
                self.asking(BridgeState::Looking, BridgeActionView::CheckSocket)
            } else {
                self.stopping(
                    BridgeFailure::Xwayland,
                    "XWayland compatibility bridge did not create its X socket"@,
                )
            },
            (BridgeState::Looking, BridgeEvent::SocketSeen { exists }) => if exists {
                self.asking(BridgeState::Over, BridgeActionView::Ready)
            } else {
                self.asking(BridgeState::Checking, BridgeActionView::CheckExit)
            },
            (BridgeState::Checking, BridgeEvent::ExitSeen { exited }) => if exited {
                self.removing(
                    BridgeFailure::Xwayland,
                    "XWayland compatibility bridge exited during startup"@,
                )
            } else {
                self.asking(
                    BridgeState::Pausing,
                    BridgeActionView::Pause { millis: BRIDGE_PAUSE_MS },
                )
            },
            (BridgeState::Pausing, BridgeEvent::Paused) => self.asking(
                BridgeState::Timing,
                BridgeActionView::Clock,
            ),
            (BridgeState::Stopping, BridgeEvent::Stopped) => self.asking(
                BridgeState::Removing,
                BridgeActionView::RemoveDirectory,
            ),
            (BridgeState::Removing, BridgeEvent::Removed) => match self.failure {
                Some((kind, message)) => BridgeRun { failure: None, ..self }.failed(kind, message),
                None => (self, BridgeActionView::Ignore),
            },
            _ => (self, BridgeActionView::Ignore),
        }
    }
}

/// Whether a step ends like this.
pub open spec fn ends_as(
    run: BridgeRun,
    action: BridgeAction,
    expected: (BridgeRun, BridgeActionView),
) -> bool {
    run == expected.0 && action.says(expected.1)
}

impl BridgeStart {
    /// Begin to start a bridge with a given name and secret. It is refused
    /// right away where it is too small.
    pub fn begin_with(order: BridgeOrder) -> (begun: (Self, BridgeAction))
        ensures
            begun.0@.order == order,
            begun.0@.failure is None,
            if is_bridge_size(order.width, order.height) {
                begun.0@.state == BridgeState::Finding && begun.1 is FindXwayland
            } else {
                begun.0@.state == BridgeState::Over && begun.1.says(
                    BridgeActionView::Fail {
                        kind: BridgeFailure::Xwayland,
                        message: "bridge geometry must be at least 160x120"@,
                    },
                )
            },
    {
        let small: bool = order.width < 160 || order.height < 120;
        let start = BridgeStart {
            order,
            program: Vec::new(),
            display: 0,
            state: if small {
                BridgeState::Over
            } else {
                BridgeState::Finding
            },
            failure: None,
        };
        if small {
            let error: SeatError = failure_of(
                BridgeFailure::Xwayland,
                "bridge geometry must be at least 160x120".to_owned(),
            );
            (start, BridgeAction::Fail(error))
        } else {
            (start, BridgeAction::FindXwayland)
        }
    }

    /// Begin to start a bridge with a fresh name and a fresh secret.
    pub fn begin(
        width: u16,
        height: u16,
        socket_name: String,
        runtime_dir: String,
        pid: u32,
        diagnostics: bool,
    ) -> (begun: (Self, BridgeAction))
        ensures
            begun.0@.order.width == width,
            begun.0@.order.height == height,
            begun.0@.order.socket_name == socket_name,
            begun.0@.order.runtime_dir == runtime_dir,
            begun.0@.order.diagnostics == diagnostics,
            begun.0@.failure is None,
            exists|id: u128| #[trigger]
                crate::identity::is_drawn(id) && begun.0@.order.name@
                    == crate::identity::bridge_name(pid, id),
            exists|first: u128, second: u128|
                #![trigger crate::identity::is_drawn(first), crate::identity::is_drawn(second)]
                crate::identity::is_drawn(first) && crate::identity::is_drawn(second)
                    && begun.0@.order.cookie@ == crate::identity::id_digits(first)
                    + crate::identity::id_digits(second),
            if is_bridge_size(width, height) {
                begun.0@.state == BridgeState::Finding && begun.1 is FindXwayland
            } else {
                begun.0@.state == BridgeState::Over && begun.1.says(
                    BridgeActionView::Fail {
                        kind: BridgeFailure::Xwayland,
                        message: "bridge geometry must be at least 160x120"@,
                    },
                )
            },
    {
        let name: String = fresh_bridge_name(pid);
        let cookie: String = fresh_cookie();
        BridgeStart::begin_with(
            BridgeOrder { width, height, socket_name, runtime_dir, name, cookie, diagnostics },
        )
    }

    /// The bridge's directory.
    pub fn directory(&self) -> (path: String)
        ensures
            path@ == self@.order.directory(),
    {
        join_path(self.order.runtime_dir.as_str(), self.order.name.as_str())
    }

    /// The file with the bridge's secret.
    pub fn authority(&self) -> (path: String)
        ensures
            path@ == self@.order.authority(),
    {
        let directory: String = self.directory();
        join_path(directory.as_str(), "Xauthority")
    }

    /// How the bridge's display is called.
    pub fn display(&self) -> (name: String)
        ensures
            name@ == display_name(self@.display),
    {
        display_text(self.display)
    }

    /// The socket of the bridge's display.
    pub fn socket(&self) -> (path: String)
        ensures
            path@ == "/tmp/.X11-unix/X"@ + crate::text::decimal(self@.display as nat),
    {
        display_socket(self.display)
    }

    fn authorization(&self) -> (plan: CommandPlan)
        ensures
            plan@ == self@.order.authorization(self@.display),
    {
        let authority: String = self.authority();
        let display: String = self.display();
        let arguments: Vec<Vec<u8>> = vec![
            bytes_of("-f"),
            bytes_of(authority.as_str()),
            bytes_of("add"),
            bytes_of(display.as_str()),
            bytes_of("MIT-MAGIC-COOKIE-1"),
            bytes_of(self.order.cookie.as_str()),
        ];
        let plan = CommandPlan {
            program: bytes_of("xauth"),
            arguments,
            current_dir: None,
            inherit_stdout: false,
            inherit_stderr: false,
            environment: Vec::new(),
        };
        assert(plan@ =~= self@.order.authorization(self@.display));
        plan
    }

    fn server(&self) -> (plan: CommandPlan)
        ensures
            plan@ == self@.order.server(self@.program, self@.display),
    {
        let authority: String = self.authority();
        let display: String = self.display();
        let width: String = decimal_text(self.order.width as u64);
        let height: String = decimal_text(self.order.height as u64);
        let geometry: String = join3(width.as_str(), "x", height.as_str());
        let arguments: Vec<Vec<u8>> = vec![
            bytes_of(display.as_str()),
            bytes_of("-auth"),
            bytes_of(authority.as_str()),
            bytes_of("-nolisten"),
            bytes_of("tcp"),
            bytes_of("-terminate"),
            bytes_of("10"),
            bytes_of("-shm"),
            bytes_of("-geometry"),
            bytes_of(geometry.as_str()),
        ];
        let program: Vec<u8> = crate::bytes::copy_bytes(&self.program);
        let mut plan = CommandPlan {
            program,
            arguments,
            current_dir: None,
            inherit_stdout: false,
            inherit_stderr: self.order.diagnostics,
            environment: Vec::new(),
        };
        let ghost bare = plan@;
        crate::harness::configure_seat(&mut plan, self.order.socket_name.as_str());
        plan.env_remove("DISPLAY");
        proof {
            let order = self@.order;
            assert(bare.arguments =~= order.server(self@.program, self@.display).arguments);
            assert(bare.environment =~= Seq::empty());
            assert(plan@ =~= order.server(self@.program, self@.display));
        }
        plan
    }

    fn ask(&mut self, state: BridgeState, action: BridgeAction) -> (asked: BridgeAction)
        ensures
            final(self)@ == (BridgeRun { state, ..old(self)@ }),
            asked == action,
    {
        self.state = state;
        action
    }

    fn fail(&mut self, kind: BridgeFailure, message: String) -> (asked: BridgeAction)
        ensures
            ends_as(final(self)@, asked, old(self)@.failed(kind, message@)),
    {
        self.ask(BridgeState::Over, BridgeAction::Fail(failure_of(kind, message)))
    }

    fn remove(&mut self, kind: BridgeFailure, message: String) -> (asked: BridgeAction)
        ensures
            ends_as(final(self)@, asked, old(self)@.removing(kind, message@)),
    {
        self.failure = Some((kind, message));
        self.ask(BridgeState::Removing, BridgeAction::RemoveDirectory)
    }

    fn stop(&mut self, kind: BridgeFailure, message: String) -> (asked: BridgeAction)
        ensures
            ends_as(final(self)@, asked, old(self)@.stopping(kind, message@)),
    {
        self.failure = Some((kind, message));
        self.ask(BridgeState::Stopping, BridgeAction::StopChild)
    }

    /// Up to the bridge's secret.
    fn prepare(&mut self, event: BridgeEvent) -> (action: BridgeAction)
        requires
            old(self)@.state == BridgeState::Finding || old(self)@.state == BridgeState::Picking
                || old(self)@.state == BridgeState::Creating || old(self)@.state
                == BridgeState::Restricting || old(self)@.state == BridgeState::Authorizing
                || old(self)@.state == BridgeState::Guarding,
        ensures
            ends_as(final(self)@, action, old(self)@.next(event)),
    {
        match (self.state, event) {
            (BridgeState::Finding, BridgeEvent::XwaylandFound { path }) => match path {
                Some(path) => {
                    self.program = path;
                    self.ask(BridgeState::Picking, BridgeAction::PickDisplay)
                },
                None => self.fail(
                    BridgeFailure::Xwayland,
                    "XWayland is not installed for compatibility fallback".to_owned(),
                ),
            },
            (BridgeState::Picking, BridgeEvent::DisplayPicked { display }) => match display {
                Some(display) => {
                    self.display = display;
                    self.ask(BridgeState::Creating, BridgeAction::CreateDirectory)
                },
                None => self.fail(
                    BridgeFailure::Xwayland,
                    "no free X display number for the compatibility bridge".to_owned(),
                ),
            },
            (BridgeState::Creating, BridgeEvent::Created) => self.ask(
                BridgeState::Restricting,
                BridgeAction::RestrictDirectory { mode: DIRECTORY_MODE },
            ),
            (BridgeState::Creating, BridgeEvent::CreateFailed { error }) => self.fail(
                BridgeFailure::Xwayland,
                join2("could not create XWayland runtime directory: ", error.as_str()),
            ),
            (BridgeState::Restricting, BridgeEvent::Restricted) => {
                let plan: CommandPlan = self.authorization();
                self.ask(BridgeState::Authorizing, BridgeAction::Authorize(plan))
            },
            (BridgeState::Restricting, BridgeEvent::RestrictFailed { error }) => self.remove(
                BridgeFailure::Xwayland,
                join2("could not restrict XWayland runtime directory: ", error.as_str()),
            ),
            (BridgeState::Authorizing, BridgeEvent::Authorized { success }) => {
                if success {
                    self.ask(
                        BridgeState::Guarding,
                        BridgeAction::RestrictAuthority { mode: AUTHORITY_MODE },
                    )
                } else {
                    let display: String = self.display();
                    self.remove(
                        BridgeFailure::Xauth,
                        join2(
                            "xauth could not create credentials for display ",
                            display.as_str(),
                        ),
                    )
                }
            },
            (BridgeState::Authorizing, BridgeEvent::AuthorizeFailed { error }) => self.remove(
                BridgeFailure::Xauth,
                join2("could not create XWayland authority file: ", error.as_str()),
            ),
            (BridgeState::Guarding, BridgeEvent::Restricted) => {
                let plan: CommandPlan = self.server();
                self.ask(BridgeState::Spawning, BridgeAction::Spawn(plan))
            },
            (BridgeState::Guarding, BridgeEvent::RestrictFailed { error }) => self.remove(
                BridgeFailure::Xauth,
                join2("could not restrict XWayland authority file: ", error.as_str()),
            ),
            _ => BridgeAction::Ignore,
        }
    }

    /// From the bridge's process on.
    fn watch(&mut self, event: BridgeEvent) -> (action: BridgeAction)
        requires
            old(self)@.state != BridgeState::Finding && old(self)@.state != BridgeState::Picking
                && old(self)@.state != BridgeState::Creating && old(self)@.state
                != BridgeState::Restricting && old(self)@.state != BridgeState::Authorizing
                && old(self)@.state != BridgeState::Guarding,
        ensures
            ends_as(final(self)@, action, old(self)@.next(event)),
    {
        match (self.state, event) {
            (BridgeState::Spawning, BridgeEvent::Spawned) => self.ask(
                BridgeState::Timing,
                BridgeAction::Clock,
            ),
            (BridgeState::Spawning, BridgeEvent::SpawnFailed { error }) => self.remove(
                BridgeFailure::Xwayland,
                join2("could not start XWayland compatibility bridge: ", error.as_str()),
            ),
            (BridgeState::Timing, BridgeEvent::Elapsed { span }) => {
                if is_within(&span, &Duration::from_secs(BRIDGE_START_SECS)) {
                    self.ask(BridgeState::Looking, BridgeAction::CheckSocket)
                } else {
                    self.stop(
                        BridgeFailure::Xwayland,
                        "XWayland compatibility bridge did not create its X socket".to_owned(),
                    )
                }
            },
            (BridgeState::Looking, BridgeEvent::SocketSeen { exists }) => {
                if exists {
                    self.ask(BridgeState::Over, BridgeAction::Ready)
                } else {
                    self.ask(BridgeState::Checking, BridgeAction::CheckExit)
                }
            },
            (BridgeState::Checking, BridgeEvent::ExitSeen { exited }) => {
                if exited {
                    self.remove(
                        BridgeFailure::Xwayland,
                        "XWayland compatibility bridge exited during startup".to_owned(),
                    )
                } else {
                    self.ask(
                        BridgeState::Pausing,
                        BridgeAction::Pause { millis: BRIDGE_PAUSE_MS },
                    )
                }
            },
            (BridgeState::Pausing, BridgeEvent::Paused) => self.ask(
                BridgeState::Timing,
                BridgeAction::Clock,
            ),
            (BridgeState::Stopping, BridgeEvent::Stopped) => self.ask(
                BridgeState::Removing,
                BridgeAction::RemoveDirectory,
            ),
            (BridgeState::Removing, BridgeEvent::Removed) => match self.failure.take() {
                Some((kind, message)) => self.fail(kind, message),
                None => BridgeAction::Ignore,
            },
            _ => BridgeAction::Ignore,
        }
    }

    /// Report what came of the last action and get the next one.
    pub fn handle(&mut self, event: BridgeEvent) -> (action: BridgeAction)
        ensures
            ends_as(final(self)@, action, old(self)@.next(event)),
    {
        match self.state {
            BridgeState::Finding => self.prepare(event),
            BridgeState::Picking => self.prepare(event),
            BridgeState::Creating => self.prepare(event),
            BridgeState::Restricting => self.prepare(event),
            BridgeState::Authorizing => self.prepare(event),
            BridgeState::Guarding => self.prepare(event),
            _ => self.watch(event),
        }
    }
}

// ---------------------------------------------------------------------------
// Laws
// ---------------------------------------------------------------------------

/// How many directories a state owns.
pub open spec fn directories_owned(state: BridgeState) -> int {
    match state {
        BridgeState::Finding => 0,
        BridgeState::Picking => 0,
        BridgeState::Creating => 0,
        BridgeState::Removing => 0,
        BridgeState::Over => 0,
        _ => 1,
    }
}

/// How many processes a state owns.
pub open spec fn servers_owned(state: BridgeState) -> int {
    match state {
        BridgeState::Timing => 1,
        BridgeState::Looking => 1,
        BridgeState::Checking => 1,
        BridgeState::Pausing => 1,
        _ => 0,
    }
}

/// A directory that was created is either removed again or handed out with
/// the bridge.
pub proof fn law_directories_are_accounted_for(run: BridgeRun, event: BridgeEvent)
    ensures
        ({
            let (next, action) = run.next(event);
            directories_owned(run.state) + (if run.state == BridgeState::Creating
                && event is Created {
                1int
            } else {
                0
            }) == directories_owned(next.state) + (if action is RemoveDirectory || action is Ready {
                1int
            } else {
                0
            })
        }),
{
}

/// A process that was started is either stopped, found to have exited, or
/// handed out with the bridge.
pub proof fn law_servers_are_accounted_for(run: BridgeRun, event: BridgeEvent)
    ensures
        ({
            let (next, action) = run.next(event);
            servers_owned(run.state) + (if run.state == BridgeState::Spawning && event is Spawned {
                1int
            } else {
                0
            }) == servers_owned(next.state) + (if action is StopChild || action is Ready
                || run.state == BridgeState::Checking && event == (BridgeEvent::ExitSeen {
                exited: true,
            }) {
                1int
            } else {
                0
            })
        }),
{
}

/// A bridge that fails leaves neither a directory nor a process behind.
pub proof fn law_bridge_failure_leaves_nothing(run: BridgeRun, event: BridgeEvent)
    requires
        run.next(event).1 is Fail,
    ensures
        run.next(event).0.state == BridgeState::Over,
        directories_owned(run.state) == 0,
        servers_owned(run.state) == 0,
{
}

/// The process is started only after the directory and the secret were closed
/// to other users.
pub proof fn law_secret_is_guarded_first(run: BridgeRun, event: BridgeEvent)
    ensures
        ({
            let (next, action) = run.next(event);
            &&& action is Spawn ==> run.state == BridgeState::Guarding && event is Restricted
            &&& next.state == BridgeState::Guarding && run.state != next.state ==> action
                == (BridgeActionView::RestrictAuthority { mode: AUTHORITY_MODE })
            &&& action is Authorize ==> run.state == BridgeState::Restricting && event is Restricted
            &&& next.state == BridgeState::Restricting && run.state != next.state ==> action
                == (BridgeActionView::RestrictDirectory { mode: DIRECTORY_MODE })
        }),
{
}

/// The bridge takes no connections over the network.
pub proof fn law_no_network_listener(order: BridgeOrder, program: Seq<u8>, display: u32)
    ensures
        order.server(program, display).arguments[3] == crate::bytes::encoded("-nolisten"@),
        order.server(program, display).arguments[4] == crate::bytes::encoded("tcp"@),
{
}

// ---------------------------------------------------------------------------
// A bridge that runs
// ---------------------------------------------------------------------------

/// One authenticated, rootful XWayland server connected through the seat.
pub struct XwaylandBridge<C> {
    child: Option<C>,
    runtime_dir: String,
    display: String,
    xauthority: String,
}

/// What a bridge holds. The directory is empty once somebody else removes it.
pub struct XwaylandView<C> {
    pub child: Option<C>,
    pub runtime_dir: Seq<char>,
    pub display: Seq<char>,
    pub xauthority: Seq<char>,
}

impl<C> View for XwaylandBridge<C> {
    type V = XwaylandView<C>;

    closed spec fn view(&self) -> XwaylandView<C> {
        XwaylandView {
            child: self.child,
            runtime_dir: self.runtime_dir@,
            display: self.display@,
            xauthority: self.xauthority@,
        }
    }
}

impl<C> XwaylandBridge<C> {
    /// A bridge that has just become ready.
    pub fn new(child: C, runtime_dir: String, display: String, xauthority: String) -> (bridge: Self)
        ensures
            bridge@ == (XwaylandView {
                child: Some(child),
                runtime_dir: runtime_dir@,
                display: display@,
                xauthority: xauthority@,
            }),
    {
        XwaylandBridge { child: Some(child), runtime_dir, display, xauthority }
    }

    /// The private X11 display assigned to this bridge.
    pub fn display(&self) -> (display: &str)
        ensures
            display@ == self@.display,
    {
        self.display.as_str()
    }

    /// The owner-only Xauthority file clients must use.
    pub fn xauthority(&self) -> (xauthority: &str)
        ensures
            xauthority@ == self@.xauthority,
    {
        self.xauthority.as_str()
    }

    /// Configure a process to connect exclusively to this bridge.
    pub fn configure_command(&self, command: &mut CommandPlan)
        ensures
            final(command)@ == old(command)@.on_display(self@.display, self@.xauthority),
    {
        configure_display(command, self.display.as_str(), self.xauthority.as_str());
    }

    /// Hand out what is to be got rid of: the process, to be killed and
    /// reaped, and the directory, to be removed. The bridge gives its process
    /// out only once.
    pub fn stop(&mut self) -> (remains: (Option<C>, Option<String>))
        ensures
            remains.0 == old(self)@.child,
            crate::run::shown(remains.1) == (if old(self)@.runtime_dir.len() == 0 {
                None
            } else {
                Some(old(self)@.runtime_dir)
            }),
            final(self)@ == (XwaylandView { child: None, ..old(self)@ }),
    {
        let child: Option<C> = self.child.take();
        let directory: Option<String> = if self.runtime_dir.as_str().is_empty() {
            None
        } else {
            Some(self.runtime_dir.clone())
        };
        (child, directory)
    }

    /// Take the process out to hand the bridge over to the seat.
    pub fn take_child(&mut self) -> (child: Result<C, SeatError>)
        ensures
            match child {
                Ok(child) => old(self)@.child == Some(child),
                Err(error) => old(self)@.child is None && is_failure(
                    error,
                    BridgeFailure::Xwayland,
                    "XWayland bridge process was already transferred"@,
                ),
            },
            final(self)@ == (XwaylandView { child: None, ..old(self)@ }),
    {
        match self.child.take() {
            Some(child) => Ok(child),
            None => Err(
                SeatError::Xwayland("XWayland bridge process was already transferred".to_owned()),
            ),
        }
    }

    /// The directory that goes with the process.
    pub fn runtime_dir(&self) -> (directory: String)
        ensures
            directory@ == self@.runtime_dir,
    {
        self.runtime_dir.clone()
    }

    /// Leave the removal of the directory to whoever reaps the process.
    pub fn release_directory(&mut self)
        ensures
            final(self)@ == (XwaylandView { runtime_dir: Seq::empty(), ..old(self)@ }),
    {
        self.runtime_dir = String::new();
        assert(self.runtime_dir@ =~= Seq::empty());
    }
}

/// The error of a bridge whose reaper could not be started.
pub fn reaper_error(reason: &str) -> (error: SeatError)
    ensures
        is_failure(
            error,
            BridgeFailure::Xwayland,
            "could not start XWayland reaper: "@ + reason@,
        ),
{
    SeatError::Xwayland(join2("could not start XWayland reaper: ", reason))
}

} // verus!
