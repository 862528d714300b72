//! Launching an application: native Wayland first, and through an XWayland
//! bridge where that shows no readable window in time.
//!
//! A launch is a machine. The caller performs the action that it asks for and
//! reports what came of it.
use crate::clock::is_within;
use crate::error::SeatError;
use crate::harness::{launch_error, Error, LaunchSettings, Transport};
use crate::text::join2;
use std::time::Duration;
use vstd::prelude::*;

verus! {

/// How long to wait between two looks at the application.
pub const LAUNCH_PAUSE_MS: u64 = 50;

/// What a launch asks for.
pub enum LaunchAction {
    /// Note which applications are connected, and start the application on
    /// the seat.
    SpawnNative,
    /// Note which applications are connected, and start a bridge of this size.
    StartBridge { width: u16, height: u16 },
    /// Start the application on the bridge.
    SpawnBridged,
    /// Say how long the present transport has been tried.
    Clock,
    /// Look for a window of an application that was not connected before.
    Probe,
    /// See whether the application has exited.
    CheckExit,
    /// See whether the window shows something.
    CheckContent { app: u64 },
    /// Wait.
    Pause { millis: u64 },
    /// Bind the process to the connection.
    Bind { pid: u32, app: u64 },
    /// Hand the bridge over to the seat.
    AdoptBridge,
    /// Kill and reap the application.
    StopChild,
    /// The application is running.
    Finish(Launched),
    /// The application could not be launched; a bridge that was started and
    /// not handed over is stopped.
    Fail(Error),
    /// What was reported was not asked for.
    Ignore,
}

/// What an action says.
pub enum LaunchActionView {
    SpawnNative,
    StartBridge { width: u16, height: u16 },
    SpawnBridged,
    Clock,
    Probe,
    CheckExit,
    CheckContent { app: u64 },
    Pause { millis: u64 },
    Bind { pid: u32, app: u64 },
    AdoptBridge,
    StopChild,
    Finish(Launched),
    Fail { text: Seq<char>, cause: Option<SeatError> },
    Ignore,
}

impl View for LaunchAction {
    type V = LaunchActionView;

    open spec fn view(&self) -> LaunchActionView {
        match *self {
            LaunchAction::SpawnNative => LaunchActionView::SpawnNative,
            LaunchAction::StartBridge { width, height } => LaunchActionView::StartBridge {
                width,
                height,
            },
            LaunchAction::SpawnBridged => LaunchActionView::SpawnBridged,
            LaunchAction::Clock => LaunchActionView::Clock,
            LaunchAction::Probe => LaunchActionView::Probe,
            LaunchAction::CheckExit => LaunchActionView::CheckExit,
            LaunchAction::CheckContent { app } => LaunchActionView::CheckContent { app },
            LaunchAction::Pause { millis } => LaunchActionView::Pause { millis },
            LaunchAction::Bind { pid, app } => LaunchActionView::Bind { pid, app },
            LaunchAction::AdoptBridge => LaunchActionView::AdoptBridge,
            LaunchAction::StopChild => LaunchActionView::StopChild,
            LaunchAction::Finish(launched) => LaunchActionView::Finish(launched),
            LaunchAction::Fail(error) => LaunchActionView::Fail {
                text: error.text(),
                cause: error.cause(),
            },
            LaunchAction::Ignore => LaunchActionView::Ignore,
        }
    }
}

/// What came of an action.
pub enum LaunchEvent {
    Spawned { pid: u32 },
    SpawnFailed { error: String },
    Elapsed { span: Duration },
    Probed { app: Option<u64> },
    Running,
    Exited,
    ExitUnknown { error: String },
    ContentSeen { visible: bool },
    Paused,
    Bound,
    BridgeStarted,
    BridgeFailed { cause: SeatError },
    Adopted,
    AdoptFailed { cause: SeatError },
    Stopped,
}

/// A launched application.
#[derive(Clone, Copy, Debug, PartialEq, Eq, Structural)]
pub struct Launched {
    pub pid: u32,
    pub app: u64,
    pub transport: Transport,
}

/// How far a launch is. A state that names a process owns it.
#[derive(Clone, Copy, Debug, PartialEq, Eq, Structural)]
pub enum LaunchState {
    NativeSpawning,
    NativeTiming { pid: u32 },
    NativeProbing { pid: u32 },
    NativeChecking { pid: u32 },
    NativePausing { pid: u32 },
    NativeBinding { pid: u32, app: u64 },
    NativeStopping,
    BridgeStarting,
    BridgedSpawning,
    BridgedTiming { pid: u32 },
    BridgedProbing { pid: u32 },
    BridgedPausing { pid: u32 },
    ContentTiming { pid: u32, app: u64 },
    ContentChecking { pid: u32, app: u64 },
    ContentPausing { pid: u32, app: u64 },
    BridgedBinding { pid: u32, app: u64 },
    Adopting { pid: u32, app: u64 },
    Failing,
    Over,
}

/// An application that is being launched.
pub struct Launch {
    settings: LaunchSettings,
    program: String,
    state: LaunchState,
    failure: Option<Error>,
}

/// What a launch amounts to: its settings, the program as messages show it,
/// how far it is, and the error that is reported once the process is stopped.
pub struct LaunchRun {
    pub settings: LaunchSettings,
    pub program: Seq<char>,
    pub state: LaunchState,
    pub failure: Option<(Seq<char>, Option<SeatError>)>,
}

impl View for Launch {
    type V = LaunchRun;

    closed spec fn view(&self) -> LaunchRun {
        LaunchRun {
            settings: self.settings,
            program: self.program@,
            state: self.state,
            failure: match self.failure {
                Some(error) => Some((error.text(), error.cause())),
                None => None,
            },
        }
    }
}

impl LaunchRun {
    /// In another state, asking for something.
    pub open spec fn asking(self, state: LaunchState, action: LaunchActionView) -> (
        Self,
        LaunchActionView,
    ) {
        (LaunchRun { state, ..self }, action)
    }

    /// Over, with an error.
    pub open spec fn failed(self, text: Seq<char>, cause: Option<SeatError>) -> (
        Self,
        LaunchActionView,
    ) {
        self.asking(LaunchState::Over, LaunchActionView::Fail { text, cause })
    }

    /// Stop the process first, and report an error then.
    pub open spec fn failing(self, text: Seq<char>, cause: Option<SeatError>) -> (
        Self,
        LaunchActionView,
    ) {
        (
            LaunchRun { state: LaunchState::Failing, failure: Some((text, cause)), ..self },
            LaunchActionView::StopChild,
        )
    }

    /// The error of an application that could not be started.
    pub open spec fn spawn_error(self, transport: Transport, error: Seq<char>) -> Seq<char> {
        "could not launch "@ + self.program + " through "@ + transport.name() + ": "@ + error
    }

    /// Whether so much time is still less than native Wayland gets.
    pub open spec fn in_native_time(self, span: Duration) -> bool {
        crate::clock::duration_nanos(span) < crate::clock::duration_nanos(
            self.settings.native_timeout,
        )
    }

    /// Whether so much time is still less than the bridge gets.
    pub open spec fn in_fallback_time(self, span: Duration) -> bool {
        crate::clock::duration_nanos(span) < crate::clock::duration_nanos(
            self.settings.fallback_timeout,
        )
    }

    /// The attempt with native Wayland.
    pub open spec fn next_native(self, event: LaunchEvent) -> (Self, LaunchActionView) {
        match (self.state, event) {
            (LaunchState::NativeSpawning, LaunchEvent::Spawned { pid }) => self.asking(
                LaunchState::NativeTiming { pid },
                LaunchActionView::Clock,
            ),
            (LaunchState::NativeSpawning, LaunchEvent::SpawnFailed { error }) => self.failed(
                self.spawn_error(Transport::NativeWayland, error@),
                None,
            ),
            (LaunchState::NativeTiming { pid }, LaunchEvent::Elapsed { span }) =>
            if self.in_native_time(span) {
                self.asking(LaunchState::NativeProbing { pid }, LaunchActionView::Probe)
            } else {
                self.asking(LaunchState::NativeStopping, LaunchActionView::StopChild)
            },
            (LaunchState::NativeProbing { pid }, LaunchEvent::Probed { app: Some(app) }) =>
            self.asking(
                LaunchState::NativeBinding { pid, app },
                LaunchActionView::Bind { pid, app },
            ),
            (LaunchState::NativeProbing { pid }, LaunchEvent::Probed { app: None }) => self.asking(
                LaunchState::NativeChecking { pid },
                LaunchActionView::CheckExit,
            ),
            (LaunchState::NativeChecking { pid }, LaunchEvent::Running) => self.asking(
                LaunchState::NativePausing { pid },
                LaunchActionView::Pause { millis: LAUNCH_PAUSE_MS },
            ),
            (LaunchState::NativeChecking { pid: _ }, LaunchEvent::Exited) => self.asking(
                LaunchState::NativeStopping,
                LaunchActionView::StopChild,
            ),
            (LaunchState::NativeChecking { pid: _ }, LaunchEvent::ExitUnknown { error }) =>
            self.failing(error@, None),
            (LaunchState::NativePausing { pid }, LaunchEvent::Paused) => self.asking(
                LaunchState::NativeTiming { pid },
                LaunchActionView::Clock,
            ),
            (LaunchState::NativeBinding { pid, app }, LaunchEvent::Bound) => self.asking(
                LaunchState::Over,
                LaunchActionView::Finish(
                    Launched { pid, app, transport: Transport::NativeWayland },
                ),
            ),
            (LaunchState::NativeStopping, LaunchEvent::Stopped) => self.asking(
                LaunchState::BridgeStarting,
                LaunchActionView::StartBridge {
                    width: self.settings.bridge_width,
                    height: self.settings.bridge_height,
                },
            ),
            _ => (self, LaunchActionView::Ignore),
        }
    }

    /// The attempt through a bridge: first a window, then something in it.
    pub open spec fn next_bridged(self, event: LaunchEvent) -> (Self, LaunchActionView) {
        match (self.state, event) {
            (LaunchState::BridgeStarting, LaunchEvent::BridgeStarted) => self.asking(
                LaunchState::BridgedSpawning,
                LaunchActionView::SpawnBridged,
            ),
            (LaunchState::BridgedSpawning, LaunchEvent::Spawned { pid }) => self.asking(
                LaunchState::BridgedTiming { pid },
                LaunchActionView::Clock,
            ),
            (LaunchState::BridgedSpawning, LaunchEvent::SpawnFailed { error }) => self.failed(
                self.spawn_error(Transport::Xwayland, error@),
                None,
            ),
            (LaunchState::BridgedTiming { pid }, LaunchEvent::Elapsed { span }) =>
            if self.in_fallback_time(span) {
                self.asking(LaunchState::BridgedProbing { pid }, LaunchActionView::Probe)
            } else {
                self.failing(
                    self.program
                        + " did not expose a readable frame through native Wayland or XWayland"@,
                    None,
                )
            },
            (LaunchState::BridgedProbing { pid }, LaunchEvent::Probed { app: Some(app) }) =>
            self.asking(LaunchState::ContentTiming { pid, app }, LaunchActionView::Clock),
            (LaunchState::BridgedProbing { pid }, LaunchEvent::Probed { app: None }) =>
            self.asking(
                LaunchState::BridgedPausing { pid },
                LaunchActionView::Pause { millis: LAUNCH_PAUSE_MS },
            ),
            (LaunchState::BridgedPausing { pid }, LaunchEvent::Paused) => self.asking(
                LaunchState::BridgedTiming { pid },
                LaunchActionView::Clock,
            ),
            (LaunchState::ContentTiming { pid, app }, LaunchEvent::Elapsed { span }) =>
            if self.in_fallback_time(span) {
                self.asking(
                    LaunchState::ContentChecking { pid, app },
                    LaunchActionView::CheckContent { app },
                )
            } else {
                self.failing(
                    self.program
                        + " connected through XWayland but did not render visible application content"@,
                    None,
                )
            },
            (LaunchState::ContentChecking { pid, app }, LaunchEvent::ContentSeen { visible }) =>
            if visible {
                self.asking(
                    LaunchState::BridgedBinding { pid, app },
                    LaunchActionView::Bind { pid, app },
                )
            } else {
                self.asking(
                    LaunchState::ContentPausing { pid, app },
                    LaunchActionView::Pause { millis: LAUNCH_PAUSE_MS },
                )
            },
            (LaunchState::ContentPausing { pid, app }, LaunchEvent::Paused) => self.asking(
                LaunchState::ContentTiming { pid, app },
                LaunchActionView::Clock,
            ),
            (LaunchState::BridgedBinding { pid, app }, LaunchEvent::Bound) => self.asking(
                LaunchState::Adopting { pid, app },
                LaunchActionView::AdoptBridge,
            ),
            (LaunchState::Adopting { pid, app }, LaunchEvent::Adopted) => self.asking(
                LaunchState::Over,
                LaunchActionView::Finish(Launched { pid, app, transport: Transport::Xwayland }),
            ),
            _ => (self, LaunchActionView::Ignore),
        }
    }

    /// What a launch does next.
    pub open spec fn steps_to(
        self,
        event: LaunchEvent,
        next: Self,
        action: LaunchActionView,
    ) -> bool {
        match (self.state, event) {
            (LaunchState::BridgeStarting, LaunchEvent::BridgeFailed { cause }) => exists|
                text: Seq<char>,
            | #[trigger]
                cause.shown_as(text) && (next, action) == self.failed(
                    text,
                    Some(cause),
                ),
            (LaunchState::Adopting { pid: _, app: _ }, LaunchEvent::AdoptFailed { cause }) =>
            exists|text: Seq<char>| #[trigger]
                cause.shown_as(text) && (next, action) == self.failing(
                    text,
                    Some(cause),
                ),
            (LaunchState::Failing, LaunchEvent::Stopped) => match self.failure {
                Some((text, cause)) => (next, action) == (
                    LaunchRun { state: LaunchState::Over, failure: None, ..self },
                    LaunchActionView::Fail { text, cause },
                ),
                None => (next, action) == (self, LaunchActionView::Ignore),
            },
            (LaunchState::NativeSpawning, _) => (next, action) == self.next_native(event),
            (LaunchState::NativeTiming { .. }, _) => (next, action) == self.next_native(event),
            (LaunchState::NativeProbing { .. }, _) => (next, action) == self.next_native(event),
            (LaunchState::NativeChecking { .. }, _) => (next, action) == self.next_native(event),
            (LaunchState::NativePausing { .. }, _) => (next, action) == self.next_native(event),
            (LaunchState::NativeBinding { .. }, _) => (next, action) == self.next_native(event),
            (LaunchState::NativeStopping, _) => (next, action) == self.next_native(event),
            _ => (next, action) == self.next_bridged(event),
        }
    }
}

impl Launch {
    /// Begin to launch a program.
    pub fn begin(settings: LaunchSettings, program: String) -> (begun: (Self, LaunchAction))
        ensures
            begun.0@ == (LaunchRun {
                settings,
                program: program@,
                state: LaunchState::NativeSpawning,
                failure: None,
            }),
            begun.1@ == LaunchActionView::SpawnNative,
    {
        let launch = Launch {
            settings,
            program,
            state: LaunchState::NativeSpawning,
            failure: None,
        };
        (launch, LaunchAction::SpawnNative)
    }

    fn ask(&mut self, state: LaunchState, action: LaunchAction) -> (asked: LaunchAction)
        ensures
            (final(self)@, asked@) == old(self)@.asking(state, action@),
    {
        self.state = state;
        action
    }

    fn fail_after_stop(&mut self, error: Error) -> (asked: LaunchAction)
        ensures
            (final(self)@, asked@) == old(self)@.failing(error.text(), error.cause()),
    {
        self.failure = Some(error);
        self.ask(LaunchState::Failing, LaunchAction::StopChild)
    }

    fn handle_native(&mut self, event: LaunchEvent) -> (action: LaunchAction)
        ensures
            (final(self)@, action@) == old(self)@.next_native(event),
    {
        match (self.state, event) {
            (LaunchState::NativeSpawning, LaunchEvent::Spawned { pid }) => self.ask(
                LaunchState::NativeTiming { pid },
                LaunchAction::Clock,
            ),
            (LaunchState::NativeSpawning, LaunchEvent::SpawnFailed { error }) => {
                let error: Error = launch_error(
                    self.program.as_str(),
                    Transport::NativeWayland,
                    error.as_str(),
                );
                self.ask(LaunchState::Over, LaunchAction::Fail(error))
            },
            (LaunchState::NativeTiming { pid }, LaunchEvent::Elapsed { span }) => {
                if is_within(&span, &self.settings.native_timeout) {
                    self.ask(LaunchState::NativeProbing { pid }, LaunchAction::Probe)
                } else {
                    self.ask(LaunchState::NativeStopping, LaunchAction::StopChild)
                }
            },
            (LaunchState::NativeProbing { pid }, LaunchEvent::Probed { app }) => match app {
                Some(app) => self.ask(
                    LaunchState::NativeBinding { pid, app },
                    LaunchAction::Bind { pid, app },
                ),
                None => self.ask(LaunchState::NativeChecking { pid }, LaunchAction::CheckExit),
            },
            (LaunchState::NativeChecking { pid }, LaunchEvent::Running) => self.ask(
                LaunchState::NativePausing { pid },
                LaunchAction::Pause { millis: LAUNCH_PAUSE_MS },
            ),
            (LaunchState::NativeChecking { pid: _ }, LaunchEvent::Exited) => self.ask(
                LaunchState::NativeStopping,
                LaunchAction::StopChild,
            ),
            (LaunchState::NativeChecking { pid: _ }, LaunchEvent::ExitUnknown { error }) => {
                self.fail_after_stop(Error::new(error))
            },
            (LaunchState::NativePausing { pid }, LaunchEvent::Paused) => self.ask(
                LaunchState::NativeTiming { pid },
                LaunchAction::Clock,
            ),
            (LaunchState::NativeBinding { pid, app }, LaunchEvent::Bound) => self.ask(
                LaunchState::Over,
                LaunchAction::Finish(Launched { pid, app, transport: Transport::NativeWayland }),
            ),
            (LaunchState::NativeStopping, LaunchEvent::Stopped) => {
                let width: u16 = self.settings.bridge_width;
                let height: u16 = self.settings.bridge_height;
                self.ask(LaunchState::BridgeStarting, LaunchAction::StartBridge { width, height })
            },
            _ => LaunchAction::Ignore,
        }
    }

    fn handle_bridged(&mut self, event: LaunchEvent) -> (action: LaunchAction)
        ensures
            (final(self)@, action@) == old(self)@.next_bridged(event),
    {
        match (self.state, event) {
            (LaunchState::BridgeStarting, LaunchEvent::BridgeStarted) => self.ask(
                LaunchState::BridgedSpawning,
                LaunchAction::SpawnBridged,
            ),
            (LaunchState::BridgedSpawning, LaunchEvent::Spawned { pid }) => self.ask(
                LaunchState::BridgedTiming { pid },
                LaunchAction::Clock,
            ),
            (LaunchState::BridgedSpawning, LaunchEvent::SpawnFailed { error }) => {
                let error: Error = launch_error(
                    self.program.as_str(),
                    Transport::Xwayland,
                    error.as_str(),
                );
                self.ask(LaunchState::Over, LaunchAction::Fail(error))
            },
            (LaunchState::BridgedTiming { pid }, LaunchEvent::Elapsed { span }) => {
                if is_within(&span, &self.settings.fallback_timeout) {
                    self.ask(LaunchState::BridgedProbing { pid }, LaunchAction::Probe)
                } else {
                    let text: String = join2(
                        self.program.as_str(),
                        " did not expose a readable frame through native Wayland or XWayland",
                    );
                    self.fail_after_stop(Error::new(text))
                }
            },
            (LaunchState::BridgedProbing { pid }, LaunchEvent::Probed { app }) => match app {
                Some(app) => self.ask(
                    LaunchState::ContentTiming { pid, app },
                    LaunchAction::Clock,
                ),
                None => self.ask(
                    LaunchState::BridgedPausing { pid },
                    LaunchAction::Pause { millis: LAUNCH_PAUSE_MS },
                ),
            },
            (LaunchState::BridgedPausing { pid }, LaunchEvent::Paused) => self.ask(
                LaunchState::BridgedTiming { pid },
                LaunchAction::Clock,
            ),
            (LaunchState::ContentTiming { pid, app }, LaunchEvent::Elapsed { span }) => {
                if is_within(&span, &self.settings.fallback_timeout) {
                    self.ask(
                        LaunchState::ContentChecking { pid, app },
                        LaunchAction::CheckContent { app },
                    )
                } else {
                    let text: String = join2(
                        self.program.as_str(),
                        " connected through XWayland but did not render visible application content",
                    );
                    self.fail_after_stop(Error::new(text))
                }
            },
            (LaunchState::ContentChecking { pid, app }, LaunchEvent::ContentSeen { visible }) => {
                if visible {
                    self.ask(
                        LaunchState::BridgedBinding { pid, app },
                        LaunchAction::Bind { pid, app },
                    )
                } else {
                    self.ask(
                        LaunchState::ContentPausing { pid, app },
                        LaunchAction::Pause { millis: LAUNCH_PAUSE_MS },
                    )
                }
            },
            (LaunchState::ContentPausing { pid, app }, LaunchEvent::Paused) => self.ask(
                LaunchState::ContentTiming { pid, app },
                LaunchAction::Clock,
            ),
            (LaunchState::BridgedBinding { pid, app }, LaunchEvent::Bound) => self.ask(
                LaunchState::Adopting { pid, app },
                LaunchAction::AdoptBridge,
            ),
            (LaunchState::Adopting { pid, app }, LaunchEvent::Adopted) => self.ask(
                LaunchState::Over,
                LaunchAction::Finish(Launched { pid, app, transport: Transport::Xwayland }),
            ),
            _ => LaunchAction::Ignore,
        }
    }

    /// Report what came of the last action and get the next one.
    pub fn handle(&mut self, event: LaunchEvent) -> (action: LaunchAction)
        ensures
            old(self)@.steps_to(event, final(self)@, action@),
            old(self)@.state is NativeTiming ==> (event matches LaunchEvent::Elapsed { span }
                ==> action@ == (if crate::clock::duration_nanos(span)
                < crate::clock::duration_nanos(old(self)@.settings.native_timeout) {
                LaunchActionView::Probe
            } else {
                LaunchActionView::StopChild
            })),
            old(self)@.state is BridgedTiming ==> (event matches LaunchEvent::Elapsed { span }
                ==> action@ == (if crate::clock::duration_nanos(span)
                < crate::clock::duration_nanos(old(self)@.settings.fallback_timeout) {
                LaunchActionView::Probe
            } else {
                LaunchActionView::StopChild
            })),
            old(self)@.state matches LaunchState::ContentTiming { pid: _, app } ==> (
            event matches LaunchEvent::Elapsed { span } ==> action@ == (
            if crate::clock::duration_nanos(span) < crate::clock::duration_nanos(
                old(self)@.settings.fallback_timeout,
            ) {
                LaunchActionView::CheckContent { app }
            } else {
                LaunchActionView::StopChild
            })),
    {
        match self.state {
            LaunchState::BridgeStarting => match event {
                LaunchEvent::BridgeFailed { cause } => {
                    let wrapped: Error = Error::from(cause);
                    self.ask(LaunchState::Over, LaunchAction::Fail(wrapped))
                },
                _ => self.handle_bridged(event),
            },
            LaunchState::Adopting { pid: _, app: _ } => match event {
                LaunchEvent::AdoptFailed { cause } => {
                    let wrapped: Error = Error::from(cause);
                    self.fail_after_stop(wrapped)
                },
                _ => self.handle_bridged(event),
            },
            LaunchState::Failing => match event {
                LaunchEvent::Stopped => match self.failure.take() {
                    Some(error) => self.ask(LaunchState::Over, LaunchAction::Fail(error)),
                    None => LaunchAction::Ignore,
                },
                _ => LaunchAction::Ignore,
            },
            LaunchState::NativeSpawning => self.handle_native(event),
            LaunchState::NativeTiming { .. } => self.handle_native(event),
            LaunchState::NativeProbing { .. } => self.handle_native(event),
            LaunchState::NativeChecking { .. } => self.handle_native(event),
            LaunchState::NativePausing { .. } => self.handle_native(event),
            LaunchState::NativeBinding { .. } => self.handle_native(event),
            LaunchState::NativeStopping => self.handle_native(event),
            _ => self.handle_bridged(event),
        }
    }
}

// ---------------------------------------------------------------------------
// Laws
// ---------------------------------------------------------------------------

/// How many processes a state owns.
pub open spec fn owned(state: LaunchState) -> int {
    match state {
        LaunchState::NativeSpawning => 0,
        LaunchState::NativeStopping => 0,
        LaunchState::BridgeStarting => 0,
        LaunchState::BridgedSpawning => 0,
        LaunchState::Failing => 0,
        LaunchState::Over => 0,
        _ => 1,
    }
}

/// Whether a report tells of a new process that was asked for.
pub open spec fn spawns(state: LaunchState, event: LaunchEvent) -> bool {
    (state == LaunchState::NativeSpawning || state == LaunchState::BridgedSpawning)
        && event is Spawned
}

/// No process is lost: each one that was started is owned until it is stopped
/// or handed out as the launched application.
pub proof fn law_processes_are_accounted_for(
    run: LaunchRun,
    event: LaunchEvent,
    next: LaunchRun,
    action: LaunchActionView,
)
    requires
        run.steps_to(event, next, action),
    ensures
        owned(run.state) + (if spawns(run.state, event) {
            1int
        } else {
            0
        }) == owned(next.state) + (if action is StopChild || action is Finish {
            1int
        } else {
            0
        }),
{
}

/// A launch that fails leaves no process running.
pub proof fn law_failure_leaves_no_process(
    run: LaunchRun,
    event: LaunchEvent,
    next: LaunchRun,
    action: LaunchActionView,
)
    requires
        run.steps_to(event, next, action),
        action is Fail,
    ensures
        owned(run.state) == 0,
        owned(next.state) == 0,
        next.state == LaunchState::Over,
{
}

/// The bridge is tried only once native Wayland was given up and its process
/// stopped.
pub proof fn law_native_comes_first(
    run: LaunchRun,
    event: LaunchEvent,
    next: LaunchRun,
    action: LaunchActionView,
)
    requires
        run.steps_to(event, next, action),
    ensures
        action is StartBridge ==> run.state == LaunchState::NativeStopping && event is Stopped,
        next.state == LaunchState::NativeStopping && run.state != LaunchState::NativeStopping
            ==> action is StopChild,
        action is SpawnNative ==> false,
{
}

/// Looking for a window happens only within the time of the transport.
pub proof fn law_probes_are_in_time(
    run: LaunchRun,
    event: LaunchEvent,
    next: LaunchRun,
    action: LaunchActionView,
)
    requires
        run.steps_to(event, next, action),
        action is Probe || action is CheckContent,
    ensures
        event matches LaunchEvent::Elapsed { span } && (if run.state is NativeTiming {
            run.in_native_time(span)
        } else {
            run.in_fallback_time(span)
        }),
{
}

/// The application that comes out is the one that was bound last, with its
/// own process.
pub proof fn law_launched_application_is_bound(
    run: LaunchRun,
    event: LaunchEvent,
    next: LaunchRun,
    action: LaunchActionView,
)
    requires
        run.steps_to(event, next, action),
    ensures
        next.state matches LaunchState::NativeBinding { pid, app } ==> next.state == run.state
            || action == (LaunchActionView::Bind { pid, app }),
        next.state matches LaunchState::BridgedBinding { pid, app } ==> next.state == run.state
            || action == (LaunchActionView::Bind { pid, app }),
        next.state matches LaunchState::Adopting { pid, app } ==> next.state == run.state
            || run.state == (LaunchState::BridgedBinding { pid, app }),
        action matches LaunchActionView::Finish(launched) ==> match launched.transport {
            Transport::NativeWayland => run.state == (LaunchState::NativeBinding {
                pid: launched.pid,
                app: launched.app,
            }),
            Transport::Xwayland => run.state == (LaunchState::Adopting {
                pid: launched.pid,
                app: launched.app,
            }),
        },
{
}

} // verus!
