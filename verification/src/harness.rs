//! The high-level harness: what to launch, with which environment, and the
//! handle on a launched application.
use crate::bytes::{bytes_of, copy_bytes, copy_list, copy_optional};
use crate::capture::CapturedFrame;
use crate::clock::is_empty_span;
use crate::command::{effective_value, CommandPlan, CommandPlanView, EnvChange, EnvView};
use crate::error::SeatError;
use crate::inject::{plan_pixel_scroll, PlanView};
use crate::launch::{Launch, LaunchAction, LaunchActionView, LaunchRun, LaunchState};
use crate::plan::PlannerView;
use crate::proxy::ShmFrame;
use crate::run::{Injection, RunView};
use crate::seat::{AgentSeat, SeatView};
use crate::seat_app::{injected, SeatApp};
use crate::teardown::{Teardown, TeardownStage};
use crate::text::{from_utf8_lossy, join2, join3, join4};
use crate::typing::Layout;
use std::sync::Arc;
use std::time::Duration;
use vstd::prelude::*;

verus! {

// ---------------------------------------------------------------------------
// Errors
// ---------------------------------------------------------------------------

/// Error returned by the high-level computer-use API. It shows one message
/// and keeps the low-level error that it wraps, if there is one.
#[derive(Debug)]
pub struct Error {
    message: String,
    source: Option<Arc<SeatError>>,
}

impl Error {
    /// The message that this error shows.
    pub closed spec fn text(self) -> Seq<char> {
        self.message@
    }

    /// The low-level error that this error wraps.
    pub closed spec fn cause(self) -> Option<SeatError> {
        match self.source {
            Some(source) => Some(*source),
            None => None,
        }
    }

    /// An error with a message of its own.
    pub fn new(message: String) -> (error: Self)
        ensures
            error.text() == message@,
            error.cause() is None,
    {
        Error { message, source: None }
    }

    /// The message that this error shows.
    pub fn to_string(&self) -> (message: String)
        ensures
            message@ == self.text(),
    {
        self.message.clone()
    }

    /// The low-level error that this error wraps.
    pub fn source(&self) -> (source: Option<&SeatError>)
        ensures
            match source {
                Some(source) => self.cause() == Some(*source),
                None => self.cause() is None,
            },
    {
        match &self.source {
            Some(source) => Some(&**source),
            None => None,
        }
    }
}

impl Clone for Error {
    fn clone(&self) -> (copy: Self)
        ensures
            copy.text() == self.text(),
            copy.cause() == self.cause(),
    {
        Error {
            message: self.message.clone(),
            source: match &self.source {
                Some(source) => Some(source.clone()),
                None => None,
            },
        }
    }
}

impl PartialEq for Error {
    fn eq(&self, other: &Self) -> (equal: bool) {
        self.message == other.message
    }
}

impl vstd::std_specs::cmp::PartialEqSpecImpl for Error {
    open spec fn obeys_eq_spec() -> bool {
        true
    }

    /// Errors are equal where they show the same message.
    open spec fn eq_spec(&self, other: &Self) -> bool {
        self.text() == other.text()
    }
}

impl Eq for Error {

}

impl From<String> for Error {
    fn from(message: String) -> (error: Self)
        ensures
            error.text() == message@,
            error.cause() is None,
    {
        Error::new(message)
    }
}

impl vstd::std_specs::convert::FromSpecImpl<String> for Error {
    open spec fn obeys_from_spec() -> bool {
        false
    }

    open spec fn from_spec(message: String) -> Self {
        arbitrary()
    }
}

impl From<std::io::Error> for Error {
    fn from(error: std::io::Error) -> (wrapped: Self)
        ensures
            exists|message: String|
                wrapped.text() == message@ && #[trigger] vstd::string::to_string_from_display_ensures::<
                    std::io::Error,
                >(&error, message),
            wrapped.cause() is None,
    {
        Error::new(ToString::to_string(&error))
    }
}

impl vstd::std_specs::convert::FromSpecImpl<std::io::Error> for Error {
    open spec fn obeys_from_spec() -> bool {
        false
    }

    open spec fn from_spec(error: std::io::Error) -> Self {
        arbitrary()
    }
}

impl From<SeatError> for Error {
    fn from(error: SeatError) -> (wrapped: Self)
        ensures
            wrapped.cause() == Some(error),
            error.shown_as(wrapped.text()),
    {
        let message: String = error.to_string();
        Error { message, source: Some(Arc::new(error)) }
    }
}

impl vstd::std_specs::convert::FromSpecImpl<SeatError> for Error {
    open spec fn obeys_from_spec() -> bool {
        false
    }

    open spec fn from_spec(error: SeatError) -> Self {
        arbitrary()
    }
}

// ---------------------------------------------------------------------------
// Buttons and transports
// ---------------------------------------------------------------------------

/// Pointer buttons that can be clicked.
#[derive(Debug, Clone, Copy, PartialEq, Eq, Structural)]
pub enum PointerButton {
    /// Primary pointer button.
    Left,
    /// Secondary/context pointer button.
    Right,
    /// Middle pointer button, commonly used for autoscroll or paste.
    Middle,
}

impl PointerButton {
    /// The Linux input-event code of this button.
    pub open spec fn code(self) -> u32 {
        match self {
            PointerButton::Left => 0x110,
            PointerButton::Right => 0x111,
            PointerButton::Middle => 0x112,
        }
    }

    /// The Linux input-event code of this button.
    pub fn evdev_code(self) -> (code: u32)
        ensures
            code == self.code(),
    {
        match self {
            PointerButton::Left => 0x110,
            PointerButton::Right => 0x111,
            PointerButton::Middle => 0x112,
        }
    }
}

/// Display transport selected for a controlled application.
#[derive(Debug, Clone, Copy, PartialEq, Eq, Structural)]
pub enum Transport {
    /// Application connected directly through the private Wayland socket.
    NativeWayland,
    /// Application connected through the authenticated XWayland bridge.
    Xwayland,
}

impl Transport {
    /// How messages call this transport.
    pub open spec fn name(self) -> Seq<char> {
        match self {
            Transport::NativeWayland => "native Wayland"@,
            Transport::Xwayland => "XWayland"@,
        }
    }
}

// ---------------------------------------------------------------------------
// What to launch
// ---------------------------------------------------------------------------

/// Cloneable description of an application to launch. Names, arguments and
/// values are byte strings, as the operating system takes them.
#[derive(Debug)]
pub struct LaunchConfig {
    pub program: Vec<u8>,
    pub arguments: Vec<Vec<u8>>,
    pub environment: Vec<(Vec<u8>, Option<Vec<u8>>)>,
    pub current_dir: Option<Vec<u8>>,
    pub inherit_diagnostics: bool,
}

/// What a launch configuration says.
#[verifier::ext_equal]
pub struct LaunchView {
    pub program: Seq<u8>,
    pub arguments: Seq<Seq<u8>>,
    pub environment: Seq<EnvView>,
    pub current_dir: Option<Seq<u8>>,
    pub inherit_diagnostics: bool,
}

/// What the environment of a launch configuration says.
pub open spec fn setting_views(settings: Seq<(Vec<u8>, Option<Vec<u8>>)>) -> Seq<EnvView> {
    Seq::new(
        settings.len(),
        |i: int|
            EnvView {
                key: settings[i].0@,
                value: crate::bytes::optional_bytes(settings[i].1),
            },
    )
}

impl View for LaunchConfig {
    type V = LaunchView;

    open spec fn view(&self) -> LaunchView {
        LaunchView {
            program: self.program@,
            arguments: crate::bytes::byte_strings(self.arguments@),
            environment: setting_views(self.environment@),
            current_dir: crate::bytes::optional_bytes(self.current_dir),
            inherit_diagnostics: self.inherit_diagnostics,
        }
    }
}

impl Clone for LaunchConfig {
    fn clone(&self) -> (copy: Self)
        ensures
            copy@ == self@,
    {
        let mut environment: Vec<(Vec<u8>, Option<Vec<u8>>)> = Vec::new();
        let mut i: usize = 0;
        while i < self.environment.len()
            invariant
                i <= self.environment.len(),
                environment@.len() == i,
                forall|j: int|
                    0 <= j < i ==> (#[trigger] environment@[j]).0@ == self.environment@[j].0@
                        && crate::bytes::optional_bytes(environment@[j].1)
                        == crate::bytes::optional_bytes(self.environment@[j].1),
            decreases self.environment.len() - i,
        {
            let setting: &(Vec<u8>, Option<Vec<u8>>) = &self.environment[i];
            environment.push((copy_bytes(&setting.0), copy_optional(&setting.1)));
            i = i + 1;
        }
        assert(setting_views(environment@) =~= setting_views(self.environment@));
        LaunchConfig {
            program: copy_bytes(&self.program),
            arguments: copy_list(&self.arguments),
            environment,
            current_dir: copy_optional(&self.current_dir),
            inherit_diagnostics: self.inherit_diagnostics,
        }
    }
}

impl LaunchView {
    /// The process that a configuration describes.
    pub open spec fn command(self) -> CommandPlanView {
        CommandPlanView {
            program: self.program,
            arguments: self.arguments,
            current_dir: self.current_dir,
            inherit_stdout: self.inherit_diagnostics,
            inherit_stderr: self.inherit_diagnostics,
            environment: self.environment,
        }
    }
}

impl LaunchConfig {
    /// Create a launch configuration for an executable name or path.
    pub fn new(program: Vec<u8>) -> (config: Self)
        ensures
            config@ == (LaunchView {
                program: program@,
                arguments: Seq::empty(),
                environment: Seq::empty(),
                current_dir: None,
                inherit_diagnostics: false,
            }),
    {
        let config = LaunchConfig {
            program,
            arguments: Vec::new(),
            environment: Vec::new(),
            current_dir: None,
            inherit_diagnostics: false,
        };
        assert(config@.arguments =~= Seq::empty());
        assert(config@.environment =~= Seq::empty());
        config
    }

    /// Append one command-line argument.
    pub fn arg(self, argument: Vec<u8>) -> (config: Self)
        ensures
            config@ == (LaunchView { arguments: self@.arguments.push(argument@), ..self@ }),
    {
        let ghost before = self@;
        let mut config: Self = self;
        config.arguments.push(argument);
        assert(config@.arguments =~= before.arguments.push(argument@));
        config
    }

    /// Append several command-line arguments.
    pub fn args(self, arguments: Vec<Vec<u8>>) -> (config: Self)
        ensures
            config@ == (LaunchView {
                arguments: self@.arguments + crate::bytes::byte_strings(arguments@),
                ..self@
            }),
    {
        let ghost before = self@;
        let mut config: Self = self;
        let mut arguments: Vec<Vec<u8>> = arguments;
        let ghost added = crate::bytes::byte_strings(arguments@);
        config.arguments.append(&mut arguments);
        assert(config@.arguments =~= before.arguments + added);
        config
    }

    /// Set one environment variable for the application.
    pub fn env(self, key: Vec<u8>, value: Vec<u8>) -> (config: Self)
        ensures
            config@ == (LaunchView {
                environment: self@.environment.push(EnvView { key: key@, value: Some(value@) }),
                ..self@
            }),
    {
        let ghost before = self@;
        let mut config: Self = self;
        config.environment.push((key, Some(value)));
        assert(config@.environment =~= before.environment.push(
            EnvView { key: key@, value: Some(value@) },
        ));
        config
    }

    /// Remove one inherited environment variable from the application.
    pub fn env_remove(self, key: Vec<u8>) -> (config: Self)
        ensures
            config@ == (LaunchView {
                environment: self@.environment.push(EnvView { key: key@, value: None }),
                ..self@
            }),
    {
        let ghost before = self@;
        let mut config: Self = self;
        config.environment.push((key, None));
        assert(config@.environment =~= before.environment.push(EnvView { key: key@, value: None }));
        config
    }

    /// Set the application's working directory.
    pub fn current_dir(self, directory: Vec<u8>) -> (config: Self)
        ensures
            config@ == (LaunchView { current_dir: Some(directory@), ..self@ }),
    {
        let mut config: Self = self;
        config.current_dir = Some(directory);
        config
    }

    /// Inherit stdout and stderr, which is useful while integrating a new
    /// toolkit. They are null by default so controlled applications do not
    /// block on closed harness pipes.
    pub fn inherit_diagnostics(self, inherit: bool) -> (config: Self)
        ensures
            config@ == (LaunchView { inherit_diagnostics: inherit, ..self@ }),
    {
        let mut config: Self = self;
        config.inherit_diagnostics = inherit;
        config
    }

    /// Executable configured for this launch.
    pub fn program(&self) -> (program: &Vec<u8>)
        ensures
            program@ == self@.program,
    {
        &self.program
    }

    /// The program as messages show it: with replacement characters where its
    /// name is not text.
    pub fn program_text(&self) -> (text: String)
        ensures
            text@ == crate::text::lossy(self@.program),
    {
        from_utf8_lossy(self.program.as_slice())
    }

    fn changes(&self) -> (changes: Vec<EnvChange>)
        ensures
            crate::command::env_views(changes@) == self@.environment,
    {
        let mut changes: Vec<EnvChange> = Vec::new();
        let mut i: usize = 0;
        while i < self.environment.len()
            invariant
                i <= self.environment.len(),
                changes@.len() == i,
                forall|j: int| 0 <= j < i ==> (#[trigger] changes@[j])@ == self@.environment[j],
            decreases self.environment.len() - i,
        {
            let setting: &(Vec<u8>, Option<Vec<u8>>) = &self.environment[i];
            let change = EnvChange {
                key: copy_bytes(&setting.0),
                value: copy_optional(&setting.1),
            };
            assert(change@ == self@.environment[i as int]);
            changes.push(change);
            i = i + 1;
        }
        assert(crate::command::env_views(changes@) =~= self@.environment);
        changes
    }

    /// The value that a variable has in the application, given the value that
    /// it would inherit.
    pub fn environment_value(&self, key: &str, inherited: Option<Vec<u8>>) -> (value: Option<
        Vec<u8>,
    >)
        ensures
            crate::bytes::optional_bytes(value) == crate::command::effective(
                self@.environment,
                crate::bytes::encoded(key@),
                crate::bytes::optional_bytes(inherited),
            ),
    {
        let changes: Vec<EnvChange> = self.changes();
        effective_value(&changes, &bytes_of(key), inherited)
    }

    /// The process that this configuration describes.
    pub fn command(&self) -> (command: CommandPlan)
        ensures
            command@ == self@.command(),
    {
        CommandPlan {
            program: copy_bytes(&self.program),
            arguments: copy_list(&self.arguments),
            current_dir: copy_optional(&self.current_dir),
            inherit_stdout: self.inherit_diagnostics,
            inherit_stderr: self.inherit_diagnostics,
            environment: self.changes(),
        }
    }
}

// ---------------------------------------------------------------------------
// Environments
// ---------------------------------------------------------------------------

impl CommandPlanView {
    /// Set a variable to a text.
    pub open spec fn env_text(self, key: Seq<char>, value: Seq<char>) -> Self {
        self.env(key, crate::bytes::encoded(value))
    }

    /// A process that connects through a seat's private socket.
    pub open spec fn on_seat(self, socket_name: Seq<char>) -> Self {
        self.env_text("WAYLAND_DISPLAY"@, socket_name)
    }

    /// A process that connects to an X display and to nothing else.
    pub open spec fn on_display(self, display: Seq<char>, xauthority: Seq<char>) -> Self {
        self.env_text("DISPLAY"@, display).env_text("XAUTHORITY"@, xauthority).env_text(
            "XDG_SESSION_TYPE"@,
            "x11"@,
        ).env_remove("WAYLAND_DISPLAY"@)
    }

    /// An application that speaks Wayland and renders in software.
    pub open spec fn native(self, socket_name: Seq<char>) -> Self {
        self.on_seat(socket_name).env_text("GDK_BACKEND"@, "wayland"@).env_text(
            "GSK_RENDERER"@,
            "cairo"@,
        ).env_text("QT_QPA_PLATFORM"@, "wayland"@).env_text(
            "ELECTRON_OZONE_PLATFORM_HINT"@,
            "wayland"@,
        ).env_text("LIBGL_ALWAYS_SOFTWARE"@, "1"@).env_remove("DISPLAY"@)
    }

    /// An application that speaks X11 and renders in software.
    pub open spec fn bridged(
        self,
        display: Seq<char>,
        xauthority: Seq<char>,
        java_options: Seq<char>,
    ) -> Self {
        self.on_display(display, xauthority).env_text("GDK_BACKEND"@, "x11"@).env_text(
            "QT_QPA_PLATFORM"@,
            "xcb"@,
        ).env_text("ELECTRON_OZONE_PLATFORM_HINT"@, "x11"@).env_text(
            "SDL_VIDEODRIVER"@,
            "x11"@,
        ).env_text("LIBGL_ALWAYS_SOFTWARE"@, "1"@).env_text("_JAVA_OPTIONS"@, java_options)
    }
}

/// Connect a process through a seat's private socket.
pub fn configure_seat(command: &mut CommandPlan, socket_name: &str)
    ensures
        final(command)@ == old(command)@.on_seat(socket_name@),
{
    command.env_text("WAYLAND_DISPLAY", socket_name);
}

/// Connect a process to an X display and to nothing else.
pub fn configure_display(command: &mut CommandPlan, display: &str, xauthority: &str)
    ensures
        final(command)@ == old(command)@.on_display(display@, xauthority@),
{
    command.env_text("DISPLAY", display);
    command.env_text("XAUTHORITY", xauthority);
    command.env_text("XDG_SESSION_TYPE", "x11");
    command.env_remove("WAYLAND_DISPLAY");
}

/// Prepare an application to speak Wayland through a seat.
pub fn configure_native_wayland(command: &mut CommandPlan, socket_name: &str)
    ensures
        final(command)@ == old(command)@.native(socket_name@),
{
    configure_seat(command, socket_name);
    command.env_text("GDK_BACKEND", "wayland");
    command.env_text("GSK_RENDERER", "cairo");
    command.env_text("QT_QPA_PLATFORM", "wayland");
    command.env_text("ELECTRON_OZONE_PLATFORM_HINT", "wayland");
    command.env_text("LIBGL_ALWAYS_SOFTWARE", "1");
    command.env_remove("DISPLAY");
}

/// Java options with the X toolkit selected behind what was there.
pub open spec fn with_x_toolkit(options: Seq<char>) -> Seq<char> {
    if options.len() == 0 {
        "-Dawt.toolkit.name=XToolkit"@
    } else {
        options + " -Dawt.toolkit.name=XToolkit"@
    }
}

/// Select the X toolkit behind the Java options that were there.
pub fn java_options(options: &str) -> (extended: String)
    ensures
        extended@ == with_x_toolkit(options@),
{
    if options.is_empty() {
        "-Dawt.toolkit.name=XToolkit".to_owned()
    } else {
        join2(options, " -Dawt.toolkit.name=XToolkit")
    }
}

/// Prepare an application to speak X11 to a bridge. `inherited_java_options`
/// is what it would inherit as `_JAVA_OPTIONS`.
pub fn configure_xwayland(
    config: &LaunchConfig,
    display: &str,
    xauthority: &str,
    inherited_java_options: Option<Vec<u8>>,
    command: &mut CommandPlan,
)
    ensures
        final(command)@ == old(command)@.bridged(
            display@,
            xauthority@,
            with_x_toolkit(
                crate::text::lossy(
                    match crate::command::effective(
                        config@.environment,
                        crate::bytes::encoded("_JAVA_OPTIONS"@),
                        crate::bytes::optional_bytes(inherited_java_options),
                    ) {
                        Some(value) => value,
                        None => Seq::empty(),
                    },
                ),
            ),
        ),
{
    let value: Option<Vec<u8>> = config.environment_value("_JAVA_OPTIONS", inherited_java_options);
    let options: Vec<u8> = match value {
        Some(options) => options,
        None => Vec::new(),
    };
    assert(value is None ==> options@ =~= Seq::empty());
    let text: String = from_utf8_lossy(options.as_slice());
    let extended: String = java_options(text.as_str());
    configure_display(command, display, xauthority);
    command.env_text("GDK_BACKEND", "x11");
    command.env_text("QT_QPA_PLATFORM", "xcb");
    command.env_text("ELECTRON_OZONE_PLATFORM_HINT", "x11");
    command.env_text("SDL_VIDEODRIVER", "x11");
    command.env_text("LIBGL_ALWAYS_SOFTWARE", "1");
    command.env_text("_JAVA_OPTIONS", extended.as_str());
}

/// The error of an application that could not be started.
pub fn launch_error(program: &str, transport: Transport, error: &str) -> (wrapped: Error)
    ensures
        wrapped.text() == "could not launch "@ + program@ + " through "@ + transport.name() + ": "@
            + error@,
        wrapped.cause() is None,
{
    let name: &str = match transport {
        Transport::NativeWayland => "native Wayland",
        Transport::Xwayland => "XWayland",
    };
    let text: String = join4("could not launch ", program, " through ", name);
    Error::new(join3(text.as_str(), ": ", error))
}

// ---------------------------------------------------------------------------
// Settings
// ---------------------------------------------------------------------------

/// How long launches may take and how large a bridge is.
#[derive(Debug, Clone, Copy)]
pub struct LaunchSettings {
    pub native_timeout: Duration,
    pub fallback_timeout: Duration,
    pub bridge_width: u16,
    pub bridge_height: u16,
}

impl LaunchSettings {
    /// Both timeouts cover some time.
    pub open spec fn wf(self) -> bool {
        crate::clock::duration_nanos(self.native_timeout) > 0 && crate::clock::duration_nanos(
            self.fallback_timeout,
        ) > 0
    }
}

/// Builder for a standalone Linux computer-use harness.
#[derive(Debug)]
pub struct ComputerUseBuilder {
    settings: LaunchSettings,
}

impl View for ComputerUseBuilder {
    type V = LaunchSettings;

    closed spec fn view(&self) -> LaunchSettings {
        self.settings
    }
}

impl Clone for ComputerUseBuilder {
    fn clone(&self) -> (copy: Self)
        ensures
            copy@ == self@,
    {
        ComputerUseBuilder { settings: self.settings }
    }
}

impl Default for ComputerUseBuilder {
    fn default() -> (builder: Self)
        ensures
            crate::clock::duration_nanos(builder@.native_timeout) == 8_000_000_000,
            crate::clock::duration_nanos(builder@.fallback_timeout) == 30_000_000_000,
            builder@.bridge_width == 1280,
            builder@.bridge_height == 800,
    {
        ComputerUseBuilder {
            settings: LaunchSettings {
                native_timeout: Duration::from_secs(8),
                fallback_timeout: Duration::from_secs(30),
                bridge_width: 1280,
                bridge_height: 800,
            },
        }
    }
}

impl ComputerUseBuilder {
    /// Change how long native Wayland gets to produce a readable frame.
    pub fn native_timeout(self, timeout: Duration) -> (builder: Self)
        ensures
            builder@ == (LaunchSettings { native_timeout: timeout, ..self@ }),
    {
        let mut builder: Self = self;
        builder.settings.native_timeout = timeout;
        builder
    }

    /// Change how long the XWayland fallback gets to produce a frame.
    pub fn fallback_timeout(self, timeout: Duration) -> (builder: Self)
        ensures
            builder@ == (LaunchSettings { fallback_timeout: timeout, ..self@ }),
    {
        let mut builder: Self = self;
        builder.settings.fallback_timeout = timeout;
        builder
    }

    /// Set the compatibility bridge canvas size.
    pub fn bridge_geometry(self, width: u16, height: u16) -> (builder: Self)
        ensures
            builder@ == (LaunchSettings { bridge_width: width, bridge_height: height, ..self@ }),
    {
        let mut builder: Self = self;
        builder.settings.bridge_width = width;
        builder.settings.bridge_height = height;
        builder
    }

    /// Check the settings and return the rules of a harness. Nothing outside
    /// is touched.
    pub fn build(self) -> (built: Result<ComputerUse, Error>)
        ensures
            match built {
                Ok(harness) => self@.wf() && harness@ == self@,
                Err(error) => !self@.wf() && error.text()
                    == "launch timeouts must be greater than zero"@ && error.cause() is None,
            },
    {
        if is_empty_span(&self.settings.native_timeout) || is_empty_span(
            &self.settings.fallback_timeout,
        ) {
            return Err(Error::new("launch timeouts must be greater than zero".to_owned()));
        }
        Ok(ComputerUse { settings: self.settings })
    }
}

/// The launch rules of an app-scoped computer-use harness.
#[derive(Debug)]
pub struct ComputerUse {
    settings: LaunchSettings,
}

impl View for ComputerUse {
    type V = LaunchSettings;

    closed spec fn view(&self) -> LaunchSettings {
        self.settings
    }
}

impl ComputerUse {
    /// The rules with production defaults.
    pub fn new() -> (harness: Self)
        ensures
            harness@.wf(),
            crate::clock::duration_nanos(harness@.native_timeout) == 8_000_000_000,
            crate::clock::duration_nanos(harness@.fallback_timeout) == 30_000_000_000,
            harness@.bridge_width == 1280,
            harness@.bridge_height == 800,
    {
        let defaults: ComputerUseBuilder = ComputerUseBuilder::default();
        ComputerUse { settings: defaults.settings }
    }

    /// Configure launch timeouts and bridge geometry.
    pub fn builder() -> (builder: ComputerUseBuilder)
        ensures
            crate::clock::duration_nanos(builder@.native_timeout) == 8_000_000_000,
            crate::clock::duration_nanos(builder@.fallback_timeout) == 30_000_000_000,
            builder@.bridge_width == 1280,
            builder@.bridge_height == 800,
    {
        ComputerUseBuilder::default()
    }

    /// Begin to launch and bind an application. Native Wayland is tried
    /// first; where that shows no readable window, the same launch is retried
    /// through an authenticated XWayland bridge.
    pub fn launch(&self, config: &LaunchConfig) -> (begun: (Launch, LaunchAction))
        ensures
            begun.0@ == (LaunchRun {
                settings: self@,
                program: crate::text::lossy(config@.program),
                state: LaunchState::NativeSpawning,
                failure: None,
            }),
            begun.1@ == LaunchActionView::SpawnNative,
    {
        Launch::begin(self.settings, config.program_text())
    }

    /// The private `WAYLAND_DISPLAY` socket of the harness's seat.
    pub fn socket_name(&self, seat: &AgentSeat) -> (name: String)
        ensures
            name@ == seat@.socket_name,
    {
        seat.socket_name()
    }

    /// Begin to stop the harness's seat and every compatibility bridge.
    pub fn close(&self, seat: &mut AgentSeat) -> (teardown: Teardown)
        ensures
            teardown.stage == TeardownStage::Socket,
            final(seat)@ == (SeatView { stopping: true, ..old(seat)@ }),
    {
        seat.close()
    }

    /// The settings that launches follow.
    pub fn settings(&self) -> (settings: LaunchSettings)
        ensures
            settings == self@,
    {
        self.settings
    }
}

/// The outcome of an injection, as an error of the harness.
pub fn completed(outcome: Result<(), String>) -> (result: Result<(), Error>)
    ensures
        match (outcome, result) {
            (Ok(()), Ok(())) => true,
            (Err(message), Err(error)) => error.text() == "input injection failure: "@ + message@
                && error.cause() == Some(SeatError::Input(message)),
            _ => false,
        },
{
    match injected(outcome) {
        Ok(()) => Ok(()),
        Err(error) => Err(Error::from(error)),
    }
}

// ---------------------------------------------------------------------------
// A launched application
// ---------------------------------------------------------------------------

/// A launched application: its process, as long as it is owned, and the seat
/// connection that transports its pixels and input.
pub struct ControlledApp<C> {
    child: Option<C>,
    pid: u32,
    app: u64,
    transport: Transport,
}

/// What the handle on a launched application holds.
pub struct ControlledView<C> {
    pub child: Option<C>,
    pub pid: u32,
    pub app: u64,
    pub transport: Transport,
}

impl<C> View for ControlledApp<C> {
    type V = ControlledView<C>;

    closed spec fn view(&self) -> ControlledView<C> {
        ControlledView {
            child: self.child,
            pid: self.pid,
            app: self.app,
            transport: self.transport,
        }
    }
}

impl<C> ControlledApp<C> {
    /// The handle on an application that was launched just now.
    pub fn new(child: C, pid: u32, app: u64, transport: Transport) -> (controlled: Self)
        ensures
            controlled@ == (ControlledView { child: Some(child), pid, app, transport }),
    {
        ControlledApp { child: Some(child), pid, app, transport }
    }

    /// Spawned application process identifier.
    pub fn pid(&self) -> (pid: u32)
        ensures
            pid == self@.pid,
    {
        self.pid
    }

    /// The seat connection of the application.
    pub fn app(&self) -> (app: u64)
        ensures
            app == self@.app,
    {
        self.app
    }

    /// Transport selected after launch probing.
    pub fn transport(&self) -> (transport: Transport)
        ensures
            transport == self@.transport,
    {
        self.transport
    }

    /// Capture the application's current window-scoped frame. `map` gives the
    /// bytes of a frame's pool, or says why it cannot.
    pub fn capture<F, M: Fn(&ShmFrame<F>) -> Result<Vec<u8>, String>>(
        &self,
        app: &SeatApp<F>,
        map: M,
    ) -> (captured: Result<CapturedFrame, Error>)
        requires
            forall|frame: &ShmFrame<F>| call_requires(map, (frame,)),
            forall|frame: &ShmFrame<F>, pool: Vec<u8>| #[trigger]
                call_ensures(map, (frame,), Ok(pool)) ==> pool@.len() == frame.pool_size,
            forall|frame: ShmFrame<F>| #[trigger]
                app.conn@.is_primary(Some(frame)) && crate::capture::is_readable(frame) ==> 3
                    * frame.width * frame.height <= usize::MAX,
        ensures
            exists|low: Result<CapturedFrame, SeatError>|
                {
                    &&& #[trigger] crate::seat_app::captures(app.conn@, map, low)
                    &&& match (low, captured) {
                        (Ok(frame), Ok(captured)) => captured == frame,
                        (Err(error), Err(captured)) => captured.cause() == Some(error)
                            && error.shown_as(captured.text()),
                        _ => false,
                    }
                },
    {
        match app.capture_frame(map) {
            Ok(frame) => Ok(frame),
            Err(error) => Err(Error::from(error)),
        }
    }

    /// Click at frame-local coordinates.
    pub fn click<F>(
        &self,
        app: &SeatApp<F>,
        x: i32,
        y: i32,
        button: PointerButton,
        count: u32,
    ) -> (run: Injection)
        ensures
            run.wf(),
            app.conn@.injects(
                run@,
                |target: Option<u64>|
                    crate::inject::click_plan(
                        app.conn@.input,
                        target,
                        x,
                        y,
                        button.code(),
                        count,
                    ),
            ),
    {
        app.inject_click(x, y, button.evdev_code(), count)
    }

    /// Click while holding a `+`-separated modifier list such as `ctrl+shift`.
    pub fn click_with_modifiers<F>(
        &self,
        app: &SeatApp<F>,
        x: i32,
        y: i32,
        button: PointerButton,
        count: u32,
        modifiers: &str,
        layout: &Layout,
    ) -> (run: Injection)
        requires
            layout.wf(),
        ensures
            run.wf(),
            app.conn@.injects(
                run@,
                |target: Option<u64>|
                    crate::typing::modified_click_plan(
                        app.conn@.input,
                        target,
                        *layout,
                        crate::text::plus_names(modifiers@),
                        x,
                        y,
                        button.code(),
                        count,
                    ),
            ),
    {
        let run: Injection = app.inject_click_with_modifiers(
            x,
            y,
            button.evdev_code(),
            count,
            Some(modifiers),
            layout,
        );
        proof {
            let target = choose|target: Option<u64>| #[trigger]
                app.conn@.is_target(target) && run@ == RunView::begun(
                    crate::typing::modified_click_plan(
                        app.conn@.input,
                        target,
                        *layout,
                        crate::text::plus_names(modifiers@),
                        x,
                        y,
                        button.code(),
                        count,
                    ),
                );
            assert(app.conn@.is_target(target));
        }
        run
    }

    /// Scroll by a pixel delta at frame-local coordinates.
    pub fn scroll<F>(&self, app: &SeatApp<F>, x: i32, y: i32, dx: i32, dy: i32) -> (run: Injection)
        ensures
            run.wf(),
            app.conn@.injects(
                run@,
                |target: Option<u64>|
                    PlanView::only_lead(
                        PlannerView::start(app.conn@.input, target).pixels_scrolled(
                            x,
                            y,
                            dx,
                            dy,
                        ).steps,
                    ),
            ),
    {
        let target: Option<u64> = app.conn.target_surface();
        Injection::begin(plan_pixel_scroll(app.conn.input, target, x, y, dx, dy))
    }

    /// Press a key combination such as `ctrl+shift+a`.
    pub fn press_key<F>(&self, app: &SeatApp<F>, combination: &str, layout: &Layout) -> (run:
        Injection)
        requires
            layout.wf(),
        ensures
            run.wf(),
            app.conn@.injects(
                run@,
                |target: Option<u64>|
                    crate::typing::combination_plan(
                        app.conn@.input,
                        target,
                        *layout,
                        crate::text::plus_names(combination@),
                    ),
            ),
    {
        app.inject_key_combo(combination, layout)
    }

    /// Type Unicode text through the application's private seat. `keysyms`
    /// holds the keysym of each character.
    pub fn type_text<F>(
        &self,
        app: &SeatApp<F>,
        text: &str,
        keysyms: &Vec<u32>,
        layout: &Layout,
    ) -> (run: Injection)
        requires
            layout.wf(),
            keysyms@.len() == text@.len(),
        ensures
            run.wf(),
            app.conn@.injects(
                run@,
                |target: Option<u64>|
                    PlanView::only_lead(
                        PlannerView::start(app.conn@.input, target).text_given(
                            *layout,
                            text@,
                            keysyms@,
                        ).steps,
                    ),
            ),
    {
        app.inject_text(text, keysyms, layout)
    }

    /// Drag from a frame-local point along a path.
    pub fn drag<F>(&self, app: &SeatApp<F>, x: i32, y: i32, path: &Vec<(i32, i32)>) -> (run:
        Injection)
        ensures
            run.wf(),
            app.conn@.injects(
                run@,
                |target: Option<u64>|
                    PlanView::only_lead(
                        PlannerView::start(app.conn@.input, target).dragged(x, y, path@).steps,
                    ),
            ),
    {
        app.inject_drag(x, y, path)
    }

    /// Hand the process out to be killed and reaped. Calling this twice is
    /// safe: the second time there is nothing to stop.
    pub fn stop(&mut self) -> (child: Option<C>)
        ensures
            child == old(self)@.child,
            final(self)@ == (ControlledView { child: None, ..old(self)@ }),
    {
        self.child.take()
    }
}

} // verus!
