use agent_seat_linux::bridge::{
    reaper_error, BridgeAction, BridgeEvent, BridgeOrder, BridgeStart, XwaylandBridge,
};
use agent_seat_linux::command::{effective_value, CommandPlan, EnvChange};
use agent_seat_linux::harness::{
    completed, configure_native_wayland, configure_xwayland, java_options, launch_error,
};
use agent_seat_linux::input::InputState;
use agent_seat_linux::launch::{Launch, LaunchAction, LaunchEvent};
use agent_seat_linux::plan::EventArg;
use agent_seat_linux::proxy::Conn;
use agent_seat_linux::run::Command;
use agent_seat_linux::teardown::TeardownAction;
use agent_seat_linux::typing::Layout;
use agent_seat_linux::{
    AgentSeat, ComputerUse, ControlledApp, LaunchConfig, PointerButton, SeatApp, SeatError,
    Transport,
};
use std::time::Duration;

fn bytes(text: &str) -> Vec<u8> {
    text.as_bytes().to_vec()
}

fn shown(list: &[Vec<u8>]) -> Vec<String> {
    list.iter().map(|item| String::from_utf8(item.clone()).unwrap()).collect()
}

fn value(command: &CommandPlan, key: &str, inherited: Option<&str>) -> Option<String> {
    effective_value(&command.environment, &bytes(key), inherited.map(bytes))
        .map(|value| String::from_utf8(value).unwrap())
}

#[test]
fn launch_config_is_framework_neutral_and_cloneable() {
    let config = LaunchConfig::new(bytes("demo"))
        .arg(bytes("--flag"))
        .env(bytes("DEMO"), bytes("1"))
        .env_remove(bytes("REMOVE_ME"))
        .current_dir(bytes("/tmp"))
        .inherit_diagnostics(true);
    let cloned = config.clone();
    assert_eq!(cloned.program(), &bytes("demo"));
    assert_eq!(cloned.arguments, [bytes("--flag")]);
    assert_eq!(cloned.current_dir, Some(bytes("/tmp")));
    assert_eq!(
        cloned.environment,
        vec![(bytes("DEMO"), Some(bytes("1"))), (bytes("REMOVE_ME"), None)]
    );
    assert!(cloned.inherit_diagnostics);
}

#[test]
fn commands_carry_the_configuration() {
    let config = LaunchConfig::new(bytes("demo"))
        .args(vec![bytes("a"), bytes("b")])
        .arg(bytes("c"))
        .env(bytes("K"), bytes("1"));
    let command = config.command();
    assert_eq!(command.program, bytes("demo"));
    assert_eq!(shown(&command.arguments), vec!["a", "b", "c"]);
    assert!(command.current_dir.is_none());
    assert!(!command.inherit_stdout && !command.inherit_stderr);
    assert_eq!(value(&command, "K", Some("0")), Some(String::from("1")));
    let loud = config.inherit_diagnostics(true).command();
    assert!(loud.inherit_stdout && loud.inherit_stderr);
}

#[test]
fn the_last_setting_of_a_variable_counts() {
    let config = LaunchConfig::new(bytes("demo"))
        .env(bytes("A"), bytes("1"))
        .env(bytes("A"), bytes("2"))
        .env(bytes("B"), bytes("3"))
        .env_remove(bytes("B"));
    assert_eq!(config.environment_value("A", Some(bytes("0"))), Some(bytes("2")));
    assert_eq!(config.environment_value("B", Some(bytes("0"))), None);
    assert_eq!(config.environment_value("C", Some(bytes("0"))), Some(bytes("0")));
    assert_eq!(config.environment_value("C", None), None);
    let changes = vec![EnvChange { key: bytes("A"), value: None }];
    assert_eq!(effective_value(&changes, &bytes("A"), Some(bytes("0"))), None);
}

#[test]
fn native_launches_use_the_seat_whatever_is_configured() {
    let mut command = LaunchConfig::new(bytes("demo"))
        .env(bytes("WAYLAND_DISPLAY"), bytes("elsewhere"))
        .env(bytes("DISPLAY"), bytes(":0"))
        .env(bytes("KEEP"), bytes("me"))
        .command();
    configure_native_wayland(&mut command, "agent-seat-1-x");
    assert_eq!(value(&command, "WAYLAND_DISPLAY", None).as_deref(), Some("agent-seat-1-x"));
    assert_eq!(value(&command, "DISPLAY", Some(":1")), None);
    assert_eq!(value(&command, "KEEP", None).as_deref(), Some("me"));
    for (key, expected) in [
        ("GDK_BACKEND", "wayland"),
        ("GSK_RENDERER", "cairo"),
        ("QT_QPA_PLATFORM", "wayland"),
        ("ELECTRON_OZONE_PLATFORM_HINT", "wayland"),
        ("LIBGL_ALWAYS_SOFTWARE", "1"),
    ] {
        assert_eq!(value(&command, key, None).as_deref(), Some(expected), "{key}");
    }
}

#[test]
fn bridged_launches_use_the_bridge_whatever_is_configured() {
    let config = LaunchConfig::new(bytes("demo"))
        .env(bytes("WAYLAND_DISPLAY"), bytes("elsewhere"))
        .env(bytes("_JAVA_OPTIONS"), bytes("-Xmx1g"));
    let mut command = config.command();
    configure_xwayland(&config, ":12", "/run/auth", Some(bytes("-inherited")), &mut command);
    assert_eq!(value(&command, "WAYLAND_DISPLAY", Some("wayland-0")), None);
    for (key, expected) in [
        ("DISPLAY", ":12"),
        ("XAUTHORITY", "/run/auth"),
        ("XDG_SESSION_TYPE", "x11"),
        ("GDK_BACKEND", "x11"),
        ("QT_QPA_PLATFORM", "xcb"),
        ("ELECTRON_OZONE_PLATFORM_HINT", "x11"),
        ("SDL_VIDEODRIVER", "x11"),
        ("LIBGL_ALWAYS_SOFTWARE", "1"),
        ("_JAVA_OPTIONS", "-Xmx1g -Dawt.toolkit.name=XToolkit"),
    ] {
        assert_eq!(value(&command, key, None).as_deref(), Some(expected), "{key}");
    }
}

#[test]
fn java_options_are_extended() {
    assert_eq!(java_options(""), "-Dawt.toolkit.name=XToolkit");
    assert_eq!(java_options("-a"), "-a -Dawt.toolkit.name=XToolkit");
    let java = |config: &LaunchConfig, inherited: Option<Vec<u8>>| {
        let mut command = config.command();
        configure_xwayland(config, ":1", "/x", inherited, &mut command);
        value(&command, "_JAVA_OPTIONS", None).unwrap()
    };
    let plain = LaunchConfig::new(bytes("demo"));
    assert_eq!(java(&plain, None), "-Dawt.toolkit.name=XToolkit");
    assert_eq!(java(&plain, Some(bytes("-i"))), "-i -Dawt.toolkit.name=XToolkit");
    assert_eq!(
        java(&plain, Some(vec![b'-', 0xff])),
        "-\u{fffd} -Dawt.toolkit.name=XToolkit"
    );
    let removed = LaunchConfig::new(bytes("demo")).env_remove(bytes("_JAVA_OPTIONS"));
    assert_eq!(java(&removed, Some(bytes("-i"))), "-Dawt.toolkit.name=XToolkit");
}

#[test]
fn builder_rejects_zero_timeouts_before_touching_wayland() {
    let error = ComputerUse::builder()
        .native_timeout(Duration::ZERO)
        .build()
        .err()
        .expect("zero timeout must fail");
    assert!(error.to_string().contains("greater than zero"));
}

#[test]
fn builders_keep_their_settings() {
    assert!(ComputerUse::builder().fallback_timeout(Duration::ZERO).build().is_err());
    let built = ComputerUse::builder()
        .native_timeout(Duration::from_nanos(1))
        .fallback_timeout(Duration::from_secs(2))
        .bridge_geometry(640, 480)
        .clone()
        .build()
        .unwrap()
        .settings();
    assert_eq!(built.native_timeout, Duration::from_nanos(1));
    assert_eq!(built.fallback_timeout, Duration::from_secs(2));
    assert_eq!((built.bridge_width, built.bridge_height), (640, 480));
    let defaults = ComputerUse::new().settings();
    assert_eq!(defaults.native_timeout, Duration::from_secs(8));
    assert_eq!(defaults.fallback_timeout, Duration::from_secs(30));
    assert_eq!((defaults.bridge_width, defaults.bridge_height), (1280, 800));
}

#[test]
fn buttons_have_kernel_codes() {
    assert_eq!(PointerButton::Left.evdev_code(), 0x110);
    assert_eq!(PointerButton::Right.evdev_code(), 0x111);
    assert_eq!(PointerButton::Middle.evdev_code(), 0x112);
}

#[test]
fn launch_errors_name_the_transport() {
    assert_eq!(
        launch_error("demo", Transport::NativeWayland, "gone").to_string(),
        "could not launch demo through native Wayland: gone"
    );
    assert_eq!(
        launch_error("demo", Transport::Xwayland, "gone").to_string(),
        "could not launch demo through XWayland: gone"
    );
}

fn begun() -> Launch {
    let harness = ComputerUse::builder()
        .native_timeout(Duration::from_secs(1))
        .fallback_timeout(Duration::from_secs(2))
        .bridge_geometry(640, 480)
        .build()
        .unwrap();
    let (launch, action) = harness.launch(&LaunchConfig::new(vec![b'd', 0xff]));
    assert!(matches!(action, LaunchAction::SpawnNative));
    launch
}

fn early() -> LaunchEvent {
    LaunchEvent::Elapsed { span: Duration::from_millis(10) }
}

fn late() -> LaunchEvent {
    LaunchEvent::Elapsed { span: Duration::from_secs(2) }
}

fn why(action: LaunchAction) -> String {
    match action {
        LaunchAction::Fail(error) => error.to_string(),
        _ => panic!("the launch must fail"),
    }
}

#[test]
fn a_native_launch_binds_its_window() {
    let mut launch = begun();
    assert!(matches!(launch.handle(LaunchEvent::Spawned { pid: 9 }), LaunchAction::Clock));
    assert!(matches!(launch.handle(early()), LaunchAction::Probe));
    assert!(matches!(launch.handle(LaunchEvent::Probed { app: None }), LaunchAction::CheckExit));
    assert!(matches!(launch.handle(LaunchEvent::Running), LaunchAction::Pause { millis: 50 }));
    assert!(matches!(launch.handle(LaunchEvent::Paused), LaunchAction::Clock));
    assert!(matches!(launch.handle(early()), LaunchAction::Probe));
    assert!(matches!(
        launch.handle(LaunchEvent::Probed { app: Some(4) }),
        LaunchAction::Bind { pid: 9, app: 4 }
    ));
    match launch.handle(LaunchEvent::Bound) {
        LaunchAction::Finish(launched) => {
            assert_eq!((launched.pid, launched.app), (9, 4));
            assert_eq!(launched.transport, Transport::NativeWayland);
        }
        _ => panic!("the launch must succeed"),
    }
    assert!(matches!(launch.handle(LaunchEvent::Bound), LaunchAction::Ignore));
}

#[test]
fn native_launches_that_fail_say_why() {
    let mut launch = begun();
    assert_eq!(
        why(launch.handle(LaunchEvent::SpawnFailed { error: String::from("no such file") })),
        "could not launch d\u{fffd} through native Wayland: no such file"
    );
    let mut launch = begun();
    launch.handle(LaunchEvent::Spawned { pid: 9 });
    launch.handle(early());
    launch.handle(LaunchEvent::Probed { app: None });
    assert!(matches!(
        launch.handle(LaunchEvent::ExitUnknown { error: String::from("wait failed") }),
        LaunchAction::StopChild
    ));
    assert_eq!(why(launch.handle(LaunchEvent::Stopped)), "wait failed");
}

/// A launch whose native attempt is over and whose bridge was asked for.
fn fallen_back() -> Launch {
    let mut launch = begun();
    launch.handle(LaunchEvent::Spawned { pid: 9 });
    assert!(matches!(launch.handle(late()), LaunchAction::StopChild));
    assert!(matches!(
        launch.handle(LaunchEvent::Stopped),
        LaunchAction::StartBridge { width: 640, height: 480 }
    ));
    launch
}

#[test]
fn an_application_that_exits_is_retried_on_a_bridge() {
    let mut launch = begun();
    launch.handle(LaunchEvent::Spawned { pid: 9 });
    launch.handle(early());
    launch.handle(LaunchEvent::Probed { app: None });
    assert!(matches!(launch.handle(LaunchEvent::Exited), LaunchAction::StopChild));
    assert!(matches!(launch.handle(LaunchEvent::Stopped), LaunchAction::StartBridge { .. }));
}

#[test]
fn a_bridged_launch_waits_for_content() {
    let mut launch = fallen_back();
    assert!(matches!(launch.handle(LaunchEvent::BridgeStarted), LaunchAction::SpawnBridged));
    assert!(matches!(launch.handle(LaunchEvent::Spawned { pid: 10 }), LaunchAction::Clock));
    assert!(matches!(launch.handle(early()), LaunchAction::Probe));
    assert!(matches!(
        launch.handle(LaunchEvent::Probed { app: None }),
        LaunchAction::Pause { millis: 50 }
    ));
    launch.handle(LaunchEvent::Paused);
    launch.handle(early());
    assert!(matches!(launch.handle(LaunchEvent::Probed { app: Some(6) }), LaunchAction::Clock));
    assert!(matches!(launch.handle(early()), LaunchAction::CheckContent { app: 6 }));
    assert!(matches!(
        launch.handle(LaunchEvent::ContentSeen { visible: false }),
        LaunchAction::Pause { millis: 50 }
    ));
    assert!(matches!(launch.handle(LaunchEvent::Paused), LaunchAction::Clock));
    launch.handle(early());
    assert!(matches!(
        launch.handle(LaunchEvent::ContentSeen { visible: true }),
        LaunchAction::Bind { pid: 10, app: 6 }
    ));
    assert!(matches!(launch.handle(LaunchEvent::Bound), LaunchAction::AdoptBridge));
    assert!(matches!(
        launch.handle(LaunchEvent::Adopted),
        LaunchAction::Finish(launched) if launched.transport == Transport::Xwayland
    ));
}

#[test]
fn bridged_launches_that_fail_stop_their_process() {
    let mut launch = fallen_back();
    let cause = SeatError::Xwayland(String::from("no bridge"));
    match launch.handle(LaunchEvent::BridgeFailed { cause }) {
        LaunchAction::Fail(error) => {
            assert_eq!(error.to_string(), "XWayland bridge failure: no bridge");
            assert!(matches!(error.source(), Some(SeatError::Xwayland(_))));
        }
        _ => panic!("the launch must fail"),
    }
    let mut launch = fallen_back();
    launch.handle(LaunchEvent::BridgeStarted);
    assert_eq!(
        why(launch.handle(LaunchEvent::SpawnFailed { error: String::from("no") })),
        "could not launch d\u{fffd} through XWayland: no"
    );
    let spawned = || {
        let mut launch = fallen_back();
        launch.handle(LaunchEvent::BridgeStarted);
        launch.handle(LaunchEvent::Spawned { pid: 10 });
        launch
    };
    let mut launch = spawned();
    assert!(matches!(launch.handle(late()), LaunchAction::StopChild));
    assert_eq!(
        why(launch.handle(LaunchEvent::Stopped)),
        "d\u{fffd} did not expose a readable frame through native Wayland or XWayland"
    );
    let windowed = || {
        let mut launch = spawned();
        launch.handle(early());
        launch.handle(LaunchEvent::Probed { app: Some(6) });
        launch
    };
    let mut launch = windowed();
    assert!(matches!(launch.handle(late()), LaunchAction::StopChild));
    assert_eq!(
        why(launch.handle(LaunchEvent::Stopped)),
        "d\u{fffd} connected through XWayland but did not render visible application content"
    );
    let mut launch = windowed();
    launch.handle(early());
    launch.handle(LaunchEvent::ContentSeen { visible: true });
    launch.handle(LaunchEvent::Bound);
    let cause = SeatError::Xwayland(String::from("no reaper"));
    assert!(matches!(
        launch.handle(LaunchEvent::AdoptFailed { cause }),
        LaunchAction::StopChild
    ));
    assert_eq!(
        why(launch.handle(LaunchEvent::Stopped)),
        "XWayland bridge failure: no reaper"
    );
}

fn starting() -> BridgeStart {
    let (start, action) = BridgeStart::begin_with(BridgeOrder {
        width: 640,
        height: 480,
        socket_name: String::from("agent-seat-1-x"),
        runtime_dir: String::from("/run"),
        name: String::from("bridge"),
        cookie: String::from("secret"),
        diagnostics: true,
    });
    assert!(matches!(action, BridgeAction::FindXwayland));
    start
}

fn found() -> BridgeStart {
    let mut start = starting();
    let path = Some(bytes("/usr/bin/Xwayland"));
    assert!(matches!(
        start.handle(BridgeEvent::XwaylandFound { path }),
        BridgeAction::PickDisplay
    ));
    assert!(matches!(
        start.handle(BridgeEvent::DisplayPicked { display: Some(12) }),
        BridgeAction::CreateDirectory
    ));
    start
}

fn authorizing() -> BridgeStart {
    let mut start = found();
    assert!(matches!(
        start.handle(BridgeEvent::Created),
        BridgeAction::RestrictDirectory { mode: 0o700 }
    ));
    match start.handle(BridgeEvent::Restricted) {
        BridgeAction::Authorize(plan) => {
            assert_eq!(plan.program, bytes("xauth"));
            assert_eq!(
                shown(&plan.arguments),
                vec!["-f", "/run/bridge/Xauthority", "add", ":12", "MIT-MAGIC-COOKIE-1", "secret"]
            );
            assert!(!plan.inherit_stdout && !plan.inherit_stderr);
        }
        _ => panic!("the secret must be written"),
    }
    start
}

fn watching() -> BridgeStart {
    let mut start = authorizing();
    assert!(matches!(
        start.handle(BridgeEvent::Authorized { success: true }),
        BridgeAction::RestrictAuthority { mode: 0o600 }
    ));
    match start.handle(BridgeEvent::Restricted) {
        BridgeAction::Spawn(plan) => {
            assert_eq!(plan.program, bytes("/usr/bin/Xwayland"));
            assert_eq!(
                shown(&plan.arguments),
                vec![
                    ":12",
                    "-auth",
                    "/run/bridge/Xauthority",
                    "-nolisten",
                    "tcp",
                    "-terminate",
                    "10",
                    "-shm",
                    "-geometry",
                    "640x480",
                ]
            );
            assert!(!plan.inherit_stdout && plan.inherit_stderr);
            assert_eq!(
                value(&plan, "WAYLAND_DISPLAY", None).as_deref(),
                Some("agent-seat-1-x")
            );
            assert_eq!(value(&plan, "DISPLAY", Some(":0")), None);
        }
        _ => panic!("the bridge must be started"),
    }
    assert!(matches!(start.handle(BridgeEvent::Spawned), BridgeAction::Clock));
    start
}

#[test]
fn a_bridge_is_ready_once_its_socket_is_there() {
    let mut start = watching();
    let early = || BridgeEvent::Elapsed { span: Duration::from_millis(4999) };
    assert!(matches!(start.handle(early()), BridgeAction::CheckSocket));
    assert_eq!(start.socket(), "/tmp/.X11-unix/X12");
    assert_eq!(start.display(), ":12");
    assert_eq!(start.directory(), "/run/bridge");
    assert!(matches!(
        start.handle(BridgeEvent::SocketSeen { exists: false }),
        BridgeAction::CheckExit
    ));
    assert!(matches!(
        start.handle(BridgeEvent::ExitSeen { exited: false }),
        BridgeAction::Pause { millis: 50 }
    ));
    assert!(matches!(start.handle(BridgeEvent::Paused), BridgeAction::Clock));
    start.handle(early());
    assert!(matches!(
        start.handle(BridgeEvent::SocketSeen { exists: true }),
        BridgeAction::Ready
    ));
    assert!(matches!(start.handle(BridgeEvent::Paused), BridgeAction::Ignore));
}

fn bridge_error(action: BridgeAction) -> String {
    match action {
        BridgeAction::Fail(error) => error.to_string(),
        _ => panic!("the bridge must fail"),
    }
}

#[test]
fn bridges_that_cannot_begin_have_nothing_to_remove() {
    assert_eq!(
        bridge_error(starting().handle(BridgeEvent::XwaylandFound { path: None })),
        "XWayland bridge failure: XWayland is not installed for compatibility fallback"
    );
    let mut start = starting();
    start.handle(BridgeEvent::XwaylandFound { path: Some(bytes("x")) });
    assert_eq!(
        bridge_error(start.handle(BridgeEvent::DisplayPicked { display: None })),
        "XWayland bridge failure: no free X display number for the compatibility bridge"
    );
    let error = String::from("why");
    assert_eq!(
        bridge_error(found().handle(BridgeEvent::CreateFailed { error })),
        "XWayland bridge failure: could not create XWayland runtime directory: why"
    );
}

#[test]
fn bridges_that_fail_remove_their_directory() {
    let removed = |start: &mut BridgeStart, event: BridgeEvent| {
        assert!(matches!(start.handle(event), BridgeAction::RemoveDirectory));
        bridge_error(start.handle(BridgeEvent::Removed))
    };
    let error = || String::from("why");
    let mut start = found();
    start.handle(BridgeEvent::Created);
    assert_eq!(
        removed(&mut start, BridgeEvent::RestrictFailed { error: error() }),
        "XWayland bridge failure: could not restrict XWayland runtime directory: why"
    );
    assert_eq!(
        removed(&mut authorizing(), BridgeEvent::AuthorizeFailed { error: error() }),
        "XWayland authority failure: could not create XWayland authority file: why"
    );
    assert_eq!(
        removed(&mut authorizing(), BridgeEvent::Authorized { success: false }),
        "XWayland authority failure: xauth could not create credentials for display :12"
    );
    let mut start = authorizing();
    start.handle(BridgeEvent::Authorized { success: true });
    assert_eq!(
        removed(&mut start, BridgeEvent::RestrictFailed { error: error() }),
        "XWayland authority failure: could not restrict XWayland authority file: why"
    );
    let mut start = authorizing();
    start.handle(BridgeEvent::Authorized { success: true });
    start.handle(BridgeEvent::Restricted);
    assert_eq!(
        removed(&mut start, BridgeEvent::SpawnFailed { error: error() }),
        "XWayland bridge failure: could not start XWayland compatibility bridge: why"
    );
    let mut start = watching();
    start.handle(BridgeEvent::Elapsed { span: Duration::ZERO });
    start.handle(BridgeEvent::SocketSeen { exists: false });
    assert_eq!(
        removed(&mut start, BridgeEvent::ExitSeen { exited: true }),
        "XWayland bridge failure: XWayland compatibility bridge exited during startup"
    );
    let mut start = watching();
    assert!(matches!(
        start.handle(BridgeEvent::Elapsed { span: Duration::from_secs(5) }),
        BridgeAction::StopChild
    ));
    assert_eq!(
        removed(&mut start, BridgeEvent::Stopped),
        "XWayland bridge failure: XWayland compatibility bridge did not create its X socket"
    );
}

#[test]
fn bridges_are_stopped_once() {
    let mut bridge = XwaylandBridge::new(
        7,
        String::from("/run/bridge"),
        String::from(":12"),
        String::from("/run/bridge/Xauthority"),
    );
    assert_eq!(bridge.display(), ":12");
    assert_eq!(bridge.xauthority(), "/run/bridge/Xauthority");
    let mut command = LaunchConfig::new(bytes("demo")).command();
    bridge.configure_command(&mut command);
    assert_eq!(value(&command, "DISPLAY", None).as_deref(), Some(":12"));
    assert_eq!(value(&command, "WAYLAND_DISPLAY", Some("wayland-0")), None);
    assert_eq!(bridge.stop(), (Some(7), Some(String::from("/run/bridge"))));
    assert_eq!(bridge.stop(), (None, Some(String::from("/run/bridge"))));
    assert!(bridge.take_child().is_err());
    bridge.release_directory();
    assert_eq!(bridge.stop(), (None, None));
    assert_eq!(
        reaper_error("no threads").to_string(),
        "XWayland bridge failure: could not start XWayland reaper: no threads"
    );
}

#[test]
fn seats_configure_processes() {
    let seat = AgentSeat::new(String::from("agent-seat-1-x"), String::from("/run"));
    let mut command = LaunchConfig::new(bytes("demo")).command();
    seat.configure_command(&mut command);
    assert_eq!(value(&command, "WAYLAND_DISPLAY", None).as_deref(), Some("agent-seat-1-x"));
    assert_eq!(seat.runtime_dir(), "/run");
}

#[test]
fn harnesses_speak_for_their_seat() {
    let harness = ComputerUse::new();
    let mut seat = AgentSeat::new(String::from("agent-seat-1-x"), String::from("/run"));
    assert_eq!(harness.socket_name(&seat), "agent-seat-1-x");
    assert!(!seat.is_stopping());
    let mut teardown = harness.close(&mut seat);
    assert!(seat.is_stopping());
    assert!(matches!(teardown.next(&mut seat), TeardownAction::RemoveSocket));
}

fn controlled_seat_app() -> SeatApp<()> {
    let mut app: SeatApp<()> = SeatApp::new(3, Conn::new());
    let mut input = InputState::new();
    input.pointer = Some(5);
    input.keyboard = Some(6);
    input.focused_surface = Some(11);
    input.pointer_focus = Some(11);
    app.conn.input = input;
    app
}

#[test]
fn controlled_applications_inject_through_their_connection() {
    let app = controlled_seat_app();
    let controlled = ControlledApp::new("child", 10, 4, Transport::Xwayland);
    let mut input = app.conn.input;
    let mut run = controlled.click(&app, 256, 0, PointerButton::Middle, 1);
    let mut opcodes = Vec::new();
    loop {
        match run.next(&mut input, 0) {
            Command::Send { opcode, args, .. } => {
                if opcode == 3 {
                    assert!(format!("{args:?}").contains("Uint(274)"));
                }
                opcodes.push(opcode);
            }
            Command::Finished(result) => {
                assert_eq!(result, Ok(()));
                break;
            }
            _ => {}
        }
    }
    assert_eq!(opcodes, vec![2, 5, 3, 5, 3, 5]);

    let failing = |mut run: agent_seat_linux::run::Injection| {
        let mut input = app.conn.input;
        loop {
            if let Command::Finished(result) = run.next(&mut input, 0) {
                return result;
            }
        }
    };
    let unread = Layout::Unreadable(String::from("no keymap"));
    let no_keymap = Err(String::from("no keymap"));
    assert_eq!(failing(controlled.press_key(&app, "a", &unread)), no_keymap);
    assert_eq!(failing(controlled.type_text(&app, "a", &vec![0x61], &unread)), no_keymap);
    assert_eq!(
        failing(controlled.click_with_modifiers(&app, 0, 0, PointerButton::Left, 1, "ctrl", &unread)),
        no_keymap
    );
    let mut input = app.conn.input;
    let mut run = controlled.scroll(&app, 0, 0, 0, 30);
    match run.next(&mut input, 9) {
        Command::Send { target: 5, opcode: 4, args } => {
            assert_eq!(args, vec![EventArg::Uint(9), EventArg::Uint(0), EventArg::Fixed(30 * 256)]);
        }
        _ => panic!("the scroll must be sent"),
    }
    assert!(matches!(run.next(&mut input, 9), Command::Send { target: 5, opcode: 5, .. }));
    assert!(matches!(run.next(&mut input, 9), Command::Finished(Ok(()))));
    assert_eq!(failing(controlled.drag(&app, 0, 0, &vec![(1, 1)])), Ok(()));
    assert_eq!(failing(app.inject_key_raw(9, true)), Ok(()));
}

#[test]
fn stopping_an_application_twice_is_safe() {
    let mut controlled = ControlledApp::new("child", 10, 4, Transport::Xwayland);
    assert_eq!(controlled.pid(), 10);
    assert_eq!(controlled.app(), 4);
    assert_eq!(controlled.transport(), Transport::Xwayland);
    assert_eq!(controlled.stop(), Some("child"));
    assert_eq!(controlled.stop(), None);
    assert_eq!(controlled.pid(), 10);
}

#[test]
fn failed_injections_become_harness_errors() {
    assert!(completed(Ok(())).is_ok());
    let error = completed(Err(String::from("gone"))).unwrap_err();
    assert_eq!(error.to_string(), "input injection failure: gone");
    assert!(matches!(error.source(), Some(SeatError::Input(m)) if m == "gone"));
}
