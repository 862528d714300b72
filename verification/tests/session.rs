use agent_seat_linux::clock::{is_empty_span, is_within, now_ms, stamp_ms};
use agent_seat_linux::identity::{
    bridge_directory_name, cookie_of, fresh_bridge_name, fresh_cookie, fresh_socket_name,
    seat_socket_name,
};
use agent_seat_linux::paths::{join_bytes, join_path};
use agent_seat_linux::process::{display_socket, find_executable, lock_path, pick_free_display};
use agent_seat_linux::proxy::{Argument, Conn};
use agent_seat_linux::serve::{
    accept_pause, handshake_read, registry_request, trusted_peer_pid, AcceptOutcome, ConnectStep,
    HandshakeStep, LoopAction, LoopEvent, ProxyLoop, ReadOutcome,
};
use agent_seat_linux::session::{
    is_stale_socket, peer_credentials, process_path, socket_owner, validate_peer, PeerCredentials,
    SeatSetup, Session, SetupAction, SetupEvent,
};
use agent_seat_linux::{SeatApp, SeatError};
use std::time::Duration;

fn text(value: &str) -> Option<String> {
    Some(String::from(value))
}

#[test]
fn display_picker_avoids_sockets_and_locks() {
    let names = vec![b"X10".to_vec()];
    assert_eq!(pick_free_display(&names, |_| false), Some(11));
    assert_eq!(pick_free_display(&names, |number| number == 11), Some(12));
    let odd = vec![b"X".to_vec(), b"Y10".to_vec(), vec![b'X', 0xff], b"X010".to_vec()];
    assert_eq!(pick_free_display(&odd, |_| false), Some(11));
    assert_eq!(pick_free_display(&vec![], |_| true), None);
    assert_eq!(pick_free_display(&vec![], |number| number < 98), Some(98));
    assert_eq!(lock_path(11), "/tmp/.X11-lock");
    assert_eq!(display_socket(11), "/tmp/.X11-unix/X11");
}

#[test]
fn executables_are_searched_in_order() {
    let path = Some(b"/bin:/usr/bin:".to_vec());
    let found = |files: &[&str]| {
        let wanted: Vec<Vec<u8>> = files.iter().map(|file| file.as_bytes().to_vec()).collect();
        find_executable(path.clone(), "tool", |candidate| wanted.contains(candidate))
    };
    assert_eq!(found(&["/usr/bin/tool", "/bin/tool"]), Some(b"/bin/tool".to_vec()));
    assert_eq!(found(&["/usr/bin/tool"]), Some(b"/usr/bin/tool".to_vec()));
    assert_eq!(found(&["tool"]), Some(b"tool".to_vec()));
    assert_eq!(found(&[]), None);
    assert_eq!(find_executable(None, "tool", |_| true), None);
    let absolute = find_executable(path.clone(), "/opt/tool", |candidate| {
        candidate == &b"/opt/tool".to_vec()
    });
    assert_eq!(absolute, Some(b"/opt/tool".to_vec()));
}

#[test]
fn names_go_below_directories() {
    assert_eq!(join_path("/run", "a"), "/run/a");
    assert_eq!(join_path("/run/", "a"), "/run/a");
    assert_eq!(join_path("", "a"), "a");
    assert_eq!(join_path("/run", "/a"), "/a");
    assert_eq!(join_bytes(&b"/run".to_vec(), &b"/a".to_vec()), b"/a".to_vec());
    assert_eq!(join_bytes(&b"/".to_vec(), &b"a".to_vec()), b"/a".to_vec());
    assert_eq!(join_bytes(&vec![], &b"a".to_vec()), b"a".to_vec());
}

#[test]
fn the_session_is_found_by_its_variables() {
    let found = Session::discover(text("/run/user/1"), text("wayland-1")).unwrap();
    assert_eq!(found.upstream_socket, "/run/user/1/wayland-1");
    let absolute = Session::discover(text("/run/user/1"), text("/tmp/way")).unwrap();
    assert_eq!(absolute.upstream_socket, "/tmp/way");
    assert_eq!(absolute.runtime_dir, "/run/user/1");
    for runtime in [None, text("")] {
        assert!(matches!(
            Session::discover(runtime, text("wayland-1")),
            Err(SeatError::MissingRuntimeDir)
        ));
    }
    for display in [None, text("")] {
        assert!(matches!(
            Session::discover(text("/run"), display),
            Err(SeatError::NoWaylandSession)
        ));
    }
}

#[test]
fn sockets_tell_their_owner() {
    assert_eq!(socket_owner(&b"agent-seat-77-abc".to_vec()), Some(77));
    assert_eq!(socket_owner(&b"agent-seat-77".to_vec()), Some(77));
    assert_eq!(socket_owner(&b"agent-seat-xwayland-77-abc".to_vec()), None);
    assert_eq!(socket_owner(&b"agent-seat-".to_vec()), None);
    assert_eq!(socket_owner(&b"wayland-0".to_vec()), None);
    assert_eq!(socket_owner(&vec![0xff]), None);
    let name = b"agent-seat-77-abc".to_vec();
    assert!(is_stale_socket(&name, 1, |_| false));
    assert!(!is_stale_socket(&name, 1, |pid| pid == 77));
    assert!(!is_stale_socket(&name, 77, |_| false));
    assert!(!is_stale_socket(&b"other".to_vec(), 1, |_| false));
    assert_eq!(process_path(77), "/proc/77");
}

#[test]
fn seat_sockets_tell_who_opened_them() {
    assert_eq!(socket_owner(&seat_socket_name(4242, 17).into_bytes()), Some(4242));
    assert_eq!(socket_owner(&fresh_socket_name(u32::MAX).into_bytes()), Some(u32::MAX));
    assert_eq!(socket_owner(&bridge_directory_name(4242, 17).into_bytes()), None);
}

fn setup() -> (SeatSetup, SetupAction) {
    let session = Session::discover(text("/run"), text("wayland-0")).unwrap();
    SeatSetup::begin(session, String::from("agent-seat-1-x"))
}

#[test]
fn a_seat_is_opened_step_by_step() {
    let (mut setup, first) = setup();
    assert!(matches!(first, SetupAction::CheckUpstream));
    assert!(matches!(
        setup.handle(SetupEvent::UpstreamSeen { exists: true }),
        SetupAction::SweepStale
    ));
    assert!(matches!(setup.handle(SetupEvent::Bound), SetupAction::Ignore));
    assert!(matches!(setup.handle(SetupEvent::Swept), SetupAction::ClearPath));
    assert!(matches!(setup.handle(SetupEvent::Cleared), SetupAction::Bind));
    assert!(matches!(setup.handle(SetupEvent::Bound), SetupAction::Restrict { mode: 0o600 }));
    assert!(matches!(setup.handle(SetupEvent::Restricted), SetupAction::Unblock));
    assert!(matches!(setup.handle(SetupEvent::Unblocked), SetupAction::Ready));
    assert!(matches!(setup.handle(SetupEvent::Unblocked), SetupAction::Ignore));
}

#[test]
fn a_seat_that_cannot_be_opened_leaves_no_socket() {
    let refused = |action: SetupAction| match action {
        SetupAction::Fail(SeatError::SocketCreate(message)) => message,
        _ => panic!("the setup must fail"),
    };
    let (mut one, _) = setup();
    assert!(matches!(
        one.handle(SetupEvent::UpstreamSeen { exists: false }),
        SetupAction::Fail(SeatError::NoWaylandSession)
    ));
    let bound = || {
        let (mut setup, _) = setup();
        setup.handle(SetupEvent::UpstreamSeen { exists: true });
        setup.handle(SetupEvent::Swept);
        setup.handle(SetupEvent::Cleared);
        setup
    };
    let error = || String::from("why");
    assert_eq!(
        refused(bound().handle(SetupEvent::BindFailed { error: error() })),
        "could not bind the agent seat socket: why"
    );
    let mut two = bound();
    two.handle(SetupEvent::Bound);
    assert!(matches!(
        two.handle(SetupEvent::RestrictFailed { error: error() }),
        SetupAction::Discard
    ));
    assert_eq!(
        refused(two.handle(SetupEvent::Discarded)),
        "could not restrict the agent seat socket permissions: why"
    );
    let mut three = bound();
    three.handle(SetupEvent::Bound);
    three.handle(SetupEvent::Restricted);
    assert!(matches!(
        three.handle(SetupEvent::UnblockFailed { error: error() }),
        SetupAction::Discard
    ));
    assert_eq!(
        refused(three.handle(SetupEvent::Discarded)),
        "could not make the seat socket nonblocking: why"
    );
}

#[test]
fn peer_uid_mismatch_is_rejected() {
    let uid: u32 = 1000;
    let credentials = PeerCredentials { pid: 4321, uid };
    assert!(validate_peer(credentials, uid.wrapping_add(1)).is_err());
    assert_eq!(
        validate_peer(credentials, 1001).unwrap_err().to_string(),
        "peer credential failure: peer uid 1000 does not match agent-seat owner uid 1001"
    );
    assert_eq!(validate_peer(credentials, uid).ok(), Some(4321));
}

#[test]
fn peers_are_trusted_by_the_kernels_word() {
    let good = peer_credentials(None, 12, 12, 55, 7);
    assert_eq!(trusted_peer_pid(good, 7).ok(), Some(55));
    let foreign = peer_credentials(None, 12, 12, 55, 8);
    assert!(matches!(trusted_peer_pid(foreign, 7), Err(SeatError::PeerCredential(_))));
    let message = |result: Result<PeerCredentials, SeatError>| result.unwrap_err().to_string();
    assert_eq!(
        message(peer_credentials(text("bad"), 12, 12, 55, 7)),
        "peer credential failure: could not read SO_PEERCRED: bad"
    );
    for (length, pid) in [(11, 55), (12, 0), (12, -1)] {
        assert_eq!(
            message(peer_credentials(None, length, 12, pid, 7)),
            "peer credential failure: SO_PEERCRED returned invalid credentials"
        );
    }
    let unread = peer_credentials(text("bad"), 0, 12, 0, 0);
    assert!(trusted_peer_pid(unread, 0).unwrap_err().to_string().ends_with("bad"));
}

#[test]
fn accepting_pauses_where_nobody_came() {
    assert_eq!(accept_pause(AcceptOutcome::Accepted), None);
    assert_eq!(accept_pause(AcceptOutcome::WouldBlock), Some(20));
    assert_eq!(accept_pause(AcceptOutcome::Failed), Some(100));
}

#[test]
fn the_handshake_waits_for_globals() {
    let mut conn: Conn<()> = Conn::new();
    let request = registry_request::<()>(9);
    assert_eq!((request.sender, request.opcode), (9, 1));
    assert!(matches!(request.args.as_slice(), [Argument::NewId(0)]));
    assert!(matches!(
        conn.handshake(&Duration::from_secs(3)),
        HandshakeStep::Read { millis: 5 }
    ));
    assert!(matches!(
        conn.handshake(&Duration::from_millis(3001)),
        HandshakeStep::Fail(m) if m == "the compositor advertised no globals within 3s"
    ));
    let interface = agent_seat_linux::interfaces::by_name("wl_shm").unwrap();
    conn.advertised(
        1,
        agent_seat_linux::proxy::AdvertisedGlobal { global: 1, interface, version: 1 },
    );
    assert!(matches!(conn.handshake(&Duration::from_secs(9)), HandshakeStep::Accept));
    assert_eq!(handshake_read(ReadOutcome::Fine), Ok(()));
    assert_eq!(handshake_read(ReadOutcome::WouldBlock), Ok(()));
    assert_eq!(
        handshake_read(ReadOutcome::Lost),
        Err(String::from("lost the compositor connection during the registry handshake"))
    );
    let upstream = agent_seat_linux::proxy::UpstreamObject { handle: 2, protocol_id: 1 };
    conn.displays_known(3, upstream);
    assert_eq!(conn.map_object_server(2), 3);
}

#[test]
fn connection_errors_name_their_step() {
    for (step, name) in [
        (ConnectStep::AppSocket, "app socket"),
        (ConnectStep::UpstreamSocket, "upstream socket"),
        (ConnectStep::Upstream, "upstream"),
        (ConnectStep::Server, "server"),
        (ConnectStep::GetRegistry, "get_registry"),
        (ConnectStep::FlushGetRegistry, "flush get_registry"),
        (ConnectStep::InsertClient, "insert_client"),
        (ConnectStep::DisplayId, "display id"),
    ] {
        assert_eq!(step.error("why"), format!("{name}: why"));
    }
}

#[test]
fn a_round_serves_both_sides() {
    let mut app: SeatApp<()> = SeatApp::new(1, Conn::new());
    app.send_action(agent_seat_linux::seat_app::Action::Ping);
    let (mut served, first) = ProxyLoop::begin(false, false);
    assert_eq!(first, LoopAction::Poll { millis: 200 });
    let polled = LoopEvent::Polled { keys: vec![7, 2, 1] };
    assert_eq!(served.handle(&mut app, false, polled), LoopAction::DispatchServer);
    assert_eq!(
        served.handle(&mut app, false, LoopEvent::ServerDispatched { ok: true }),
        LoopAction::ReadUpstream
    );
    assert_eq!(
        served.handle(&mut app, false, LoopEvent::UpstreamRead { outcome: ReadOutcome::WouldBlock }),
        LoopAction::DispatchUpstream
    );
    assert_eq!(app.actions.len(), 1);
    assert_eq!(
        served.handle(&mut app, false, LoopEvent::UpstreamDispatched),
        LoopAction::Flush
    );
    assert!(app.actions.is_empty());
    assert_eq!(
        served.handle(&mut app, false, LoopEvent::Flushed),
        LoopAction::Poll { millis: 200 }
    );
    let nothing = LoopEvent::Polled { keys: vec![] };
    assert_eq!(served.handle(&mut app, false, nothing), LoopAction::Flush);
    assert_eq!(served.handle(&mut app, true, LoopEvent::Flushed), LoopAction::Exit);
    assert_eq!(served.handle(&mut app, false, LoopEvent::Flushed), LoopAction::Ignore);
}

#[test]
fn errors_of_either_side_end_the_loop() {
    let mut app: SeatApp<()> = SeatApp::new(1, Conn::new());
    let (mut served, _) = ProxyLoop::begin(false, false);
    served.handle(&mut app, false, LoopEvent::Polled { keys: vec![1] });
    assert_eq!(
        served.handle(&mut app, false, LoopEvent::ServerDispatched { ok: false }),
        LoopAction::Flush
    );
    assert!(app.conn.dead);
    assert_eq!(served.handle(&mut app, false, LoopEvent::Flushed), LoopAction::Exit);

    let mut app: SeatApp<()> = SeatApp::new(1, Conn::new());
    let (mut served, _) = ProxyLoop::begin(false, false);
    served.handle(&mut app, false, LoopEvent::Polled { keys: vec![2] });
    assert_eq!(
        served.handle(&mut app, false, LoopEvent::UpstreamRead { outcome: ReadOutcome::Lost }),
        LoopAction::DispatchUpstream
    );
    assert!(app.conn.dead);

    let (mut served, _) = ProxyLoop::begin(false, false);
    assert_eq!(served.handle(&mut app, false, LoopEvent::PollFailed), LoopAction::Exit);
    assert_eq!(ProxyLoop::begin(true, false).1, LoopAction::Exit);
    assert_eq!(ProxyLoop::begin(false, true).1, LoopAction::Exit);
}

#[test]
fn identifiers_are_written_in_full() {
    let id = 0x0123_4567_89ab_cdef_0011_2233_4455_6677;
    assert_eq!(
        seat_socket_name(9, id),
        "agent-seat-9-0123456789abcdef0011223344556677"
    );
    assert_eq!(
        bridge_directory_name(9, id),
        "agent-seat-xwayland-9-01234567-89ab-cdef-0011-223344556677"
    );
    assert_eq!(
        cookie_of(0, id),
        "000000000000000000000000000000000123456789abcdef0011223344556677"
    );
}

#[test]
fn names_of_different_identifiers_differ() {
    assert_ne!(seat_socket_name(1, 5), seat_socket_name(1, 6));
    assert_ne!(seat_socket_name(1, 1 << 127), seat_socket_name(11, 0));
}

#[test]
fn fresh_names_are_random_identifiers() {
    let name = fresh_socket_name(5);
    let digits: Vec<char> = name.strip_prefix("agent-seat-5-").unwrap().chars().collect();
    assert_eq!(digits.len(), 32);
    assert_eq!(digits[12], '4');
    assert!("89ab".contains(digits[16]));
    assert_ne!(name, fresh_socket_name(5));
    let bridge = fresh_bridge_name(5);
    assert_eq!(bridge.len(), "agent-seat-xwayland-5-".len() + 36);
    assert_eq!(fresh_cookie().len(), 64);
}

#[test]
fn spans_are_compared_to_the_nanosecond() {
    let second = Duration::from_secs(1);
    assert!(is_within(&Duration::from_nanos(999_999_999), &second));
    assert!(!is_within(&second, &second));
    assert!(is_empty_span(&Duration::ZERO));
    assert!(!is_empty_span(&Duration::from_nanos(1)));
}

#[test]
fn event_times_are_the_low_bits_of_the_milliseconds() {
    assert_eq!(stamp_ms(None), 0);
    assert_eq!(stamp_ms(Some(Duration::from_micros(1999))), 1);
    assert_eq!(stamp_ms(Some(Duration::from_millis(0x1_0000_0005))), 5);
    let before = std::time::UNIX_EPOCH.elapsed().unwrap().as_millis() as u32;
    let now = now_ms();
    let after = std::time::UNIX_EPOCH.elapsed().unwrap().as_millis() as u32;
    assert!(now.wrapping_sub(before) <= after.wrapping_sub(before));
}
