use agent_seat_linux::bridge::{BridgeAction, XwaylandBridge};
use agent_seat_linux::seat::{
    choose_app, last_interactive, remove_marked, remove_same_arc, AppEntry, CleanupPaths, WaitStep,
};
use agent_seat_linux::seat_app::{injected, keymap_error, Action};
use agent_seat_linux::session::SetupAction;
use agent_seat_linux::slot::{available, seat, shutdown};
use agent_seat_linux::teardown::{Teardown, TeardownAction};
use agent_seat_linux::{AgentSeat, SeatApp, SeatError};
use std::collections::HashSet;
use std::sync::Arc;
use std::time::Duration;

fn fresh() -> AgentSeat {
    AgentSeat::new(String::from("agent-seat-1-x"), String::from("/run"))
}

#[test]
fn one_connection_cannot_remove_another_from_the_same_pid() {
    let stale = Arc::new("stale");
    let replacement = Arc::new("replacement");
    let mut apps = vec![stale.clone(), replacement.clone()];

    assert!(remove_same_arc(&mut apps, &stale));
    assert_eq!(apps.len(), 1);
    assert!(Arc::ptr_eq(&apps[0], &replacement));
    assert!(!remove_same_arc(&mut apps, &stale));
}

#[test]
fn equal_values_of_their_own_are_kept() {
    let mine = Arc::new(5);
    let other = Arc::new(5);
    let mut items = vec![mine.clone(), other.clone(), mine.clone()];
    assert!(remove_same_arc(&mut items, &mine));
    assert_eq!(items.len(), 1);
    assert!(Arc::ptr_eq(&items[0], &other));
}

#[test]
fn marked_items_are_removed_in_order() {
    let mut items = vec![1, 2, 3, 4, 5];
    assert!(remove_marked(&mut items, &vec![false, true, false, true, true]));
    assert_eq!(items, vec![1, 3]);
    assert!(!remove_marked(&mut items, &vec![false, false]));
    assert_eq!(items, vec![1, 3]);
    let mut none: Vec<u8> = vec![];
    assert!(!remove_marked(&mut none, &vec![]));
}

#[test]
fn cleanup_paths_are_exact_and_late_paths_are_returned() {
    let mut cleanup = CleanupPaths::default();
    assert!(cleanup.register(b"cleanup-root/profile".to_vec()).is_none());
    assert_eq!(cleanup.close(), vec![b"cleanup-root/profile".to_vec()]);
    let late = cleanup.register(b"cleanup-root/late-profile".to_vec());
    assert_eq!(late.expect("closed registry"), b"cleanup-root/late-profile".to_vec());
    assert!(cleanup.close().is_empty());
}

#[test]
fn an_application_hands_its_directories_out_once() {
    let mut app: SeatApp<()> = SeatApp::new(3, agent_seat_linux::proxy::Conn::new());
    assert!(app.add_cleanup_path(b"a".to_vec()).is_none());
    assert!(app.add_cleanup_path(vec![0xff]).is_none());
    assert_eq!(app.cleanup_registered_paths(), vec![b"a".to_vec(), vec![0xff]]);
    assert_eq!(app.add_cleanup_path(b"c".to_vec()), Some(b"c".to_vec()));
    assert!(app.cleanup_registered_paths().is_empty());
    app.send_action(Action::Ping);
    assert_eq!(app.actions.len(), 1);
    app.drain_actions();
    assert!(app.actions.is_empty());
    app.conn.client_accepted(8);
    assert_eq!(app.conn.close(), Some(8));
    assert!(app.conn.dead);
}

#[test]
fn connections_are_counted_and_found() {
    let mut seat = fresh();
    assert_eq!(seat.socket_name(), "agent-seat-1-x");
    assert_eq!(seat.app_count(), 0);
    assert!(seat.most_recent_app().is_none());
    assert!(seat.has_room());
    let first = seat.connect(10);
    let second = seat.connect(10);
    let third = seat.connect(20);
    assert_ne!(first.id, second.id);
    assert_eq!(seat.app_count(), 3);
    assert_eq!(seat.most_recent_app(), Some(third));
    assert_eq!(seat.connected_pids(), HashSet::from([10, 20]));
    assert_eq!(seat.candidates(10), vec![first, second]);
    assert_eq!(seat.connections(), vec![first, second, third]);

    // The last one with a window is preferred, else the last one is taken.
    assert_eq!(seat.app(10, true, |id| id == first.id), Some(first.id));
    assert_eq!(seat.app(10, true, |_| true), Some(second.id));
    assert_eq!(seat.app(10, true, |_| false), Some(second.id));
    assert_eq!(seat.app(99, true, |_| true), None);
}

#[test]
fn bindings_pin_a_connection() {
    let mut seat = fresh();
    let first = seat.connect(10);
    let second = seat.connect(10);
    seat.bind_app(first);
    assert_eq!(seat.bound_app(10), Some(first.id));
    assert_eq!(seat.app(10, true, |_| true), Some(first.id));
    assert_eq!(seat.app(10, false, |_| true), Some(second.id));
    seat.bind_app_for_pid(77, second);
    assert_eq!(seat.app(77, true, |_| false), Some(second.id));

    // Removing one connection leaves the other and its binding.
    seat.remove_app(first.id, &HashSet::from([first.id, second.id]));
    assert_eq!(seat.connections(), vec![second]);
    assert_eq!(seat.bound_app(10), None);
    assert_eq!(seat.bound_app(77), Some(second.id));

    // Bindings to what has ceased to exist go too.
    seat.bind_app_for_pid(5, AppEntry { id: 400, pid: 5 });
    seat.remove_app(first.id, &HashSet::from([second.id]));
    assert_eq!(seat.bound_app(5), None);
    assert_eq!(seat.bound_app(77), Some(second.id));
}

#[test]
fn new_windows_are_looked_for_among_newcomers() {
    let mut seat = fresh();
    let old = seat.connect(1);
    let before = seat.connected_pids();
    let helper = seat.connect(2);
    let window = seat.connect(2);
    assert_eq!(seat.new_candidates(&before), vec![helper, window]);
    assert_eq!(seat.new_capturable_app(&before, |_| true), Some(window));
    assert_eq!(seat.new_capturable_app(&before, |id| id == helper.id), Some(helper));
    assert_eq!(seat.new_capturable_app(&before, |id| id == old.id), None);

    let second = Duration::from_secs(1);
    let wait = |elapsed: Duration, found: bool| {
        seat.wait_new_capturable_app(&before, &elapsed, &second, |_| found)
    };
    assert!(matches!(wait(Duration::ZERO, true), WaitStep::Found(app) if app == window));
    assert!(matches!(wait(Duration::from_millis(999), false), WaitStep::Again { millis: 50 }));
    assert!(matches!(wait(second, true), WaitStep::TimedOut));
}

#[test]
fn the_last_candidate_that_passes_wins() {
    let apps = vec![AppEntry { id: 1, pid: 1 }, AppEntry { id: 2, pid: 1 }];
    assert_eq!(last_interactive(&apps, &vec![true, false]), Some(apps[0]));
    assert_eq!(last_interactive(&apps, &vec![false, false]), None);
    assert_eq!(choose_app(Some(9), &apps, &vec![true, true]), Some(9));
    assert_eq!(choose_app(None, &apps, &vec![false, false]), Some(2));
    assert_eq!(choose_app(None, &vec![], &vec![]), None);
}

fn steps(teardown: &mut Teardown, seat: &mut AgentSeat) -> Vec<String> {
    let mut log = Vec::new();
    loop {
        match teardown.next(seat) {
            TeardownAction::RemoveSocket => log.push(String::from("socket")),
            TeardownAction::CloseConnections(apps) => log.push(format!("close {}", apps.len())),
            TeardownAction::JoinAccept => log.push(String::from("accept")),
            TeardownAction::JoinProxies => log.push(String::from("proxies")),
            TeardownAction::JoinBridges => log.push(String::from("bridges")),
            TeardownAction::Done => return log,
        }
    }
}

#[test]
fn tearing_down_closes_before_it_waits() {
    let mut seat = fresh();
    let app = seat.connect(4);
    seat.bind_app(app);
    assert!(!seat.is_stopping());
    let mut teardown = seat.close();
    assert!(seat.is_stopping());
    assert_eq!(
        steps(&mut teardown, &mut seat),
        vec!["socket", "close 1", "accept", "close 1", "proxies", "bridges"]
    );
    assert_eq!(seat.app_count(), 0);
    assert_eq!(seat.bound_app(4), None);
}

#[test]
fn tearing_down_twice_removes_the_socket_once() {
    let mut seat = fresh();
    let mut first = seat.close();
    steps(&mut first, &mut seat);
    let mut second = seat.close();
    assert_eq!(
        steps(&mut second, &mut seat),
        vec!["close 0", "accept", "close 0", "proxies", "bridges"]
    );
    assert!(matches!(second.next(&mut seat), TeardownAction::Done));
}

#[test]
fn the_slot_is_filled_once_and_emptied_by_shutdown() {
    let mut slot: Option<Arc<u32>> = None;
    assert!(matches!(
        seat(&mut slot, || Err(SeatError::NoWaylandSession)),
        Err(SeatError::NoWaylandSession)
    ));
    assert!(slot.is_none());
    assert!(!available(&mut slot, || Err(SeatError::MissingRuntimeDir)));
    let first = seat(&mut slot, || Ok(Arc::new(1))).unwrap();
    let again = seat(&mut slot, || Ok(Arc::new(2))).unwrap();
    assert!(Arc::ptr_eq(&first, &again));
    assert!(available(&mut slot, || Err(SeatError::NoWaylandSession)));
    let taken = shutdown(&mut slot).unwrap();
    assert!(Arc::ptr_eq(&first, &taken));
    assert!(shutdown(&mut slot).is_none());
    assert!(available(&mut slot, || Ok(Arc::new(3))));
    assert_eq!(slot.as_deref(), Some(&3));
}

#[test]
fn a_seat_that_was_shut_down_is_gone() {
    let mut slot = Some(Arc::new(1));
    let first = shutdown(&mut slot).unwrap();
    let mut closed = fresh();
    let app = closed.connect(7);
    closed.bind_app(app);
    let mut teardown = closed.close();
    assert_eq!(steps(&mut teardown, &mut closed)[0], "socket");
    assert_eq!(closed.app_count(), 0);
    assert_eq!(closed.bound_app(7), None);
    assert!(!closed.forget_socket());
    assert!(shutdown(&mut slot).is_none());
    let second = seat(&mut slot, || Ok(Arc::new(1))).unwrap();
    assert!(!Arc::ptr_eq(&first, &second));
    assert!(slot.is_some());
}

#[test]
fn creating_a_seat_begins_with_the_session() {
    let text = |value: &str| Some(String::from(value));
    let (setup, action) = AgentSeat::create(text("/run/user/1"), text("wayland-0"), 42)
        .ok()
        .unwrap();
    assert!(matches!(action, SetupAction::CheckUpstream));
    assert!(setup.socket_name.starts_with("agent-seat-42-"));
    assert_eq!(setup.socket_name.len(), "agent-seat-42-".len() + 32);
    assert_eq!(setup.socket_path(), format!("/run/user/1/{}", setup.socket_name));
    assert_eq!(setup.session.upstream_socket, "/run/user/1/wayland-0");
    assert!(matches!(
        AgentSeat::create(None, text("wayland-0"), 1),
        Err(SeatError::MissingRuntimeDir)
    ));
    assert!(matches!(
        AgentSeat::create(text("/run"), text(""), 1),
        Err(SeatError::NoWaylandSession)
    ));
}

#[test]
fn bridges_are_started_and_adopted_by_the_seat() {
    let seat = fresh();
    let (_, small) = seat.start_xwayland_bridge(159, 800, 7, false);
    assert!(matches!(
        small,
        BridgeAction::Fail(SeatError::Xwayland(m)) if m == "bridge geometry must be at least 160x120"
    ));
    let (start, action) = seat.start_xwayland_bridge(160, 120, 7, false);
    assert!(matches!(action, BridgeAction::FindXwayland));
    assert!(start.directory().starts_with("/run/agent-seat-xwayland-7-"));
    assert!(start.authority().ends_with("/Xauthority"));

    let mut bridge = XwaylandBridge::new(
        "process",
        String::from("/run/bridge"),
        String::from(":10"),
        String::from("/run/bridge/Xauthority"),
    );
    let (child, directory) = seat.adopt_xwayland_bridge(&mut bridge).ok().unwrap();
    assert_eq!((child, directory.as_str()), ("process", "/run/bridge"));
    assert!(matches!(
        seat.adopt_xwayland_bridge(&mut bridge),
        Err(SeatError::Xwayland(m)) if m == "XWayland bridge process was already transferred"
    ));
}

#[test]
fn injections_report_input_errors() {
    assert!(injected(Ok(())).is_ok());
    assert!(matches!(injected(Err(String::from("x"))), Err(SeatError::Input(m)) if m == "x"));
    assert_eq!(keymap_error("bad fd"), "mmap of the keymap fd failed: bad fd");
}
