use agent_seat_linux::forward::{
    display_error, ChildInterface, CreatedTwin, EventStep, RegistryStep, RequestStep, SenderInfo,
};
use agent_seat_linux::interfaces::Role;
use agent_seat_linux::proxy::{
    retain_shm_frame, AdvertisedGlobal, Argument, BufferKind, Conn, Message, ShmFrame,
    UpstreamObject,
};
use std::sync::Arc;

type Fd = &'static str;

fn upstream(handle: u64, protocol_id: u32) -> UpstreamObject {
    UpstreamObject { handle, protocol_id }
}

fn message(sender: u64, opcode: u16, args: Vec<Argument<Fd>>) -> Message<Fd> {
    Message { sender, opcode, args }
}

fn info(version: u32, child: Option<&'static str>) -> Option<SenderInfo> {
    Some(SenderInfo { version, child: child.map(|name| ChildInterface { name, version: 9 }) })
}

fn text(value: &str) -> Argument<Fd> {
    Argument::Str(Some(Arc::new(value.as_bytes().to_vec())))
}

fn shown(args: &[Argument<Fd>]) -> String {
    let mut parts = Vec::new();
    for arg in args {
        parts.push(match arg {
            Argument::Int(v) => format!("i{v}"),
            Argument::Uint(v) => format!("u{v}"),
            Argument::Fixed(v) => format!("f{v}"),
            Argument::Str(None) => String::from("s-"),
            Argument::Str(Some(v)) => format!("s{}", String::from_utf8_lossy(v)),
            Argument::Array(v) => format!("a{}", v.len()),
            Argument::Object(v) => format!("o{v}"),
            Argument::NewId(v) => format!("n{v}"),
            Argument::Fd(v) => format!("fd{v}"),
        });
    }
    parts.join(" ")
}

/// Forward a request that creates an object.
fn create(
    conn: &mut Conn<Fd>,
    role: Role,
    msg: Message<Fd>,
    child: &'static str,
    twin: UpstreamObject,
) -> Option<Role> {
    match conn.begin_request(role, &msg, info(4, Some(child))) {
        RequestStep::Send { message: _, child } => {
            conn.finish_request(&msg, child.map(|spec| spec.role), Some(twin))
        }
        _ => panic!("the request must be forwarded"),
    }
}

#[test]
fn attached_shm_frame_survives_protocol_buffer_destruction() {
    let buffer = BufferKind::Shm(ShmFrame {
        fd: Arc::new("/dev/zero"),
        pool_size: 4096,
        offset: 0,
        width: 16,
        height: 16,
        stride: 64,
        format: 1,
    });

    let retained = retain_shm_frame(&buffer).expect("shm buffer is retainable");
    drop(buffer);

    assert_eq!(*retained.fd, "/dev/zero");
    assert_eq!(retained.pool_size, 4096);
    assert_eq!((retained.width, retained.height), (16, 16));
}

#[test]
fn requests_are_rewritten_for_the_compositor() {
    let mut conn: Conn<Fd> = Conn::new();
    conn.link(1, upstream(101, 1));
    conn.link(2, upstream(102, 2));
    let msg = message(
        1,
        3,
        vec![
            Argument::Int(-1),
            Argument::Uint(7),
            Argument::Fixed(256),
            text("x"),
            Argument::Str(None),
            Argument::Array(Arc::new(vec![1, 2])),
            Argument::Object(2),
            Argument::Object(0),
            Argument::Object(99),
            Argument::Fd(Arc::new("fd")),
        ],
    );
    match conn.begin_request(Role::Generic, &msg, info(3, None)) {
        RequestStep::Send { message, child } => {
            assert_eq!((message.sender, message.opcode), (101, 3));
            assert_eq!(shown(&message.args), "i-1 u7 f256 sx s- a2 o102 o0 o0 fdfd");
            assert!(child.is_none());
        }
        _ => panic!("the request must be forwarded"),
    }
    assert!(conn.finish_request(&msg, None, None).is_none());
}

#[test]
fn unknown_senders_and_untyped_objects_are_not_forwarded() {
    let mut conn: Conn<Fd> = Conn::new();
    let msg = message(1, 0, vec![]);
    assert!(matches!(conn.begin_request(Role::Generic, &msg, info(1, None)), RequestStep::Ignore));
    conn.link(1, upstream(101, 1));
    assert!(matches!(conn.begin_request(Role::Generic, &msg, None), RequestStep::Ignore));
    let untyped = message(1, 0, vec![Argument::NewId(5)]);
    assert!(matches!(
        conn.begin_request(Role::Generic, &untyped, info(1, None)),
        RequestStep::Untyped
    ));
    let null = message(1, 0, vec![Argument::NewId(0)]);
    assert!(matches!(
        conn.begin_request(Role::Generic, &null, info(1, None)),
        RequestStep::Send { child: None, .. }
    ));
}

#[test]
fn new_objects_are_paired_at_the_senders_version() {
    let mut conn: Conn<Fd> = Conn::new();
    conn.link(1, upstream(101, 1));
    let msg = message(1, 0, vec![Argument::NewId(8)]);
    match conn.begin_request(Role::Generic, &msg, info(4, Some("wl_surface"))) {
        RequestStep::Send { message, child } => {
            assert_eq!(shown(&message.args), "n0");
            let child = child.unwrap();
            assert!(child.role == Role::Surface);
            assert_eq!(child.version, 4);
        }
        _ => panic!("the request must be forwarded"),
    }
    // Sending failed: nothing is paired.
    assert!(conn.finish_request(&msg, Some(Role::Surface), None).is_none());
    assert_eq!(conn.map_object_upstream(8), 0);
    let created = conn.finish_request(&msg, Some(Role::Surface), Some(upstream(108, 8)));
    assert!(created == Some(Role::Surface));
    assert_eq!(conn.map_object_upstream(8), 108);
    assert_eq!(conn.map_object_server(108), 8);
    assert!(conn.surfaces.contains_key(&8));
}

fn with_surface_and_pool() -> Conn<Fd> {
    let mut conn: Conn<Fd> = Conn::new();
    conn.link(1, upstream(101, 1));
    create(&mut conn, Role::Generic, message(1, 0, vec![Argument::NewId(10)]), "wl_surface", upstream(110, 10));
    create(
        &mut conn,
        Role::Generic,
        message(
            1,
            0,
            vec![Argument::NewId(20), Argument::Fd(Arc::new("pool")), Argument::Int(4096)],
        ),
        "wl_shm_pool",
        upstream(120, 20),
    );
    create(
        &mut conn,
        Role::ShmPool,
        message(
            20,
            0,
            vec![
                Argument::NewId(30),
                Argument::Int(64),
                Argument::Int(16),
                Argument::Int(8),
                Argument::Int(64),
                Argument::Uint(1),
            ],
        ),
        "wl_buffer",
        upstream(130, 30),
    );
    conn
}

#[test]
fn surfaces_show_the_buffer_that_was_attached() {
    let mut conn = with_surface_and_pool();
    let attach = |buffer: u64| {
        message(10, 1, vec![Argument::Object(buffer), Argument::Int(0), Argument::Int(0)])
    };
    conn.track_request(Role::Surface, &attach(30));
    conn.track_request(Role::Surface, &message(10, 6, vec![]));
    let state = &conn.surfaces[&10];
    assert_eq!(state.commit_count, 1);
    assert_eq!(state.last_commit, 1);
    let frame = state.attached.as_ref().unwrap();
    assert_eq!(
        (frame.offset, frame.width, frame.height, frame.stride, frame.format, frame.pool_size),
        (64, 16, 8, 64, 1, 4096)
    );
    assert_eq!(*frame.fd, "pool");

    // The buffer and its pool go; what is shown stays.
    assert!(conn.server_destroyed(30) == Some(upstream(130, 30)));
    assert!(conn.server_destroyed(20) == Some(upstream(120, 20)));
    assert!(conn.server_destroyed(20).is_none());
    assert!(conn.surfaces[&10].attached.is_some());
    assert!(conn.buffers.is_empty() && conn.shm_pools.is_empty());

    conn.track_request(Role::Surface, &attach(0));
    assert!(conn.surfaces[&10].attached.is_none());
}

#[test]
fn resized_pools_count_for_later_buffers() {
    let mut conn = with_surface_and_pool();
    conn.track_request(Role::ShmPool, &message(20, 2, vec![Argument::Int(8192)]));
    assert_eq!(conn.shm_pools[&20].size, 8192);
    assert!(matches!(&conn.buffers[&30], BufferKind::Shm(frame) if frame.pool_size == 4096));
}

#[test]
fn input_goes_to_the_surface_committed_last() {
    let mut conn = with_surface_and_pool();
    create(&mut conn, Role::Generic, message(1, 0, vec![Argument::NewId(11)]), "wl_surface", upstream(111, 11));
    let commit = |surface: u64| message(surface, 6, vec![]);
    for _ in 0..3 {
        conn.track_request(Role::Surface, &commit(10));
    }
    assert_eq!(conn.target_surface(), Some(10));
    conn.track_request(Role::Surface, &commit(11));
    assert_eq!(conn.target_surface(), Some(11));
    conn.input.focused_surface = Some(10);
    assert_eq!(conn.target_surface(), Some(10));
    let empty: Conn<Fd> = Conn::new();
    assert_eq!(empty.target_surface(), None);
}

#[test]
fn input_objects_are_noted_and_forgotten() {
    let mut conn: Conn<Fd> = Conn::new();
    conn.link(1, upstream(101, 1));
    for (id, name) in [(2, "wl_pointer"), (3, "wl_keyboard"), (4, "zwp_text_input_v3")] {
        create(&mut conn, Role::Seat, message(1, 0, vec![Argument::NewId(id)]), name, upstream(100 + id, id as u32));
    }
    assert_eq!(
        (conn.input.pointer, conn.input.keyboard, conn.input.text_input),
        (Some(2), Some(3), Some(4))
    );
    conn.track_request(Role::TextInput, &message(4, 1, vec![]));
    assert!(!conn.input.text_input_enabled);
    conn.track_request(Role::TextInput, &message(4, 7, vec![]));
    assert!(conn.input.text_input_enabled);
    assert_eq!(conn.input.text_input_commit_serial, 1);
    conn.unlink_server(4);
    assert_eq!(conn.input.text_input, None);
    assert!(!conn.input.text_input_enabled);
    assert_eq!(conn.input.text_input_commit_serial, 0);
    assert_eq!(conn.map_object_upstream(4), 0);
    conn.unlink_server(2);
    conn.unlink_server(3);
    assert_eq!((conn.input.pointer, conn.input.keyboard), (None, None));
}

#[test]
fn gpu_buffers_are_gathered_but_not_readable() {
    let mut conn: Conn<Fd> = Conn::new();
    let add = message(
        40,
        1,
        vec![
            Argument::Fd(Arc::new("plane")),
            Argument::Uint(0),
            Argument::Uint(16),
            Argument::Uint(256),
            Argument::Uint(3),
            Argument::Uint(7),
        ],
    );
    conn.track_request(Role::DmaBufParams, &add);
    let destroy = message(41, 0, vec![]);
    conn.track_request(Role::DmaBufParams, &destroy);
    assert!(!conn.dmabuf_pending.contains_key(&41));
    let pending = &conn.dmabuf_pending[&40];
    assert_eq!(pending.planes.len(), 1);
    assert_eq!((pending.planes[0].offset, pending.planes[0].stride), (16, 256));
    assert_eq!(pending.modifier, (3u64 << 32) | 7);
    let made = message(40, 3, vec![Argument::Int(4), Argument::Int(5), Argument::Uint(6), Argument::Uint(0)]);
    conn.track_created(Role::DmaBufBuffer, 50, &made);
    assert!(conn.dmabuf_pending.is_empty());
    assert!(retain_shm_frame(&conn.buffers[&50]).is_none());
}

#[test]
fn events_are_rewritten_for_the_application() {
    let mut conn: Conn<Fd> = Conn::new();
    conn.link(1, upstream(101, 1));
    conn.link(2, upstream(102, 2));
    let msg = message(101, 5, vec![Argument::Object(102), Argument::Object(0), Argument::Uint(3), Argument::NewId(200)]);
    // Without a client no twin can be made.
    match conn.begin_event(Role::Generic, &msg, info(7, Some("wl_data_offer")), 100) {
        EventStep::Create { twins } => assert!(twins.unwrap().upstream.is_empty()),
        _ => panic!("the event must be completed"),
    }
    conn.client_accepted(1);
    match conn.begin_event(Role::Generic, &msg, info(7, Some("wl_data_offer")), 100) {
        EventStep::Create { twins } => {
            let plan = twins.unwrap();
            assert_eq!(plan.upstream, vec![200]);
            assert_eq!(plan.spec.version, 7);
        }
        _ => panic!("the event must be completed"),
    }
    let twins = vec![CreatedTwin { upstream: upstream(200, 44), server: 50 }];
    let delivery = conn.complete_event(Role::Generic, &msg, &twins);
    assert_eq!((delivery.message.sender, delivery.message.opcode), (1, 5));
    assert_eq!(shown(&delivery.message.args), "o2 o0 u3 n50");
    assert!(delivery.destroy.is_none());
    assert_eq!(conn.map_object_server(200), 50);
    assert!(matches!(
        conn.begin_event(Role::Generic, &msg, None, 100),
        EventStep::Ignore
    ));
}

#[test]
fn released_ids_take_their_twin_along() {
    let mut conn: Conn<Fd> = Conn::new();
    conn.link(1, upstream(100, 1));
    conn.link(9, upstream(109, 33));
    let msg = message(100, 1, vec![Argument::Uint(33)]);
    match conn.begin_event(Role::Display, &msg, info(1, None), 100) {
        EventStep::Deleted { destroy, message } => {
            assert_eq!(destroy, Some(9));
            assert_eq!((message.sender, message.opcode), (1, 1));
            assert_eq!(shown(&message.args), "u33");
        }
        _ => panic!("the id must be released"),
    }
    assert_eq!(conn.map_object_upstream(9), 0);
    assert_eq!(conn.map_object_server(109), 0);
}

#[test]
fn finished_callbacks_are_destroyed() {
    let mut conn: Conn<Fd> = Conn::new();
    conn.link(6, upstream(106, 6));
    let msg = message(106, 0, vec![Argument::Uint(1)]);
    let delivery = conn.complete_event(Role::Callback, &msg, &vec![]);
    assert_eq!(delivery.destroy, Some(6));
    assert_eq!(delivery.message.sender, 6);
    assert_eq!(conn.map_object_server(106), 0);
}

#[test]
fn serials_follow_the_compositor() {
    let mut conn: Conn<Fd> = Conn::new();
    let mut seen = |role: Role, opcode: u16, serial: u32| {
        let msg = message(1, opcode, vec![Argument::Uint(serial)]);
        conn.begin_event(role, &msg, info(1, None), 100);
        conn.input.next_serial
    };
    assert_eq!(seen(Role::Pointer, 0, 40), 41);
    assert_eq!(seen(Role::Pointer, 2, 90), 41);
    assert_eq!(seen(Role::Keyboard, 4, 50), 51);
    assert_eq!(seen(Role::Keyboard, 0, 90), 51);
    assert_eq!(seen(Role::Generic, 0, 90), 51);
    assert_eq!(seen(Role::Pointer, 3, u32::MAX), 1);
}

#[test]
fn keyboard_events_tell_the_layout_and_the_focus() {
    let mut conn: Conn<Fd> = Conn::new();
    conn.link(7, upstream(107, 7));
    let keymap = message(1, 0, vec![Argument::Uint(1), Argument::Fd(Arc::new("keymap")), Argument::Uint(512)]);
    assert!(conn.keymap().is_err());
    conn.complete_event(Role::Keyboard, &keymap, &vec![]);
    let (fd, size) = conn.keymap().unwrap();
    assert_eq!((*fd, size), ("keymap", 512));
    let focus = |opcode: u16, surface: u64| {
        message(1, opcode, vec![Argument::Uint(9), Argument::Object(surface)])
    };
    conn.complete_event(Role::Keyboard, &focus(1, 107), &vec![]);
    assert_eq!(conn.input.focused_surface, Some(7));
    assert_eq!(conn.input.keyboard_focus, Some(7));
    conn.input.focused_surface = Some(8);
    conn.complete_event(Role::Keyboard, &focus(2, 107), &vec![]);
    assert_eq!(conn.input.focused_surface, Some(8));
    conn.input.focused_surface = Some(7);
    conn.complete_event(Role::Keyboard, &focus(2, 107), &vec![]);
    assert_eq!(conn.input.focused_surface, None);
    assert_eq!(conn.input.keyboard_focus, None);
}

#[test]
fn only_harmless_known_globals_are_advertised() {
    let mut conn: Conn<Fd> = Conn::new();
    let announce = |interface: Argument<Fd>, version: u32| {
        message(1, 0, vec![Argument::Uint(5), interface, Argument::Uint(version)])
    };
    for name in ["zwp_linux_dmabuf_v1", "ext_session_lock_manager_v1", "vendor_thing_v1"] {
        assert!(matches!(conn.registry_event(&announce(text(name), 1)), RegistryStep::Ignore));
    }
    assert!(matches!(
        conn.registry_event(&announce(Argument::Str(Some(Arc::new(vec![0xff]))), 1)),
        RegistryStep::Ignore
    ));
    assert!(matches!(conn.registry_event(&announce(Argument::Str(None), 1)), RegistryStep::Ignore));
    match conn.registry_event(&announce(text("wl_compositor"), 1000)) {
        RegistryStep::Advertise { name, interface, version } => {
            assert_eq!(name, 5);
            assert_eq!(interface.name, "wl_compositor");
            assert_eq!(version, interface.version);
            conn.advertised(name, AdvertisedGlobal { global: 70, interface, version });
        }
        _ => panic!("the compositor must be advertised"),
    }
    match conn.registry_event(&announce(text("wl_shm"), 1)) {
        RegistryStep::Advertise { version, .. } => assert_eq!(version, 1),
        _ => panic!("shared memory must be advertised"),
    }

    assert!(conn.bind(5, Some(3)).is_none());
    conn.registry_created(60);
    let plan = conn.bind(5, Some(3)).unwrap();
    assert_eq!((plan.message.sender, plan.message.opcode), (60, 0));
    assert_eq!(shown(&plan.message.args), "u5 swl_compositor u3 n0");
    assert_eq!(plan.version, 3);
    assert!(plan.role == Role::Generic);
    let fallback = conn.bind(5, None).unwrap();
    assert_eq!(fallback.version, fallback.interface.version);
    assert!(conn.bind(6, None).is_none());

    let gone = message(1, 1, vec![Argument::Uint(5)]);
    assert!(matches!(conn.registry_event(&gone), RegistryStep::Withdraw { global: 70 }));
    assert!(matches!(conn.registry_event(&gone), RegistryStep::Ignore));
    assert!(conn.bind(5, None).is_none());
}

#[test]
fn display_errors_are_read() {
    let msg = message(1, 0, vec![Argument::Object(3), Argument::Uint(7), text("bad")]);
    let (code, reason) = display_error(Role::Display, &msg).unwrap();
    assert_eq!(code, 7);
    assert_eq!(reason.unwrap().as_slice(), b"bad");
    assert!(display_error(Role::Generic, &msg).is_none());
}

#[test]
fn upstream_objects_can_go_first() {
    let mut conn: Conn<Fd> = Conn::new();
    conn.link(1, upstream(101, 1));
    conn.unlink_upstream(upstream(101, 1));
    assert_eq!(conn.map_object_upstream(1), 0);
    assert_eq!(conn.map_object_server(101), 0);
    conn.unlink_upstream(upstream(101, 1));
}
