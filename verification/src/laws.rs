//! What holds of a proxied connection as a whole.
use crate::forward::CreatedTwin;
use crate::interfaces::{KnownInterface, Role};
use crate::proxy::{AdvertisedGlobal, Argument, ConnView, MessageView, UpstreamObject};
use vstd::prelude::*;

verus! {

// ---------------------------------------------------------------------------
// The two numberings
// ---------------------------------------------------------------------------

/// Whether neither of two objects has a partner yet.
pub open spec fn are_fresh<F>(v: ConnView<F>, server: u64, upstream: UpstreamObject) -> bool {
    !v.s2u.contains_key(server) && !v.u2s.contains_key(upstream.handle)
}

/// Whether each of a list of twins is fresh once those before it are paired.
pub open spec fn are_fresh_twins<F>(v: ConnView<F>, twins: Seq<CreatedTwin>) -> bool
    decreases twins.len(),
{
    twins.len() > 0 ==> {
        &&& are_fresh_twins(v, twins.drop_last())
        &&& are_fresh(
            v.twins_linked(twins.drop_last()),
            twins.last().server,
            twins.last().upstream,
        )
    }
}

/// The numberings agree from the start, and pairing two fresh objects keeps
/// them so.
pub proof fn law_linking_keeps_pairing<F>(v: ConnView<F>, server: u64, upstream: UpstreamObject)
    requires
        v.paired(),
        are_fresh(v, server, upstream),
    ensures
        ConnView::<F>::fresh().paired(),
        v.linked(server, upstream).paired(),
        v.linked(server, upstream).s2u[server] == upstream,
        v.linked(server, upstream).u2s[upstream.handle] == server,
{
}

/// Forgetting an object, on either side and for whatever reason, keeps the
/// numberings in agreement.
pub proof fn law_unlinking_keeps_pairing<F>(
    v: ConnView<F>,
    server: u64,
    upstream: UpstreamObject,
    msg: MessageView<F>,
)
    requires
        v.paired(),
    ensures
        v.unpaired(server).untracked(server).paired(),
        v.without_server(server).paired(),
        v.unlinked_upstream(upstream).paired(),
        v.id_deleted(msg).paired(),
{
}

/// Forwarding a request keeps the numberings in agreement.
pub proof fn law_requests_keep_pairing<F>(
    v: ConnView<F>,
    role: Role,
    msg: MessageView<F>,
    child: Option<Role>,
    sent: Option<UpstreamObject>,
)
    requires
        v.paired(),
        sent matches Some(upstream) ==> crate::forward::new_ids(msg.args).len() > 0 ==> are_fresh(
            v,
            crate::forward::new_ids(msg.args)[0],
            upstream,
        ),
    ensures
        v.requested(role, msg).paired(),
        v.requested(role, msg).request_done(msg, child, sent).paired(),
{
    crate::forward::lemma_requests_keep_pairing(v, role, msg);
}

proof fn lemma_twins_keep_pairing<F>(v: ConnView<F>, twins: Seq<CreatedTwin>)
    requires
        v.paired(),
        are_fresh_twins(v, twins),
    ensures
        v.twins_linked(twins).paired(),
    decreases twins.len(),
{
    if twins.len() > 0 {
        lemma_twins_keep_pairing(v, twins.drop_last());
        law_linking_keeps_pairing(
            v.twins_linked(twins.drop_last()),
            twins.last().server,
            twins.last().upstream,
        );
    }
}

/// Forwarding an event keeps the numberings in agreement.
pub proof fn law_events_keep_pairing<F>(
    v: ConnView<F>,
    role: Role,
    msg: MessageView<F>,
    twins: Seq<CreatedTwin>,
)
    requires
        v.paired(),
        are_fresh_twins(v, twins),
    ensures
        v.serials_synced(role, msg).paired(),
        v.event_done(role, msg, twins).paired(),
{
    lemma_twins_keep_pairing(v, twins);
    let seen = v.twins_linked(twins).observed(role, msg);
    assert(seen.paired());
    match seen.finished_callback(role, msg) {
        Some(server) => {
            law_unlinking_keeps_pairing(seen, server, UpstreamObject { handle: 0, protocol_id: 0 }, msg);
        },
        None => {},
    }
}

/// An object that goes up comes down again as itself, and the other way
/// round.
pub proof fn law_objects_round_trip<F>(
    v: ConnView<F>,
    server: u64,
    upstream: u64,
    twins: Seq<CreatedTwin>,
)
    requires
        v.paired(),
    ensures
        server != 0 && v.s2u.contains_key(server) && v.s2u[server].handle != 0 ==> v.argument_down(
            v.argument_upstream(Argument::Object(server)),
            twins,
        ) == Argument::<F>::Object(server),
        upstream != 0 && v.u2s.contains_key(upstream) && v.u2s[upstream] != 0
            ==> v.argument_upstream(v.argument_down(Argument::Object(upstream), twins))
            == Argument::<F>::Object(upstream),
{
}

/// Everything but objects is forwarded untouched, and the null object stays
/// null.
pub proof fn law_other_arguments_are_untouched<F>(
    v: ConnView<F>,
    arg: Argument<F>,
    twins: Seq<CreatedTwin>,
)
    requires
        !(arg is NewId),
        arg is Object ==> arg == Argument::<F>::Object(0),
    ensures
        v.argument_upstream(arg) == arg,
        v.argument_down(arg, twins) == arg,
        v.deleted_argument(arg) == arg,
{
}

// ---------------------------------------------------------------------------
// Objects that are gone
// ---------------------------------------------------------------------------

/// A forgotten object has no role left: neither in the numberings, nor for
/// capture, nor for input.
pub proof fn law_forgotten_objects_have_no_role<F>(v: ConnView<F>, server: u64)
    ensures
        ({
            let left = v.without_server(server);
            &&& !left.s2u.contains_key(server)
            &&& !left.pools.contains_key(server)
            &&& !left.buffers.contains_key(server)
            &&& !left.surfaces.contains_key(server)
            &&& !left.pending.contains_key(server)
            &&& left.input.pointer != Some(server)
            &&& left.input.keyboard != Some(server)
            &&& left.input.text_input != Some(server)
            &&& left.input.focused_surface != Some(server)
            &&& left.input.pointer_focus != Some(server)
            &&& left.input.keyboard_focus != Some(server)
        }),
{
}

/// What a surface shows can still be read after the buffer and its pool are
/// destroyed.
pub proof fn law_attached_frame_survives_destruction<F>(
    v: ConnView<F>,
    surface: u64,
    buffer: u64,
    pool: u64,
)
    requires
        buffer != surface,
        pool != surface,
    ensures
        ({
            let shown = v.attached(surface, buffer);
            let after = shown.unpaired(buffer).untracked(buffer).unpaired(pool).untracked(pool);
            &&& shown.surfaces[surface].attached == v.readable(buffer)
            &&& after.surfaces.contains_key(surface)
            &&& after.surfaces[surface] == shown.surfaces[surface]
        }),
{
}

// ---------------------------------------------------------------------------
// Globals
// ---------------------------------------------------------------------------

/// Whether an interface has the description that the seat knows under some
/// name that may be advertised.
pub open spec fn is_known(interface: KnownInterface) -> bool {
    exists|wire: Seq<char>| #[trigger]
        crate::forward::advertisable(wire) && crate::interfaces::registered(wire) == Some(
            crate::interfaces::described(*interface.interface),
        )
}

/// Whether every advertised global has an interface that the seat knows and
/// that is not denied, described as its name and version say, at a version
/// that the seat knows.
pub open spec fn exposes_only_known<F>(v: ConnView<F>) -> bool {
    forall|name: u32| #[trigger]
        v.globals.contains_key(name) ==> {
            &&& is_known(v.globals[name].interface)
            &&& v.globals[name].interface.is_faithful()
            &&& !crate::interfaces::denied(v.globals[name].interface.name@)
            &&& v.globals[name].version <= v.globals[name].interface.version
        }
}

proof fn lemma_known_names_are_not_denied(wire: Seq<char>, name: Seq<char>, version: u32)
    requires
        crate::forward::advertisable(wire),
        crate::interfaces::registered(wire) == Some((name, version)),
    ensures
        !crate::interfaces::denied(name),
{
    if name != wire {
        assert(name == "xdg_wm_dialog_v1"@);
        reveal_strlit("xdg_wm_dialog_v1");
        reveal_strlit("zwp_linux_dmabuf_v1");
        reveal_strlit("ext_session_lock_manager_v1");
        reveal_strlit("wp_security_context_manager_v1");
        reveal_strlit("wp_drm_lease_device_v1");
        reveal_strlit("ext_transient_seat_manager_v1");
        reveal_strlit("zwp_input_method_manager_v2");
        reveal_strlit("zwp_keyboard_shortcuts_inhibit_manager_v1");
        reveal_strlit("zwp_xwayland_keyboard_grab_manager_v1");
        reveal_strlit("ext_data_control_manager_v1");
        reveal_strlit("ext_foreign_toplevel_list_v1");
        reveal_strlit("zxdg_exporter_v1");
        reveal_strlit("zxdg_exporter_v2");
        reveal_strlit("zxdg_importer_v1");
        reveal_strlit("zxdg_importer_v2");
        assert(name[0] == 'x');
        assert("zwp_linux_dmabuf_v1"@[0] == 'z');
        assert("ext_session_lock_manager_v1"@[0] == 'e');
        assert("wp_security_context_manager_v1"@[0] == 'w');
        assert("wp_drm_lease_device_v1"@[0] == 'w');
        assert("ext_transient_seat_manager_v1"@[0] == 'e');
        assert("zwp_input_method_manager_v2"@[0] == 'z');
        assert("zwp_keyboard_shortcuts_inhibit_manager_v1"@[0] == 'z');
        assert("zwp_xwayland_keyboard_grab_manager_v1"@[0] == 'z');
        assert("ext_data_control_manager_v1"@[0] == 'e');
        assert("ext_foreign_toplevel_list_v1"@[0] == 'e');
        assert("zxdg_exporter_v1"@[0] == 'z');
        assert("zxdg_exporter_v2"@[0] == 'z');
        assert("zxdg_importer_v1"@[0] == 'z');
        assert("zxdg_importer_v2"@[0] == 'z');
    }
}

/// Privileged interfaces are never advertised: a connection starts without
/// globals, advertising what the registry decision allows keeps every
/// advertised global known and harmless, and so does withdrawing one.
pub proof fn law_privileged_interfaces_stay_hidden<F>(
    v: ConnView<F>,
    msg: MessageView<F>,
    entry: AdvertisedGlobal,
    withdrawn: u32,
)
    requires
        exposes_only_known(v),
        crate::forward::announced(msg) matches Some((name, wire, version)) && {
            &&& crate::forward::advertisable(wire)
            &&& crate::interfaces::registered(wire) == Some(
                crate::interfaces::described(*entry.interface.interface),
            )
            &&& entry.interface.is_faithful()
            &&& entry.version == crate::forward::lower(version, entry.interface.version)
        },
    ensures
        exposes_only_known(ConnView::<F>::fresh()),
        exposes_only_known(v.advertised(crate::forward::announced(msg).unwrap().0, entry)),
        exposes_only_known(v.withdrawn(withdrawn)),
{
    let (name, wire, version) = crate::forward::announced(msg).unwrap();
    lemma_known_names_are_not_denied(wire, entry.interface.name@, entry.interface.version);
    assert(is_known(entry.interface));
}

// ---------------------------------------------------------------------------
// Serials
// ---------------------------------------------------------------------------

/// After an event with a serial, synthetic serials continue right behind it;
/// zero is passed over.
pub proof fn law_serials_stay_ahead<F>(
    v: ConnView<F>,
    role: Role,
    msg: MessageView<F>,
    serial: u32,
)
    requires
        crate::forward::carries_serial(role, msg.opcode),
        msg.args.len() > 0,
        msg.args[0] == Argument::<F>::Uint(serial),
    ensures
        serial < u32::MAX ==> v.serials_synced(role, msg).input.next_serial == serial + 1,
        v.serials_synced(role, msg).input.next_serial > 0,
{
}

// ---------------------------------------------------------------------------
// Surfaces
// ---------------------------------------------------------------------------

/// Whether no surface was committed later than the latest commit.
pub open spec fn commits_counted<F>(v: ConnView<F>) -> bool {
    forall|id: u64| #[trigger]
        v.surfaces.contains_key(id) ==> v.surfaces[id].last_commit <= v.commits
}

/// Input goes to the surface that was committed last, unless the keyboard is
/// focused somewhere.
pub proof fn law_input_follows_the_latest_commit<F>(
    v: ConnView<F>,
    surface: u64,
    target: Option<u64>,
)
    requires
        commits_counted(v),
        v.commits < u64::MAX,
        v.input.focused_surface is None,
    ensures
        commits_counted(ConnView::<F>::fresh()),
        commits_counted(v.committed(surface)),
        v.committed(surface).is_target(target) <==> target == Some(surface),
{
    let after = v.committed(surface);
    assert(after.surfaces.contains_key(surface));
    assert(after.surfaces[surface].last_commit == v.commits + 1);
    assert forall|id: u64| after.surfaces.contains_key(id) && id != surface implies after.surfaces[id].last_commit
        <= v.commits by {
        assert(v.surfaces.contains_key(id));
    }
    if after.is_target(target) {
        assert(after.surfaces.dom().contains(surface));
    }
}

/// A captured window is at least as large as any other, however often the
/// others are committed; among windows of the same size the one that is
/// committed most often is captured.
pub proof fn law_largest_window_is_captured<F>(v: ConnView<F>, surface: u64, other: u64)
    requires
        v.is_main(surface),
        v.shows(other),
    ensures
        v.shown_area(surface) >= v.shown_area(other),
        v.shown_area(surface) == v.shown_area(other) ==> v.surfaces[surface].commit_count
            >= v.surfaces[other].commit_count,
{
}

// ---------------------------------------------------------------------------
// Interfaces
// ---------------------------------------------------------------------------

/// Each role belongs to one interface, and every other interface has none.
pub proof fn law_roles_belong_to_one_interface(name: Seq<char>)
    ensures
        ({
            let role = crate::interfaces::role_of(name);
            &&& role == Role::Surface <==> name == "wl_surface"@
            &&& role == Role::ShmPool <==> name == "wl_shm_pool"@
            &&& role == Role::ShmBuffer <==> name == "wl_buffer"@
            &&& role == Role::DmaBufParams <==> name == "zwp_linux_buffer_params_v1"@
            &&& role == Role::Seat <==> name == "wl_seat"@
            &&& role == Role::Pointer <==> name == "wl_pointer"@
            &&& role == Role::Keyboard <==> name == "wl_keyboard"@
            &&& role == Role::TextInput <==> name == "zwp_text_input_v3"@
            &&& role == Role::Callback <==> name == "wl_callback"@
            &&& role == Role::Registry <==> name == "wl_registry"@
            &&& role == Role::Display <==> name == "wl_display"@
            &&& role != Role::DmaBufBuffer
        }),
{
    reveal_strlit("wl_surface");
    reveal_strlit("wl_shm_pool");
    reveal_strlit("wl_buffer");
    reveal_strlit("zwp_linux_buffer_params_v1");
    reveal_strlit("wl_seat");
    reveal_strlit("wl_pointer");
    reveal_strlit("wl_keyboard");
    reveal_strlit("zwp_text_input_v3");
    reveal_strlit("wl_callback");
    reveal_strlit("wl_registry");
    reveal_strlit("wl_display");
    assert("wl_surface"@.len() == 10 && "wl_pointer"@.len() == 10 && "wl_display"@.len() == 10);
    assert("wl_shm_pool"@.len() == 11 && "wl_keyboard"@.len() == 11 && "wl_callback"@.len() == 11
        && "wl_registry"@.len() == 11);
    assert("wl_buffer"@.len() == 9 && "wl_seat"@.len() == 7 && "zwp_text_input_v3"@.len() == 17
        && "zwp_linux_buffer_params_v1"@.len() == 26);
    assert("wl_surface"@[3] == 's' && "wl_pointer"@[3] == 'p' && "wl_display"@[3] == 'd');
    assert("wl_shm_pool"@[3] == 's' && "wl_keyboard"@[3] == 'k' && "wl_callback"@[3] == 'c'
        && "wl_registry"@[3] == 'r');
}

/// The interfaces that are withheld are these, and no others; of those that
/// the seat knows, only GPU buffers are.
pub proof fn law_withheld_interfaces(name: Seq<char>)
    ensures
        crate::interfaces::denied(name) <==> set![
            "zwp_linux_dmabuf_v1"@,
            "ext_session_lock_manager_v1"@,
            "wp_security_context_manager_v1"@,
            "wp_drm_lease_device_v1"@,
            "ext_transient_seat_manager_v1"@,
            "zwp_input_method_manager_v2"@,
            "zwp_keyboard_shortcuts_inhibit_manager_v1"@,
            "zwp_xwayland_keyboard_grab_manager_v1"@,
            "ext_data_control_manager_v1"@,
            "ext_foreign_toplevel_list_v1"@,
            "zxdg_exporter_v1"@,
            "zxdg_exporter_v2"@,
            "zxdg_importer_v1"@,
            "zxdg_importer_v2"@,
        ].contains(name),
{
}

} // verus!
