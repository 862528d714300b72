//! What holds of forwarded messages, message by message.
use crate::forward::CreatedTwin;
use crate::input::InputState;
use crate::interfaces::Role;
use crate::proxy::{
    AdvertisedGlobal, Argument, BufferView, ConnView, DmaBufPlane, MessageView, PendingView,
    ShmFrame, ShmPool, UpstreamObject,
};
use std::sync::Arc;
use vstd::prelude::*;

verus! {

// ---------------------------------------------------------------------------
// Messages
// ---------------------------------------------------------------------------

/// A request goes upstream as it came: the same request of the sender's
/// partner, with the same arguments in the same places. Only objects are
/// renamed, and new objects are left for the compositor's side to number.
pub proof fn law_requests_keep_their_form<F>(v: ConnView<F>, msg: MessageView<F>)
    ensures
        ({
            let sent = v.request_upstream(msg);
            &&& sent.opcode == msg.opcode
            &&& sent.sender == v.s2u[msg.sender].handle
            &&& sent.args.len() == msg.args.len()
            &&& forall|i: int|
                0 <= i < msg.args.len() ==> match msg.args[i] {
                    Argument::Object(id) => #[trigger] sent.args[i] == Argument::<F>::Object(
                        if id != 0 && v.s2u.contains_key(id) {
                            v.s2u[id].handle
                        } else {
                            0
                        },
                    ),
                    Argument::NewId(_) => sent.args[i] == Argument::<F>::NewId(0),
                    other => sent.args[i] == other,
                }
        }),
{
}

/// A request is taken up exactly where its sender is known on both sides.
pub proof fn law_known_senders_are_heard<F>(
    v: ConnView<F>,
    msg: MessageView<F>,
    info: Option<crate::forward::SenderInfo>,
)
    ensures
        v.accepts_request(msg, info) <==> info is Some && v.s2u.contains_key(msg.sender),
{
}

/// Whether an argument announces an object.
pub open spec fn announces<F>(arg: Argument<F>) -> bool {
    arg matches Argument::NewId(id) && id != 0
}

/// The objects that a message creates are its new ids that are not null, each
/// of them, in the order in which they stand.
pub proof fn law_new_objects_are_announced_in_order<F>(args: Seq<Argument<F>>)
    ensures
        crate::forward::new_ids(args) == args.filter(
            |arg: Argument<F>| announces(arg),
        ).map_values(|arg: Argument<F>| arg->NewId_0),
    decreases args.len(),
{
    let holds = |arg: Argument<F>| announces(arg);
    let id = |arg: Argument<F>| arg->NewId_0;
    reveal(Seq::filter);
    if args.len() > 0 {
        law_new_objects_are_announced_in_order(args.drop_last());
        let before = args.drop_last().filter(holds);
        if holds(args.last()) {
            assert(args.filter(holds) == before.push(args.last()));
            assert(before.push(args.last()).map_values(id) =~= before.map_values(id).push(
                id(args.last()),
            ));
        } else {
            assert(args.filter(holds) == before);
        }
    }
    assert(crate::forward::new_ids(args) =~= args.filter(holds).map_values(id));
}

/// A new object of an event gets the first twin that was made for it, and
/// null where none was made.
pub proof fn law_new_objects_get_their_twins(twins: Seq<CreatedTwin>, id: u64)
    ensures
        forall|i: int|
            0 <= i < twins.len() && (#[trigger] twins[i]).upstream.handle == id && (forall|j: int|
                0 <= j < i ==> (#[trigger] twins[j]).upstream.handle != id)
                ==> crate::forward::twin_of(twins, id) == twins[i].server,
        (forall|i: int| 0 <= i < twins.len() ==> (#[trigger] twins[i]).upstream.handle != id)
            ==> crate::forward::twin_of(twins, id) == 0,
    decreases twins.len(),
{
    if twins.len() > 0 {
        let rest = twins.subrange(1, twins.len() as int);
        law_new_objects_get_their_twins(rest, id);
        assert forall|i: int|
            0 <= i < twins.len() && (#[trigger] twins[i]).upstream.handle == id && (forall|j: int|
                0 <= j < i ==> (#[trigger] twins[j]).upstream.handle != id) implies
            crate::forward::twin_of(twins, id) == twins[i].server by {
            if i > 0 {
                assert(twins[0].upstream.handle != id);
                assert(rest[i - 1] == twins[i]);
                assert forall|j: int| 0 <= j < i - 1 implies (#[trigger] rest[j]).upstream.handle
                    != id by {
                    assert(rest[j] == twins[j + 1]);
                }
            }
        }
        if forall|i: int| 0 <= i < twins.len() ==> (#[trigger] twins[i]).upstream.handle != id {
            assert(twins[0].upstream.handle != id);
            assert forall|i: int| 0 <= i < rest.len() implies (#[trigger] rest[i]).upstream.handle
                != id by {
                assert(rest[i] == twins[i + 1]);
            }
        }
    }
}

/// Completing an event pairs each twin with the object that it was made for,
/// the last one counting where there are several.
pub proof fn law_twins_become_partners<F>(v: ConnView<F>, twins: Seq<CreatedTwin>, i: int)
    requires
        0 <= i < twins.len(),
    ensures
        (forall|j: int|
            i < j < twins.len() ==> (#[trigger] twins[j]).upstream.handle
                != twins[i].upstream.handle) ==> v.twins_linked(twins).u2s.contains_key(
            twins[i].upstream.handle,
        ) && v.twins_linked(twins).u2s[twins[i].upstream.handle] == twins[i].server,
        (forall|j: int| i < j < twins.len() ==> (#[trigger] twins[j]).server != twins[i].server)
            ==> v.twins_linked(twins).s2u.contains_key(twins[i].server) && v.twins_linked(
            twins,
        ).s2u[twins[i].server] == twins[i].upstream,
    decreases twins.len(),
{
    let front = twins.drop_last();
    let last = twins[twins.len() - 1];
    assert(twins.last() == last);
    if i < twins.len() - 1 {
        law_twins_become_partners(v, front, i);
        assert(front[i] == twins[i]);
        assert forall|j: int| i < j < front.len() implies #[trigger] front[j] == twins[j] by {}
        if forall|j: int|
            i < j < twins.len() ==> (#[trigger] twins[j]).upstream.handle
                != twins[i].upstream.handle {
            assert(last.upstream.handle != twins[i].upstream.handle);
        }
        if forall|j: int| i < j < twins.len() ==> (#[trigger] twins[j]).server
            != twins[i].server {
            assert(last.server != twins[i].server);
        }
    }
}

/// Twins leave every other pair and all that is tracked alone.
pub proof fn law_twins_leave_others_alone<F>(
    v: ConnView<F>,
    twins: Seq<CreatedTwin>,
    server: u64,
    upstream: u64,
)
    ensures
        (forall|i: int| 0 <= i < twins.len() ==> (#[trigger] twins[i]).upstream.handle != upstream)
            ==> v.twins_linked(twins).u2s.contains_key(upstream) == v.u2s.contains_key(upstream)
            && v.twins_linked(twins).u2s[upstream] == v.u2s[upstream],
        (forall|i: int| 0 <= i < twins.len() ==> (#[trigger] twins[i]).server != server)
            ==> v.twins_linked(twins).s2u.contains_key(server) == v.s2u.contains_key(server)
            && v.twins_linked(twins).s2u[server] == v.s2u[server],
        v.twins_linked(twins).input == v.input,
        v.twins_linked(twins).surfaces == v.surfaces,
        v.twins_linked(twins).buffers == v.buffers,
        v.twins_linked(twins).pools == v.pools,
    decreases twins.len(),
{
    if twins.len() > 0 {
        let front = twins.drop_last();
        let last = twins[twins.len() - 1];
        assert(twins.last() == last);
        law_twins_leave_others_alone(v, front, server, upstream);
        assert forall|j: int| 0 <= j < front.len() implies #[trigger] front[j] == twins[j] by {}
        if forall|i: int|
            0 <= i < twins.len() ==> (#[trigger] twins[i]).upstream.handle != upstream {
            assert(last.upstream.handle != upstream);
        }
        if forall|i: int| 0 <= i < twins.len() ==> (#[trigger] twins[i]).server != server {
            assert(last.server != server);
        }
    }
}

/// An event reaches the application as it came: each argument in its place,
/// with objects renamed to the application's and new objects to their twins.
pub proof fn law_event_arguments_keep_their_form<F>(
    v: ConnView<F>,
    arg: Argument<F>,
    twins: Seq<CreatedTwin>,
)
    ensures
        match arg {
            Argument::Object(id) => v.argument_down(arg, twins) == Argument::<F>::Object(
                if id != 0 && v.u2s.contains_key(id) {
                    v.u2s[id]
                } else {
                    0
                },
            ) && v.deleted_argument(arg) == v.argument_down(arg, twins),
            Argument::NewId(id) => v.argument_down(arg, twins) == Argument::<F>::NewId(
                crate::forward::twin_of(twins, id),
            ) && v.deleted_argument(arg) == Argument::<F>::NewId(
                if id != 0 && v.u2s.contains_key(id) {
                    v.u2s[id]
                } else {
                    0
                },
            ),
            other => v.argument_down(arg, twins) == other && v.deleted_argument(arg) == other,
        },
{
}

// ---------------------------------------------------------------------------
// Pairs
// ---------------------------------------------------------------------------

/// Pairing two objects makes each the other's partner and moves no other
/// pair.
pub proof fn law_linking_makes_one_pair<F>(
    v: ConnView<F>,
    server: u64,
    upstream: UpstreamObject,
    other: u64,
)
    ensures
        ({
            let after = v.linked(server, upstream);
            &&& after.s2u.contains_key(server) && after.s2u[server] == upstream
            &&& after.u2s.contains_key(upstream.handle) && after.u2s[upstream.handle] == server
            &&& after.u2s_proto.contains_key(upstream.protocol_id)
            &&& after.u2s_proto[upstream.protocol_id] == server
            &&& other != server ==> after.s2u.contains_key(other) == v.s2u.contains_key(other)
                && after.s2u[other] == v.s2u[other]
            &&& other != upstream.handle ==> after.u2s.contains_key(other)
                == v.u2s.contains_key(other) && after.u2s[other] == v.u2s[other]
            &&& after.surfaces == v.surfaces && after.buffers == v.buffers && after.pools
                == v.pools && after.pending == v.pending && after.input == v.input
                && after.globals == v.globals
        }),
{
}

/// An object that is gone leaves no trace: it has no partner, no role in
/// input and nothing tracked; other objects keep all of that.
pub proof fn law_gone_objects_leave_no_trace<F>(v: ConnView<F>, server: u64, other: u64)
    requires
        v.paired(),
        other != server,
    ensures
        ({
            let after = v.without_server(server);
            &&& !after.s2u.contains_key(server)
            &&& v.s2u.contains_key(server) ==> !after.u2s.contains_key(v.s2u[server].handle)
                && !after.u2s_proto.contains_key(v.s2u[server].protocol_id)
            &&& !after.pools.contains_key(server) && !after.buffers.contains_key(server)
                && !after.surfaces.contains_key(server) && !after.pending.contains_key(server)
            &&& after.input.pointer != Some(server) && after.input.keyboard != Some(server)
                && after.input.text_input != Some(server) && after.input.focused_surface
                != Some(server) && after.input.pointer_focus != Some(server)
                && after.input.keyboard_focus != Some(server)
            &&& after.s2u.contains_key(other) == v.s2u.contains_key(other)
            &&& v.s2u.contains_key(other) ==> after.s2u[other] == v.s2u[other]
                && after.u2s.contains_key(v.s2u[other].handle)
                && after.u2s[v.s2u[other].handle] == other
            &&& after.pools.contains_key(other) == v.pools.contains_key(other)
                && after.pools[other] == v.pools[other]
            &&& after.buffers.contains_key(other) == v.buffers.contains_key(other)
                && after.buffers[other] == v.buffers[other]
            &&& after.surfaces.contains_key(other) == v.surfaces.contains_key(other)
                && after.surfaces[other] == v.surfaces[other]
            &&& after.pending.contains_key(other) == v.pending.contains_key(other)
                && after.pending[other] == v.pending[other]
            &&& v.input.pointer == Some(other) ==> after.input.pointer == Some(other)
            &&& v.input.keyboard == Some(other) ==> after.input.keyboard == Some(other)
            &&& v.input.text_input == Some(other) ==> after.input.text_input == Some(other)
                && after.input.text_input_enabled == v.input.text_input_enabled
                && after.input.text_input_pending_enabled == v.input.text_input_pending_enabled
                && after.input.text_input_commit_serial == v.input.text_input_commit_serial
            &&& v.input.focused_surface == Some(other) ==> after.input.focused_surface == Some(
                other,
            )
            &&& v.input.pointer_focus == Some(other) ==> after.input.pointer_focus == Some(other)
            &&& v.input.keyboard_focus == Some(other) ==> after.input.keyboard_focus == Some(other)
            &&& after.input.next_serial == v.input.next_serial
            &&& after.commits == v.commits
        }),
{
}

/// A lost text input takes its own state along.
pub proof fn law_lost_text_input_is_reset(input: InputState, id: u64)
    requires
        input.text_input == Some(id),
    ensures
        ({
            let after = input.without(id);
            &&& after.text_input is None
            &&& !after.text_input_enabled
            &&& !after.text_input_pending_enabled
            &&& after.text_input_commit_serial == 0
            &&& after.next_serial == input.next_serial
        }),
{
}

/// When the compositor releases an id, the object that had it is named, and
/// with its pair it is gone; every other pair stays.
pub proof fn law_released_ids_are_forgotten<F>(
    v: ConnView<F>,
    msg: MessageView<F>,
    id: u32,
    other: u64,
    other_id: u32,
)
    requires
        v.paired(),
        msg.args.len() > 0,
        msg.args[0] == Argument::<F>::Uint(id),
    ensures
        ({
            let after = v.id_deleted(msg);
            &&& v.released(msg) == (if v.u2s_proto.contains_key(id) {
                Some(v.u2s_proto[id])
            } else {
                None
            })
            &&& !after.u2s_proto.contains_key(id)
            &&& v.u2s_proto.contains_key(id) ==> !after.s2u.contains_key(v.u2s_proto[id])
            &&& !v.u2s_proto.contains_key(id) ==> after == v
            &&& other_id != id ==> after.u2s_proto.contains_key(other_id)
                == v.u2s_proto.contains_key(other_id) && after.u2s_proto[other_id]
                == v.u2s_proto[other_id]
            &&& v.s2u.contains_key(other) && !(v.u2s_proto.contains_key(id) && v.u2s_proto[id]
                == other) ==> after.s2u.contains_key(other) && after.s2u[other] == v.s2u[other]
                && after.u2s.contains_key(v.s2u[other].handle)
                && after.u2s[v.s2u[other].handle] == other
            &&& after.paired()
            &&& after.input == v.input && after.surfaces == v.surfaces && after.buffers
                == v.buffers && after.pools == v.pools
        }),
{
}

/// A callback is gone once it was called, and only then does an event end an
/// object.
pub proof fn law_called_callbacks_are_gone<F>(v: ConnView<F>, role: Role, msg: MessageView<F>)
    ensures
        v.finished_callback(role, msg) is Some <==> role == Role::Callback && msg.opcode == 0
            && v.u2s.contains_key(msg.sender),
        v.finished_callback(role, msg) is Some ==> v.finished_callback(role, msg) == Some(
            v.u2s[msg.sender],
        ),
{
}

/// An event ends no object but a callback that was called, and changes
/// nothing else beyond its twins, the keymap and the focus.
pub proof fn law_events_end_only_callbacks<F>(
    v: ConnView<F>,
    role: Role,
    msg: MessageView<F>,
    twins: Seq<CreatedTwin>,
)
    ensures
        ({
            let seen = v.twins_linked(twins).observed(role, msg);
            let after = v.event_done(role, msg, twins);
            if role == Role::Callback && msg.opcode == 0 && seen.u2s.contains_key(msg.sender) {
                after == seen.without_server(seen.u2s[msg.sender])
            } else {
                after == seen
            }
        }),
{
}

/// An upstream object that is gone has no partner any more, and its partner
/// has none either; other pairs stay.
pub proof fn law_gone_upstream_objects_have_no_partner<F>(
    v: ConnView<F>,
    upstream: UpstreamObject,
    other: u64,
)
    requires
        v.paired(),
    ensures
        ({
            let after = v.unlinked_upstream(upstream);
            &&& !after.u2s.contains_key(upstream.handle)
            &&& !after.u2s_proto.contains_key(upstream.protocol_id)
            &&& v.u2s.contains_key(upstream.handle) ==> !after.s2u.contains_key(
                v.u2s[upstream.handle],
            )
            &&& other != upstream.handle && v.u2s.contains_key(other) ==> after.u2s.contains_key(
                other,
            ) && after.u2s[other] == v.u2s[other] && after.s2u.contains_key(v.u2s[other])
                && after.s2u[v.u2s[other]] == v.s2u[v.u2s[other]]
            &&& after == (ConnView {
                s2u: after.s2u,
                u2s: after.u2s,
                u2s_proto: after.u2s_proto,
                ..v
            })
        }),
{
}

// ---------------------------------------------------------------------------
// Serials, keymap and focus
// ---------------------------------------------------------------------------

/// After each event that starts with a serial (of a pointer: enter, leave and
/// button; of a keyboard: enter, leave, key and modifiers) the next synthetic
/// event gets the following serial, one after the largest; any other event
/// leaves the serials alone.
pub proof fn law_serials_follow_the_compositor<F>(v: ConnView<F>, role: Role, msg: MessageView<F>)
    ensures
        ({
            let next = v.serials_synced(role, msg).input.next_serial;
            let with_serial = {
                ||| role == Role::Pointer && (msg.opcode == 0 || msg.opcode == 1 || msg.opcode == 3)
                ||| role == Role::Keyboard && (msg.opcode == 1 || msg.opcode == 2 || msg.opcode
                    == 3 || msg.opcode == 4)
            };
            if with_serial && msg.args.len() > 0 && msg.args[0] is Uint {
                next == (if msg.args[0]->Uint_0 == u32::MAX {
                    1
                } else {
                    msg.args[0]->Uint_0 + 1
                })
            } else {
                next == v.input.next_serial
            }
        }),
        v.serials_synced(role, msg).s2u == v.s2u,
        v.serials_synced(role, msg).input.keyboard_focus == v.input.keyboard_focus,
        v.serials_synced(role, msg).input.pointer_focus == v.input.pointer_focus,
{
}

/// The keymap of a keyboard is kept as it was announced, the latest one
/// counting.
pub proof fn law_announced_keymap_is_kept<F>(
    v: ConnView<F>,
    msg: MessageView<F>,
    format: u32,
    fd: Arc<F>,
    size: u32,
)
    requires
        msg.opcode == 0,
        msg.args == seq![Argument::<F>::Uint(format), Argument::Fd(fd), Argument::Uint(size)],
    ensures
        v.observed(Role::Keyboard, msg) == (ConnView { keymap_fd: Some(fd), keymap_size: size, ..v }),
{
}

/// The keyboard focus follows the compositor: entering a surface focuses it,
/// and leaving the focused one focuses nothing.
pub proof fn law_focus_follows_the_compositor<F>(
    v: ConnView<F>,
    serial: u32,
    sender: u64,
    surface: u64,
    keys: Arc<Vec<u8>>,
)
    requires
        surface != 0,
        v.u2s.contains_key(surface),
    ensures
        ({
            let enter = MessageView {
                sender,
                opcode: 1,
                args: seq![
                    Argument::<F>::Uint(serial),
                    Argument::Object(surface),
                    Argument::Array(keys),
                ],
            };
            let leave = MessageView {
                sender,
                opcode: 2,
                args: seq![Argument::<F>::Uint(serial), Argument::Object(surface)],
            };
            let entered = v.observed(Role::Keyboard, enter);
            let left = v.observed(Role::Keyboard, leave);
            &&& entered.input.focused_surface == Some(v.u2s[surface])
            &&& entered.input.keyboard_focus == Some(v.u2s[surface])
            &&& entered.observed(Role::Keyboard, leave).input.focused_surface is None
            &&& entered.observed(Role::Keyboard, leave).input.keyboard_focus is None
            &&& v.input.focused_surface != Some(v.u2s[surface]) ==> left == v
            &&& entered.input.next_serial == v.input.next_serial
            &&& entered.input.pointer_focus == v.input.pointer_focus
        }),
{
}

/// A surface that is not known cannot be focused: entering it focuses
/// nothing.
pub proof fn law_unknown_surfaces_get_no_focus<F>(
    v: ConnView<F>,
    msg: MessageView<F>,
    surface: u64,
)
    requires
        msg.opcode == 1,
        msg.args.len() > 1,
        msg.args[1] == Argument::<F>::Object(surface),
        surface == 0 || !v.u2s.contains_key(surface),
    ensures
        v.observed(Role::Keyboard, msg) == (ConnView {
            input: InputState { focused_surface: None, keyboard_focus: None, ..v.input },
            ..v
        }),
{
}

/// Events other than a keyboard's keymap, enter and leave are only passed on.
pub proof fn law_other_events_change_nothing<F>(v: ConnView<F>, role: Role, msg: MessageView<F>)
    requires
        role != Role::Keyboard || msg.opcode > 2,
    ensures
        v.observed(role, msg) == v,
{
}

// ---------------------------------------------------------------------------
// Globals
// ---------------------------------------------------------------------------

/// An announcement is read as it was made.
pub proof fn law_announcements_are_read<F>(
    sender: u64,
    name: u32,
    bytes: Arc<Vec<u8>>,
    version: u32,
)
    requires
        vstd::utf8::valid_utf8(bytes@),
    ensures
        crate::forward::announced(
            MessageView {
                sender,
                opcode: 0,
                args: seq![
                    Argument::<F>::Uint(name),
                    Argument::Str(Some(bytes)),
                    Argument::Uint(version),
                ],
            },
        ) == Some((name, vstd::utf8::decode_utf8(bytes@), version)),
        crate::forward::removed_name(
            MessageView { sender, opcode: 1, args: seq![Argument::<F>::Uint(name)] },
        ) == Some(name),
{
}

/// Every known interface is advertised, save those that are denied, at the
/// highest version that both sides have.
pub proof fn law_known_interfaces_are_advertised(name: Seq<char>, announced: u32, known: u32)
    ensures
        crate::forward::advertisable(name) <==> crate::interfaces::registered(name) is Some
            && !crate::interfaces::denied(name),
        crate::forward::lower(announced, known) <= announced,
        crate::forward::lower(announced, known) <= known,
        crate::forward::lower(announced, known) == announced || crate::forward::lower(
            announced,
            known,
        ) == known,
{
}

/// A global that was advertised is found by its name until it is withdrawn;
/// other globals are not touched by either.
pub proof fn law_globals_come_and_go<F>(
    v: ConnView<F>,
    name: u32,
    entry: AdvertisedGlobal,
    other: u32,
)
    requires
        other != name,
    ensures
        ({
            let known = v.advertised(name, entry);
            let gone = known.withdrawn(name);
            &&& known.globals.contains_key(name) && known.globals[name] == entry
            &&& known.global_names.contains_key(entry.global)
            &&& known.global_names[entry.global] == name
            &&& known.globals.contains_key(other) == v.globals.contains_key(other)
            &&& known.globals[other] == v.globals[other]
            &&& !gone.globals.contains_key(name)
            &&& !gone.global_names.contains_key(entry.global)
            &&& gone.globals.contains_key(other) == v.globals.contains_key(other)
            &&& gone.globals[other] == v.globals[other]
            &&& gone.s2u == v.s2u && gone.surfaces == v.surfaces && gone.input == v.input
        }),
{
}

// ---------------------------------------------------------------------------
// Tracked requests
// ---------------------------------------------------------------------------

proof fn lemma_pushed<F>(args: Seq<Argument<F>>, arg: Argument<F>)
    ensures
        crate::tracking::last_fd(args.push(arg)) == (match arg {
            Argument::Fd(fd) => Some(fd),
            _ => crate::tracking::last_fd(args),
        }),
        crate::tracking::last_int(args.push(arg)) == (match arg {
            Argument::Int(v) => v,
            _ => crate::tracking::last_int(args),
        }),
        crate::tracking::uints_of(args.push(arg)) == (match arg {
            Argument::Uint(v) => crate::tracking::uints_of(args).push(v),
            _ => crate::tracking::uints_of(args),
        }),
        crate::tracking::ints_of(args.push(arg)) == (match arg {
            Argument::Int(v) => crate::tracking::ints_of(args).push(v),
            Argument::Uint(v) => crate::tracking::ints_of(args).push(v as i32),
            _ => crate::tracking::ints_of(args),
        }),
        crate::forward::last_uint(args.push(arg)) == (match arg {
            Argument::Uint(v) => v,
            _ => crate::forward::last_uint(args),
        }),
        crate::forward::last_str(args.push(arg)) == (match arg {
            Argument::Str(v) => v,
            _ => crate::forward::last_str(args),
        }),
{
    assert(args.push(arg).drop_last() =~= args);
    assert(args.push(arg).last() == arg);
}

/// `wl_shm.create_pool`: the pool is known by its id, with the descriptor and
/// the size that the request gives.
pub proof fn law_created_pools_are_known<F>(
    v: ConnView<F>,
    sender: u64,
    opcode: u16,
    id: u64,
    fd: Arc<F>,
    size: i32,
)
    ensures
        ({
            let args = seq![Argument::NewId(id), Argument::Fd(fd), Argument::Int(size)];
            let after = v.created(Role::ShmPool, id, MessageView { sender, opcode, args });
            &&& after.pools.contains_key(id)
            &&& after.pools[id] == (ShmPool { fd, size })
            &&& after == (ConnView { pools: after.pools, ..v })
            &&& after.pools == v.pools.insert(id, after.pools[id])
        }),
{
    let none = Seq::<Argument<F>>::empty();
    let one = none.push(Argument::NewId(id));
    let two = one.push(Argument::Fd(fd));
    lemma_pushed(none, Argument::NewId(id));
    lemma_pushed(one, Argument::Fd(fd));
    lemma_pushed(two, Argument::Int(size));
    assert(seq![Argument::NewId(id), Argument::Fd(fd), Argument::Int(size)] =~= two.push(
        Argument::Int(size),
    ));
}

/// `wl_shm_pool.resize`: the pool has the new size and its old descriptor,
/// and buffers that exist are left as they are.
pub proof fn law_resized_pools_keep_their_descriptor<F>(
    v: ConnView<F>,
    pool: u64,
    size: i32,
)
    ensures
        ({
            let args = seq![Argument::<F>::Int(size)];
            let after = v.requested(Role::ShmPool, MessageView { sender: pool, opcode: 2, args });
            &&& v.pools.contains_key(pool) ==> after.pools == v.pools.insert(
                pool,
                ShmPool { fd: v.pools[pool].fd, size },
            )
            &&& !v.pools.contains_key(pool) ==> after.pools == v.pools
            &&& after == (ConnView { pools: after.pools, ..v })
        }),
{
}

/// `wl_shm_pool.create_buffer`: the buffer is known by its id as the part of
/// its pool that the request gives.
pub proof fn law_created_buffers_are_known<F>(
    v: ConnView<F>,
    pool: u64,
    opcode: u16,
    id: u64,
    offset: i32,
    width: i32,
    height: i32,
    stride: i32,
    format: u32,
)
    requires
        v.pools.contains_key(pool),
    ensures
        ({
            let args = seq![
                Argument::<F>::NewId(id),
                Argument::Int(offset),
                Argument::Int(width),
                Argument::Int(height),
                Argument::Int(stride),
                Argument::Uint(format),
            ];
            let after = v.created(Role::ShmBuffer, id, MessageView { sender: pool, opcode, args });
            &&& after.buffers.contains_key(id)
            &&& after.buffers[id] == BufferView::Shm(
                ShmFrame {
                    fd: v.pools[pool].fd,
                    pool_size: v.pools[pool].size,
                    offset,
                    width,
                    height,
                    stride,
                    format,
                },
            )
            &&& after.buffers == v.buffers.insert(id, after.buffers[id])
            &&& after == (ConnView { buffers: after.buffers, ..v })
        }),
{
    let a0 = Seq::<Argument<F>>::empty();
    let a1 = a0.push(Argument::NewId(id));
    let a2 = a1.push(Argument::Int(offset));
    let a3 = a2.push(Argument::Int(width));
    let a4 = a3.push(Argument::Int(height));
    let a5 = a4.push(Argument::Int(stride));
    lemma_pushed(a0, Argument::NewId(id));
    lemma_pushed(a1, Argument::Int(offset));
    lemma_pushed(a2, Argument::Int(width));
    lemma_pushed(a3, Argument::Int(height));
    lemma_pushed(a4, Argument::Int(stride));
    lemma_pushed(a5, Argument::Uint(format));
    let args = seq![
        Argument::<F>::NewId(id),
        Argument::Int(offset),
        Argument::Int(width),
        Argument::Int(height),
        Argument::Int(stride),
        Argument::Uint(format),
    ];
    assert(args =~= a5.push(Argument::Uint(format)));
    assert(crate::tracking::ints_of(args) =~= seq![
        offset,
        width,
        height,
        stride,
        format as i32,
    ]);
    assert((format as i32) as u32 == format) by (bit_vector);
}

/// `wl_surface.attach`: the surface shows the frame of a shared-memory
/// buffer, and nothing readable where the buffer is another or none; its
/// commits and the other surfaces are untouched.
pub proof fn law_attached_buffers_are_shown<F>(
    v: ConnView<F>,
    surface: u64,
    buffer: u64,
    x: i32,
    y: i32,
    other: u64,
)
    ensures
        ({
            let args = seq![Argument::<F>::Object(buffer), Argument::Int(x), Argument::Int(y)];
            let after = v.requested(Role::Surface, MessageView { sender: surface, opcode: 1, args });
            &&& after.surfaces.contains_key(surface)
            &&& buffer != 0 && v.buffers.contains_key(buffer) && v.buffers[buffer] is Shm
                ==> after.surfaces[surface].attached == Some(v.buffers[buffer]->Shm_0)
            &&& buffer == 0 || !v.buffers.contains_key(buffer) || v.buffers[buffer] is DmaBuf
                ==> after.surfaces[surface].attached is None
            &&& v.surfaces.contains_key(surface) ==> after.surfaces[surface].commit_count
                == v.surfaces[surface].commit_count && after.surfaces[surface].last_commit
                == v.surfaces[surface].last_commit
            &&& other != surface ==> after.surfaces.contains_key(other)
                == v.surfaces.contains_key(other) && after.surfaces[other] == v.surfaces[other]
            &&& after == (ConnView { surfaces: after.surfaces, ..v })
        }),
{
}

/// `wl_surface.commit`: the surface counts one more frame, which is the
/// latest of all surfaces; what it shows and the other surfaces stay.
pub proof fn law_commits_are_counted<F>(
    v: ConnView<F>,
    surface: u64,
    args: Seq<Argument<F>>,
    other: u64,
)
    ensures
        ({
            let after = v.requested(Role::Surface, MessageView { sender: surface, opcode: 6, args });
            &&& after.surfaces.contains_key(surface)
            &&& after.commits == v.commits.wrapping_add(1)
            &&& after.surfaces[surface].last_commit == after.commits
            &&& v.surfaces.contains_key(surface) ==> after.surfaces[surface].commit_count
                == v.surfaces[surface].commit_count.wrapping_add(1)
                && after.surfaces[surface].attached == v.surfaces[surface].attached
            &&& !v.surfaces.contains_key(surface) ==> after.surfaces[surface].commit_count == 1
                && after.surfaces[surface].attached is None
            &&& other != surface ==> after.surfaces.contains_key(other)
                == v.surfaces.contains_key(other) && after.surfaces[other] == v.surfaces[other]
            &&& after == (ConnView { surfaces: after.surfaces, commits: after.commits, ..v })
        }),
{
}

/// `zwp_linux_buffer_params_v1.add`: one more plane with its descriptor,
/// behind those gathered before, and the modifier with its upper half first.
pub proof fn law_planes_are_gathered<F>(
    v: ConnView<F>,
    params: u64,
    fd: Arc<F>,
    plane: u32,
    offset: u32,
    stride: u32,
    upper: u32,
    lower: u32,
)
    ensures
        ({
            let args = seq![
                Argument::Fd(fd),
                Argument::Uint(plane),
                Argument::Uint(offset),
                Argument::Uint(stride),
                Argument::Uint(upper),
                Argument::Uint(lower),
            ];
            let after = v.requested(
                Role::DmaBufParams,
                MessageView { sender: params, opcode: 1, args },
            );
            let before = if v.pending.contains_key(params) {
                v.pending[params]
            } else {
                PendingView { planes: Seq::empty(), fds: Seq::empty(), modifier: 0 }
            };
            &&& after.pending == v.pending.insert(params, after.pending[params])
            &&& after.pending[params].planes == before.planes.push(
                DmaBufPlane { fd_index: before.fds.len() as usize, offset, stride },
            )
            &&& after.pending[params].fds == before.fds.push(fd)
            &&& after.pending[params].modifier == upper * 0x1_0000_0000 + lower
            &&& after == (ConnView { pending: after.pending, ..v })
        }),
{
    let a0 = Seq::<Argument<F>>::empty();
    let a1 = a0.push(Argument::Fd(fd));
    let a2 = a1.push(Argument::Uint(plane));
    let a3 = a2.push(Argument::Uint(offset));
    let a4 = a3.push(Argument::Uint(stride));
    let a5 = a4.push(Argument::Uint(upper));
    lemma_pushed(a0, Argument::Fd(fd));
    lemma_pushed(a1, Argument::Uint(plane));
    lemma_pushed(a2, Argument::Uint(offset));
    lemma_pushed(a3, Argument::Uint(stride));
    lemma_pushed(a4, Argument::Uint(upper));
    lemma_pushed(a5, Argument::Uint(lower));
    let args = seq![
        Argument::Fd(fd),
        Argument::Uint(plane),
        Argument::Uint(offset),
        Argument::Uint(stride),
        Argument::Uint(upper),
        Argument::Uint(lower),
    ];
    assert(args =~= a5.push(Argument::Uint(lower)));
    assert(crate::tracking::uints_of(args) =~= seq![plane, offset, stride, upper, lower]);
    assert(((upper as u64) << 32) | lower as u64 == upper * 0x1_0000_0000 + lower) by (bit_vector);
}

/// `zwp_linux_buffer_params_v1.create_immed`: the gathered planes become a
/// buffer of the given size and format, and are gathered no longer.
pub proof fn law_gathered_planes_become_a_buffer<F>(
    v: ConnView<F>,
    params: u64,
    opcode: u16,
    id: u64,
    width: i32,
    height: i32,
    format: u32,
    flags: u32,
)
    requires
        v.pending.contains_key(params),
    ensures
        ({
            let args = seq![
                Argument::<F>::NewId(id),
                Argument::Int(width),
                Argument::Int(height),
                Argument::Uint(format),
                Argument::Uint(flags),
            ];
            let after = v.created(
                Role::DmaBufBuffer,
                id,
                MessageView { sender: params, opcode, args },
            );
            &&& !after.pending.contains_key(params)
            &&& after.buffers.contains_key(id)
            &&& after.buffers[id] == (BufferView::DmaBuf {
                width,
                height,
                format,
                pending: v.pending[params],
            })
            &&& after == (ConnView { pending: after.pending, buffers: after.buffers, ..v })
        }),
{
    let a0 = Seq::<Argument<F>>::empty();
    let a1 = a0.push(Argument::NewId(id));
    let a2 = a1.push(Argument::Int(width));
    let a3 = a2.push(Argument::Int(height));
    let a4 = a3.push(Argument::Uint(format));
    lemma_pushed(a0, Argument::NewId(id));
    lemma_pushed(a1, Argument::Int(width));
    lemma_pushed(a2, Argument::Int(height));
    lemma_pushed(a3, Argument::Uint(format));
    lemma_pushed(a4, Argument::Uint(flags));
    let args = seq![
        Argument::<F>::NewId(id),
        Argument::Int(width),
        Argument::Int(height),
        Argument::Uint(format),
        Argument::Uint(flags),
    ];
    assert(args =~= a4.push(Argument::Uint(flags)));
    assert(crate::tracking::ints_of(args) =~= seq![width, height, format as i32, flags as i32]);
    assert((format as i32) as u32 == format) by (bit_vector);
}

/// A buffer of a pool that is not known, or of planes that were never
/// gathered, is not known either; nor is a pool without a descriptor.
pub proof fn law_unknown_sources_make_no_buffers<F>(v: ConnView<F>, id: u64, msg: MessageView<F>)
    ensures
        !v.pools.contains_key(msg.sender) ==> v.created(Role::ShmBuffer, id, msg) == v,
        !v.pending.contains_key(msg.sender) ==> v.created(Role::DmaBufBuffer, id, msg) == v,
        (forall|i: int| 0 <= i < msg.args.len() ==> !(#[trigger] msg.args[i] is Fd)) ==> v.created(
            Role::ShmPool,
            id,
            msg,
        ) == v,
{
    if forall|i: int| 0 <= i < msg.args.len() ==> !(#[trigger] msg.args[i] is Fd) {
        lemma_no_fd(msg.args);
    }
}

proof fn lemma_no_fd<F>(args: Seq<Argument<F>>)
    requires
        forall|i: int| 0 <= i < args.len() ==> !(#[trigger] args[i] is Fd),
    ensures
        crate::tracking::last_fd(args) is None,
    decreases args.len(),
{
    if args.len() > 0 {
        assert(args[args.len() - 1] == args.last());
        assert forall|i: int| 0 <= i < args.drop_last().len() implies !(
        #[trigger] args.drop_last()[i] is Fd) by {
            assert(args.drop_last()[i] == args[i]);
        }
        lemma_no_fd(args.drop_last());
    }
}

/// A text input is enabled or disabled only by the commit that follows, and
/// each commit counts.
pub proof fn law_text_input_changes_on_commit<F>(
    v: ConnView<F>,
    sender: u64,
    args: Seq<Argument<F>>,
)
    ensures
        ({
            let enabled = v.requested(Role::TextInput, MessageView { sender, opcode: 1, args });
            let disabled = v.requested(Role::TextInput, MessageView { sender, opcode: 2, args });
            let committed = v.requested(Role::TextInput, MessageView { sender, opcode: 7, args });
            let on = enabled.requested(Role::TextInput, MessageView { sender, opcode: 7, args });
            let off = disabled.requested(Role::TextInput, MessageView { sender, opcode: 7, args });
            &&& enabled.input.text_input_enabled == v.input.text_input_enabled
            &&& disabled.input.text_input_enabled == v.input.text_input_enabled
            &&& on.input.text_input_enabled
            &&& !off.input.text_input_enabled
            &&& committed.input.text_input_enabled == v.input.text_input_pending_enabled
            &&& committed.input.text_input_commit_serial
                == v.input.text_input_commit_serial.wrapping_add(1)
            &&& on.input.text_input_commit_serial == committed.input.text_input_commit_serial
            &&& enabled == (ConnView { input: enabled.input, ..v })
            &&& committed == (ConnView { input: committed.input, ..v })
            &&& committed.input == (InputState {
                text_input_enabled: v.input.text_input_pending_enabled,
                text_input_commit_serial: v.input.text_input_commit_serial.wrapping_add(1),
                ..v.input
            })
        }),
{
}

/// All other requests are only passed on.
pub proof fn law_other_requests_change_nothing<F>(v: ConnView<F>, role: Role, msg: MessageView<F>)
    requires
        match role {
            Role::Surface => msg.opcode != 1 && msg.opcode != 6,
            Role::ShmPool => msg.opcode != 2,
            Role::TextInput => msg.opcode != 1 && msg.opcode != 2 && msg.opcode != 7,
            Role::DmaBufParams => msg.opcode != 1,
            _ => true,
        },
    ensures
        v.requested(role, msg) == v,
{
}

/// New input objects and surfaces are known by their role; a new object of
/// any other role, save pools and buffers, changes nothing.
pub proof fn law_new_objects_take_their_role<F>(v: ConnView<F>, id: u64, msg: MessageView<F>)
    ensures
        v.created(Role::Pointer, id, msg) == (ConnView {
            input: InputState { pointer: Some(id), ..v.input },
            ..v
        }),
        v.created(Role::Keyboard, id, msg) == (ConnView {
            input: InputState { keyboard: Some(id), ..v.input },
            ..v
        }),
        v.created(Role::TextInput, id, msg) == (ConnView {
            input: InputState { text_input: Some(id), ..v.input },
            ..v
        }),
        v.created(Role::Surface, id, msg).surfaces.contains_key(id),
        !v.surfaces.contains_key(id) ==> v.created(Role::Surface, id, msg).surfaces[id].attached
            is None && v.created(Role::Surface, id, msg).surfaces[id].commit_count == 0
            && v.created(Role::Surface, id, msg).surfaces[id].last_commit == 0,
        v.surfaces.contains_key(id) ==> v.created(Role::Surface, id, msg).surfaces =~= v.surfaces,
        forall|role: Role|
            role == Role::Display || role == Role::Registry || role == Role::Callback || role
                == Role::Seat || role == Role::DmaBufParams || role == Role::Generic
                ==> #[trigger] v.created(role, id, msg) == v,
{
}

/// A request that created an object pairs the first object it announces with
/// the one that the compositor's side made, and tracks it by its role;
/// without either side's object nothing changes.
pub proof fn law_created_objects_are_paired<F>(
    v: ConnView<F>,
    msg: MessageView<F>,
    role: Role,
    upstream: UpstreamObject,
)
    ensures
        v.request_done(msg, Some(role), None) == v,
        v.request_done(msg, None, Some(upstream)) == v,
        crate::forward::new_ids(msg.args).len() == 0 ==> v.request_done(
            msg,
            Some(role),
            Some(upstream),
        ) == v,
        crate::forward::new_ids(msg.args).len() > 0 ==> {
            let id = crate::forward::new_ids(msg.args)[0];
            let after = v.request_done(msg, Some(role), Some(upstream));
            &&& after.s2u == v.s2u.insert(id, upstream)
            &&& after.u2s == v.u2s.insert(upstream.handle, id)
            &&& after.u2s_proto == v.u2s_proto.insert(upstream.protocol_id, id)
            &&& role == Role::Pointer ==> after.input.pointer == Some(id)
            &&& role == Role::Keyboard ==> after.input.keyboard == Some(id)
            &&& role == Role::TextInput ==> after.input.text_input == Some(id)
            &&& role == Role::Surface ==> after.surfaces.contains_key(id)
        },
{
}

/// `wl_display.error`: the code and the message are those of the event.
pub proof fn law_display_errors_are_read<F>(object: u64, code: u32, text: Option<Arc<Vec<u8>>>)
    ensures
        crate::forward::last_uint(
            seq![Argument::<F>::Object(object), Argument::Uint(code), Argument::Str(text)],
        ) == code,
        crate::forward::last_str(
            seq![Argument::<F>::Object(object), Argument::Uint(code), Argument::Str(text)],
        ) == text,
{
    let a0 = Seq::<Argument<F>>::empty();
    let a1 = a0.push(Argument::Object(object));
    let a2 = a1.push(Argument::Uint(code));
    lemma_pushed(a0, Argument::Object(object));
    lemma_pushed(a1, Argument::Uint(code));
    lemma_pushed(a2, Argument::Str(text));
    assert(seq![Argument::<F>::Object(object), Argument::Uint(code), Argument::Str(text)]
        =~= a2.push(Argument::Str(text)));
}

} // verus!
