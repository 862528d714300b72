//! Forwarding between the application and the compositor.
//!
//! Each direction takes two steps around the message that is sent in between:
//! the first decides what to send, the second records what came of it.
use crate::input::InputState;
use crate::interfaces::{by_name, is_denied, role_for_interface, KnownInterface, Role};
use crate::proxy::{AdvertisedGlobal, Argument, Conn, ConnView, Message, MessageView, UpstreamObject};
use crate::text::decoded;
use std::sync::Arc;
use vstd::prelude::*;

verus! {

broadcast use vstd::std_specs::hash::group_hash_axioms;

/// The interface of the objects that a message creates.
#[derive(Clone, Copy)]
pub struct ChildInterface {
    pub name: &'static str,
    pub version: u32,
}

/// What is known of the object that a message comes from: its version, and
/// the interface that the message's new objects have.
#[derive(Clone, Copy)]
pub struct SenderInfo {
    pub version: u32,
    pub child: Option<ChildInterface>,
}

/// The role and the version of an object that is about to be created.
#[derive(Clone, Copy, Debug, PartialEq, Eq, Structural)]
pub struct ChildSpec {
    pub role: Role,
    pub version: u32,
}

/// The objects that a message announces, in order; null ids announce none.
pub open spec fn new_ids<F>(args: Seq<Argument<F>>) -> Seq<u64>
    decreases args.len(),
{
    if args.len() == 0 {
        Seq::empty()
    } else {
        let before = new_ids(args.drop_last());
        match args.last() {
            Argument::NewId(id) => if id != 0 {
                before.push(id)
            } else {
                before
            },
            _ => before,
        }
    }
}

fn read_new_ids<F>(args: &Vec<Argument<F>>) -> (ids: Vec<u64>)
    ensures
        ids@ == new_ids(args@),
{
    let mut ids: Vec<u64> = Vec::new();
    let mut i: usize = 0;
    assert(ids@ =~= new_ids(args@.take(0)));
    while i < args.len()
        invariant
            i <= args.len(),
            ids@ == new_ids(args@.take(i as int)),
        decreases args.len() - i,
    {
        proof {
            assert(args@.take(i + 1).drop_last() =~= args@.take(i as int));
            assert(args@.take(i + 1).last() == args@[i as int]);
        }
        match &args[i] {
            Argument::NewId(id) => {
                if *id != 0 {
                    ids.push(*id);
                }
            },
            _ => {},
        }
        i = i + 1;
    }
    assert(args@.take(args@.len() as int) =~= args@);
    ids
}

fn copy_argument<F>(arg: &Argument<F>) -> (copy: Argument<F>)
    ensures
        copy == *arg,
{
    match arg {
        Argument::Int(v) => Argument::Int(*v),
        Argument::Uint(v) => Argument::Uint(*v),
        Argument::Fixed(v) => Argument::Fixed(*v),
        Argument::Str(v) => match v {
            Some(bytes) => Argument::Str(Some(bytes.clone())),
            None => Argument::Str(None),
        },
        Argument::Array(v) => Argument::Array(v.clone()),
        Argument::Object(id) => Argument::Object(*id),
        Argument::NewId(id) => Argument::NewId(*id),
        Argument::Fd(fd) => Argument::Fd(fd.clone()),
    }
}

// ---------------------------------------------------------------------------
// Requests
// ---------------------------------------------------------------------------

/// What to do with a request of the application.
pub enum RequestStep<F> {
    /// The request comes from an object that is not known.
    Ignore,
    /// The request creates an object of an interface that is not known.
    Untyped,
    /// Send the message upstream.
    Send { message: Message<F>, child: Option<ChildSpec> },
}

impl<F> ConnView<F> {
    /// An argument of a request, as the compositor must see it.
    pub open spec fn argument_upstream(self, arg: Argument<F>) -> Argument<F> {
        match arg {
            Argument::Object(id) => Argument::Object(self.upstream_of(id)),
            Argument::NewId(_) => Argument::NewId(0),
            _ => arg,
        }
    }

    /// A request, as the compositor must see it.
    pub open spec fn request_upstream(self, msg: MessageView<F>) -> MessageView<F> {
        MessageView {
            sender: self.s2u[msg.sender].handle,
            opcode: msg.opcode,
            args: Seq::new(msg.args.len(), |i: int| self.argument_upstream(msg.args[i])),
        }
    }

    /// Whether a request is taken up at all.
    pub open spec fn accepts_request(self, msg: MessageView<F>, info: Option<SenderInfo>) -> bool {
        info is Some && self.s2u.contains_key(msg.sender)
    }

    /// What becomes of the connection once a request's new object exists on
    /// both sides.
    pub open spec fn request_done(
        self,
        msg: MessageView<F>,
        child: Option<Role>,
        sent: Option<UpstreamObject>,
    ) -> Self {
        match (child, sent) {
            (Some(role), Some(upstream)) => if new_ids(msg.args).len() > 0 {
                let id = new_ids(msg.args)[0];
                self.linked(id, upstream).created(role, id, msg)
            } else {
                self
            },
            _ => self,
        }
    }
}

impl<F> Conn<F> {
    fn args_upstream(&self, args: &Vec<Argument<F>>) -> (mapped: Vec<Argument<F>>)
        ensures
            mapped@ == Seq::new(args@.len(), |i: int| self@.argument_upstream(args@[i])),
    {
        let mut mapped: Vec<Argument<F>> = Vec::new();
        let mut i: usize = 0;
        while i < args.len()
            invariant
                i <= args.len(),
                mapped@ == Seq::new(i as nat, |j: int| self@.argument_upstream(args@[j])),
            decreases args.len() - i,
        {
            let arg: Argument<F> = match &args[i] {
                Argument::Object(id) => Argument::Object(self.map_object_upstream(*id)),
                Argument::NewId(_) => Argument::NewId(0),
                other => copy_argument(other),
            };
            mapped.push(arg);
            i = i + 1;
        }
        mapped
    }

    /// First half of forwarding a request: note what it changes and decide
    /// what to send to the compositor.
    pub fn begin_request(&mut self, role: Role, msg: &Message<F>, info: Option<SenderInfo>) -> (step:
        RequestStep<F>)
        ensures
            step is Ignore <==> info is None || !old(self)@.s2u.contains_key(msg.sender),
            !old(self)@.accepts_request(msg@, info) ==> {
                &&& step is Ignore
                &&& final(self)@ == old(self)@
            },
            old(self)@.accepts_request(msg@, info) ==> {
                &&& final(self)@ == old(self)@.requested(role, msg@)
                &&& match step {
                    RequestStep::Ignore => false,
                    RequestStep::Untyped => new_ids(msg@.args).len() > 0
                        && info.unwrap().child is None,
                    RequestStep::Send { message, child } => {
                        &&& new_ids(msg@.args).len() > 0 ==> info.unwrap().child is Some
                        &&& message@ == old(self)@.request_upstream(msg@)
                        &&& message.opcode == msg.opcode
                        &&& message.sender == old(self)@.s2u[msg.sender].handle
                        &&& message.args@.len() == msg.args@.len()
                        &&& forall|i: int|
                            0 <= i < msg.args@.len() ==> match msg.args@[i] {
                                Argument::Object(id) => #[trigger] message.args@[i]
                                    == Argument::<F>::Object(
                                    if id != 0 && old(self)@.s2u.contains_key(id) {
                                        old(self)@.s2u[id].handle
                                    } else {
                                        0
                                    },
                                ),
                                Argument::NewId(_) => message.args@[i] == Argument::<F>::NewId(0),
                                other => message.args@[i] == other,
                            }
                        &&& child == (if new_ids(msg@.args).len() > 0 {
                            Some(
                                ChildSpec {
                                    role: crate::interfaces::role_of(
                                        info.unwrap().child.unwrap().name@,
                                    ),
                                    version: info.unwrap().version,
                                },
                            )
                        } else {
                            None
                        })
                    },
                }
            },
    {
        let sender_info: SenderInfo = match info {
            Some(sender_info) => sender_info,
            None => return RequestStep::Ignore,
        };
        let sender: u64 = match self.s2u.get(&msg.sender) {
            Some(twin) => twin.handle,
            None => return RequestStep::Ignore,
        };
        self.track_request(role, msg);
        proof {
            lemma_requests_keep_pairing(old(self)@, role, msg@);
        }
        let ids: Vec<u64> = read_new_ids(&msg.args);
        let child: Option<ChildSpec> = if ids.len() > 0 {
            match sender_info.child {
                Some(interface) => Some(
                    ChildSpec {
                        role: role_for_interface(interface.name),
                        version: sender_info.version,
                    },
                ),
                None => return RequestStep::Untyped,
            }
        } else {
            None
        };
        let args: Vec<Argument<F>> = self.args_upstream(&msg.args);
        let message = Message { sender, opcode: msg.opcode, args };
        assert(message@ =~= old(self)@.request_upstream(msg@));
        RequestStep::Send { message, child }
    }

    /// Second half of forwarding a request: `sent` is the upstream object that
    /// sending gave, none where it failed. Returns the role of the new object,
    /// if the request created one.
    pub fn finish_request(
        &mut self,
        msg: &Message<F>,
        child: Option<Role>,
        sent: Option<UpstreamObject>,
    ) -> (created: Option<Role>)
        ensures
            final(self)@ == old(self)@.request_done(msg@, child, sent),
            child is Some && sent is Some && new_ids(msg@.args).len() > 0 ==> {
                &&& final(self)@.s2u == old(self)@.s2u.insert(new_ids(msg@.args)[0], sent.unwrap())
                &&& final(self)@.u2s == old(self)@.u2s.insert(
                    sent.unwrap().handle,
                    new_ids(msg@.args)[0],
                )
            },
            child is None || sent is None || new_ids(msg@.args).len() == 0 ==> final(self)@ == old(
                self,
            )@,
            created == (if sent is Some && new_ids(msg@.args).len() > 0 {
                child
            } else {
                None
            }),
    {
        let ids: Vec<u64> = read_new_ids(&msg.args);
        match (child, sent) {
            (Some(role), Some(upstream)) => {
                if ids.len() > 0 {
                    let id: u64 = ids[0];
                    self.link(id, upstream);
                    self.track_created(role, id, msg);
                    Some(role)
                } else {
                    None
                }
            },
            _ => None,
        }
    }
}

/// Tracking a request leaves both numberings alone.
pub proof fn lemma_requests_keep_pairing<F>(v: ConnView<F>, role: Role, msg: MessageView<F>)
    ensures
        v.requested(role, msg).s2u == v.s2u,
        v.requested(role, msg).u2s == v.u2s,
        v.requested(role, msg).u2s_proto == v.u2s_proto,
{
}

// ---------------------------------------------------------------------------
// Events
// ---------------------------------------------------------------------------

/// The server-side objects to create before an event can be forwarded.
pub struct TwinPlan {
    /// Upstream objects that need a twin.
    pub upstream: Vec<u64>,
    /// Role and version of the twins.
    pub spec: ChildSpec,
}

/// A server-side twin that was created for an upstream object.
#[derive(Clone, Copy)]
pub struct CreatedTwin {
    pub upstream: UpstreamObject,
    pub server: u64,
}

/// What to do with an event of the compositor.
pub enum EventStep<F> {
    /// The event comes from an object that is not known.
    Ignore,
    /// An upstream id was released: destroy its server twin, if it still has
    /// one, and pass the event on.
    Deleted { destroy: Option<u64>, message: Message<F> },
    /// Create the twins of the event's new objects, then complete the event.
    Create { twins: Option<TwinPlan> },
}

/// A completed event: what to send to the application, and the object that is
/// gone afterwards.
pub struct Delivery<F> {
    pub message: Message<F>,
    pub destroy: Option<u64>,
}

/// Whether the first argument of an event is a serial.
pub open spec fn carries_serial(role: Role, opcode: u16) -> bool {
    match role {
        Role::Pointer => opcode == 0 || opcode == 1 || opcode == 3,
        Role::Keyboard => 1 <= opcode <= 4,
        _ => false,
    }
}

/// The serial that the next synthetic event gets after an event was seen: one
/// past the compositor's, never zero.
pub open spec fn serial_after<F>(role: Role, msg: MessageView<F>, next: u32) -> u32 {
    if carries_serial(role, msg.opcode) && msg.args.len() > 0 {
        match msg.args[0] {
            Argument::Uint(serial) => if serial == u32::MAX {
                1
            } else {
                (serial + 1) as u32
            },
            _ => next,
        }
    } else {
        next
    }
}

/// The server object made for an upstream id, null where none was made.
pub open spec fn twin_of(twins: Seq<CreatedTwin>, id: u64) -> u64
    decreases twins.len(),
{
    if twins.len() == 0 {
        0
    } else if twins[0].upstream.handle == id {
        twins[0].server
    } else {
        twin_of(twins.subrange(1, twins.len() as int), id)
    }
}

impl<F> ConnView<F> {
    /// The connection with its serials moved past those of an event.
    pub open spec fn serials_synced(self, role: Role, msg: MessageView<F>) -> Self {
        ConnView {
            input: InputState {
                next_serial: serial_after(role, msg, self.input.next_serial),
                ..self.input
            },
            ..self
        }
    }

    /// The server object whose upstream id was released, if it has one.
    pub open spec fn released(self, msg: MessageView<F>) -> Option<u64> {
        if msg.args.len() > 0 {
            match msg.args[0] {
                Argument::Uint(protocol_id) => if self.u2s_proto.contains_key(protocol_id) {
                    Some(self.u2s_proto[protocol_id])
                } else {
                    None
                },
                _ => None,
            }
        } else {
            None
        }
    }

    /// The connection once an upstream id was released.
    pub open spec fn id_deleted(self, msg: MessageView<F>) -> Self {
        match self.released(msg) {
            Some(server) => {
                let protocols = self.u2s_proto.remove(msg.args[0]->Uint_0);
                if self.s2u.contains_key(server) {
                    ConnView {
                        u2s_proto: protocols,
                        s2u: self.s2u.remove(server),
                        u2s: self.u2s.remove(self.s2u[server].handle),
                        ..self
                    }
                } else {
                    ConnView { u2s_proto: protocols, ..self }
                }
            },
            None => self,
        }
    }

    /// An argument of an event, as the application must see it, where new
    /// objects have the given twins.
    pub open spec fn argument_down(self, arg: Argument<F>, twins: Seq<CreatedTwin>) -> Argument<F> {
        match arg {
            Argument::Object(id) => Argument::Object(self.server_of(id)),
            Argument::NewId(id) => Argument::NewId(twin_of(twins, id)),
            _ => arg,
        }
    }

    /// An argument of the event that releases an id.
    pub open spec fn deleted_argument(self, arg: Argument<F>) -> Argument<F> {
        match arg {
            Argument::Object(id) => Argument::Object(self.server_of(id)),
            Argument::NewId(id) => Argument::NewId(self.server_of(id)),
            _ => arg,
        }
    }

    /// Pair every created twin with its upstream object, in order.
    pub open spec fn twins_linked(self, twins: Seq<CreatedTwin>) -> Self
        decreases twins.len(),
    {
        if twins.len() == 0 {
            self
        } else {
            self.twins_linked(twins.drop_last()).linked(
                twins.last().server,
                twins.last().upstream,
            )
        }
    }

    /// `wl_keyboard.keymap`: keep the keymap for injection.
    pub open spec fn keymap_seen(self, msg: MessageView<F>) -> Self {
        ConnView {
            keymap_fd: if msg.args.len() > 1 {
                match msg.args[1] {
                    Argument::Fd(fd) => Some(fd),
                    _ => self.keymap_fd,
                }
            } else {
                self.keymap_fd
            },
            keymap_size: if msg.args.len() > 2 {
                match msg.args[2] {
                    Argument::Uint(size) => size,
                    _ => self.keymap_size,
                }
            } else {
                self.keymap_size
            },
            ..self
        }
    }

    /// The server-side surface that a focus event speaks of.
    pub open spec fn focus_surface(self, surface: u64) -> Option<u64> {
        if surface != 0 && self.u2s.contains_key(surface) {
            Some(self.u2s[surface])
        } else {
            None
        }
    }

    /// `wl_keyboard.enter` and `wl_keyboard.leave`: follow the focus.
    pub open spec fn focus_seen(self, msg: MessageView<F>) -> Self {
        if msg.args.len() > 1 {
            match msg.args[1] {
                Argument::Object(id) => {
                    let surface = self.focus_surface(id);
                    if msg.opcode == 1 {
                        ConnView {
                            input: InputState {
                                focused_surface: surface,
                                keyboard_focus: surface,
                                ..self.input
                            },
                            ..self
                        }
                    } else if self.input.focused_surface == surface {
                        ConnView {
                            input: InputState {
                                focused_surface: None,
                                keyboard_focus: None,
                                ..self.input
                            },
                            ..self
                        }
                    } else {
                        self
                    }
                },
                _ => self,
            }
        } else {
            self
        }
    }

    /// What an event changes, by the role of its object.
    pub open spec fn observed(self, role: Role, msg: MessageView<F>) -> Self {
        if role == Role::Keyboard && msg.opcode == 0 {
            self.keymap_seen(msg)
        } else if role == Role::Keyboard && (msg.opcode == 1 || msg.opcode == 2) {
            self.focus_seen(msg)
        } else {
            self
        }
    }

    /// The object that is gone after an event: a callback that was called.
    pub open spec fn finished_callback(self, role: Role, msg: MessageView<F>) -> Option<u64> {
        if role == Role::Callback && msg.opcode == 0 && self.u2s.contains_key(msg.sender) {
            Some(self.u2s[msg.sender])
        } else {
            None
        }
    }

    /// The connection without a server object, in any role.
    pub open spec fn without_server(self, server: u64) -> Self {
        ConnView {
            input: self.input.without(server),
            ..self.unpaired(server).untracked(server)
        }
    }

    /// The connection after an event was completed with the given twins.
    pub open spec fn event_done(
        self,
        role: Role,
        msg: MessageView<F>,
        twins: Seq<CreatedTwin>,
    ) -> Self {
        let seen = self.twins_linked(twins).observed(role, msg);
        match seen.finished_callback(role, msg) {
            Some(server) => seen.without_server(server),
            None => seen,
        }
    }
}

/// The code and the message of `wl_display.error`: the compositor rejected
/// something, which ends the connection.
pub fn display_error<F>(role: Role, msg: &Message<F>) -> (error: Option<(u32, Option<Arc<Vec<u8>>>)>)
    ensures
        error == (if role == Role::Display && msg@.opcode == 0 {
            Some((last_uint(msg@.args), last_str(msg@.args)))
        } else {
            None
        }),
{
    if !(role == Role::Display && msg.opcode == 0) {
        return None;
    }
    let mut code: u32 = 0;
    let mut text: Option<Arc<Vec<u8>>> = None;
    let mut i: usize = 0;
    assert(msg.args@.take(0) =~= Seq::empty());
    while i < msg.args.len()
        invariant
            i <= msg.args.len(),
            code == last_uint(msg.args@.take(i as int)),
            text == last_str(msg.args@.take(i as int)),
        decreases msg.args.len() - i,
    {
        proof {
            assert(msg.args@.take(i + 1).drop_last() =~= msg.args@.take(i as int));
            assert(msg.args@.take(i + 1).last() == msg.args@[i as int]);
        }
        match &msg.args[i] {
            Argument::Uint(v) => {
                code = *v;
            },
            Argument::Str(v) => {
                text =
                match v {
                    Some(bytes) => Some(bytes.clone()),
                    None => None,
                };
            },
            _ => {},
        }
        i = i + 1;
    }
    assert(msg.args@.take(msg.args@.len() as int) =~= msg.args@);
    Some((code, text))
}

/// The last unsigned integer among the arguments, zero where there is none.
pub open spec fn last_uint<F>(args: Seq<Argument<F>>) -> u32
    decreases args.len(),
{
    if args.len() == 0 {
        0
    } else {
        match args.last() {
            Argument::Uint(v) => v,
            _ => last_uint(args.drop_last()),
        }
    }
}

/// The last string among the arguments.
pub open spec fn last_str<F>(args: Seq<Argument<F>>) -> Option<Arc<Vec<u8>>>
    decreases args.len(),
{
    if args.len() == 0 {
        None
    } else {
        match args.last() {
            Argument::Str(v) => v,
            _ => last_str(args.drop_last()),
        }
    }
}

fn find_twin(twins: &Vec<CreatedTwin>, id: u64) -> (server: u64)
    ensures
        server == twin_of(twins@, id),
{
    let mut i: usize = 0;
    assert(twins@.subrange(0, twins@.len() as int) =~= twins@);
    while i < twins.len()
        invariant
            i <= twins.len(),
            twin_of(twins@, id) == twin_of(twins@.subrange(i as int, twins@.len() as int), id),
        decreases twins.len() - i,
    {
        proof {
            let rest = twins@.subrange(i as int, twins@.len() as int);
            assert(rest.subrange(1, rest.len() as int) =~= twins@.subrange(
                i + 1,
                twins@.len() as int,
            ));
        }
        if twins[i].upstream.handle == id {
            return twins[i].server;
        }
        i = i + 1;
    }
    0
}

impl<F> Conn<F> {
    fn args_down(&self, args: &Vec<Argument<F>>, twins: &Vec<CreatedTwin>) -> (mapped: Vec<
        Argument<F>,
    >)
        ensures
            mapped@ == Seq::new(args@.len(), |i: int| self@.argument_down(args@[i], twins@)),
    {
        let mut mapped: Vec<Argument<F>> = Vec::new();
        let mut i: usize = 0;
        while i < args.len()
            invariant
                i <= args.len(),
                mapped@ == Seq::new(i as nat, |j: int| self@.argument_down(args@[j], twins@)),
            decreases args.len() - i,
        {
            let arg: Argument<F> = match &args[i] {
                Argument::Object(id) => Argument::Object(self.map_object_server(*id)),
                Argument::NewId(id) => Argument::NewId(find_twin(twins, *id)),
                other => copy_argument(other),
            };
            mapped.push(arg);
            i = i + 1;
        }
        mapped
    }

    fn deleted_args(&self, args: &Vec<Argument<F>>) -> (mapped: Vec<Argument<F>>)
        ensures
            mapped@ == Seq::new(args@.len(), |i: int| self@.deleted_argument(args@[i])),
    {
        let mut mapped: Vec<Argument<F>> = Vec::new();
        let mut i: usize = 0;
        while i < args.len()
            invariant
                i <= args.len(),
                mapped@ == Seq::new(i as nat, |j: int| self@.deleted_argument(args@[j])),
            decreases args.len() - i,
        {
            let arg: Argument<F> = match &args[i] {
                Argument::Object(id) => Argument::Object(self.map_object_server(*id)),
                Argument::NewId(id) => Argument::NewId(self.map_object_server(*id)),
                other => copy_argument(other),
            };
            mapped.push(arg);
            i = i + 1;
        }
        mapped
    }

    fn sync_serials(&mut self, role: Role, msg: &Message<F>)
        ensures
            final(self)@ == old(self)@.serials_synced(role, msg@),
    {
        let serial_first: bool = match role {
            Role::Pointer => msg.opcode == 0 || msg.opcode == 1 || msg.opcode == 3,
            Role::Keyboard => 1 <= msg.opcode && msg.opcode <= 4,
            _ => false,
        };
        if serial_first && msg.args.len() > 0 {
            match &msg.args[0] {
                Argument::Uint(serial) => {
                    self.input.next_serial = if *serial == u32::MAX {
                        1
                    } else {
                        *serial + 1
                    };
                },
                _ => {},
            }
        }
    }

    fn delete_id(&mut self, msg: &Message<F>) -> (destroy: Option<u64>)
        ensures
            final(self)@ == old(self)@.id_deleted(msg@),
            destroy == old(self)@.released(msg@),
    {
        if msg.args.len() == 0 {
            return None;
        }
        let protocol_id: u32 = match &msg.args[0] {
            Argument::Uint(protocol_id) => *protocol_id,
            _ => return None,
        };
        match self.u2s_proto.remove(&protocol_id) {
            Some(server) => {
                match self.s2u.remove(&server) {
                    Some(twin) => {
                        self.u2s.remove(&twin.handle);
                    },
                    None => {
                        assert(self@.s2u =~= old(self)@.s2u);
                    },
                }
                Some(server)
            },
            None => {
                assert(self@.u2s_proto =~= old(self)@.u2s_proto);
                None
            },
        }
    }

    /// First half of forwarding an event: follow the compositor's serials and
    /// decide what has to happen before the event can be passed on. `display`
    /// is the upstream display object.
    pub fn begin_event(
        &mut self,
        role: Role,
        msg: &Message<F>,
        info: Option<SenderInfo>,
        display: u64,
    ) -> (step: EventStep<F>)
        ensures
            info is None ==> {
                &&& step is Ignore
                &&& final(self)@ == old(self)@
            },
            info is Some && role == Role::Display && msg@.opcode == 1 ==> {
                &&& final(self)@ == old(self)@.id_deleted(msg@)
                &&& step matches EventStep::Deleted { destroy, message }
                &&& destroy == old(self)@.released(msg@)
                &&& message@ == (MessageView {
                    sender: if old(self)@.u2s.contains_key(display) {
                        old(self)@.u2s[display]
                    } else {
                        0
                    },
                    opcode: msg@.opcode,
                    args: Seq::new(
                        msg@.args.len(),
                        |i: int| final(self)@.deleted_argument(msg@.args[i]),
                    ),
                })
            },
            info is Some && !(role == Role::Display && msg@.opcode == 1) ==> {
                &&& final(self)@ == old(self)@.serials_synced(role, msg@)
                &&& step matches EventStep::Create { twins }
                &&& match twins {
                    Some(plan) => {
                        &&& new_ids(msg@.args).len() > 0
                        &&& info.unwrap().child matches Some(child)
                        &&& plan.spec.role == crate::interfaces::role_of(child.name@)
                        &&& plan.spec.version == (if info.unwrap().version < child.version {
                            info.unwrap().version
                        } else {
                            child.version
                        })
                        &&& plan.upstream@ == (if old(self)@.client is Some {
                            new_ids(msg@.args)
                        } else {
                            Seq::empty()
                        })
                    },
                    None => new_ids(msg@.args).len() == 0 || info.unwrap().child is None,
                }
            },
    {
        let sender_info: SenderInfo = match info {
            Some(sender_info) => sender_info,
            None => return EventStep::Ignore,
        };
        self.sync_serials(role, msg);
        if role == Role::Display && msg.opcode == 1 {
            let sender: u64 = match self.u2s.get(&display) {
                Some(server) => *server,
                None => 0,
            };
            let destroy: Option<u64> = self.delete_id(msg);
            let args: Vec<Argument<F>> = self.deleted_args(&msg.args);
            return EventStep::Deleted {
                destroy,
                message: Message { sender, opcode: msg.opcode, args },
            };
        }
        let ids: Vec<u64> = read_new_ids(&msg.args);
        if ids.len() == 0 {
            return EventStep::Create { twins: None };
        }
        match sender_info.child {
            Some(child) => {
                let version: u32 = if sender_info.version < child.version {
                    sender_info.version
                } else {
                    child.version
                };
                let spec = ChildSpec { role: role_for_interface(child.name), version };
                let upstream: Vec<u64> = if self.client.is_some() {
                    ids
                } else {
                    Vec::new()
                };
                EventStep::Create { twins: Some(TwinPlan { upstream, spec }) }
            },
            None => EventStep::Create { twins: None },
        }
    }

    fn link_twins(&mut self, twins: &Vec<CreatedTwin>)
        ensures
            final(self)@ == old(self)@.twins_linked(twins@),
    {
        let mut i: usize = 0;
        assert(self@ == old(self)@.twins_linked(twins@.take(0)));
        while i < twins.len()
            invariant
                i <= twins.len(),
                self@ == old(self)@.twins_linked(twins@.take(i as int)),
            decreases twins.len() - i,
        {
            proof {
                assert(twins@.take(i + 1).drop_last() =~= twins@.take(i as int));
                assert(twins@.take(i + 1).last() == twins@[i as int]);
            }
            self.link(twins[i].server, twins[i].upstream);
            i = i + 1;
        }
        assert(twins@.take(twins@.len() as int) =~= twins@);
    }

    fn observe(&mut self, role: Role, msg: &Message<F>)
        ensures
            final(self)@ == old(self)@.observed(role, msg@),
    {
        if role == Role::Keyboard && msg.opcode == 0 {
            if msg.args.len() > 1 {
                match &msg.args[1] {
                    Argument::Fd(fd) => {
                        self.keymap_fd = Some(fd.clone());
                    },
                    _ => {},
                }
            }
            if msg.args.len() > 2 {
                match &msg.args[2] {
                    Argument::Uint(size) => {
                        self.keymap_size = *size;
                    },
                    _ => {},
                }
            }
        } else if role == Role::Keyboard && (msg.opcode == 1 || msg.opcode == 2) {
            if msg.args.len() > 1 {
                match &msg.args[1] {
                    Argument::Object(id) => {
                        let surface: Option<u64> = if *id == 0 {
                            None
                        } else {
                            match self.u2s.get(id) {
                                Some(server) => Some(*server),
                                None => None,
                            }
                        };
                        if msg.opcode == 1 {
                            self.input.focused_surface = surface;
                            self.input.keyboard_focus = surface;
                        } else if self.input.focused_surface == surface {
                            self.input.focused_surface = None;
                            self.input.keyboard_focus = None;
                        }
                    },
                    _ => {},
                }
            }
        }
    }

    /// Second half of forwarding an event: pair the twins that were created,
    /// note what the event says, and give what to send to the application.
    pub fn complete_event(&mut self, role: Role, msg: &Message<F>, twins: &Vec<CreatedTwin>) -> (delivery:
        Delivery<F>)
        ensures
            final(self)@ == old(self)@.event_done(role, msg@, twins@),
            ({
                let seen = old(self)@.twins_linked(twins@).observed(role, msg@);
                &&& delivery.message@ == (MessageView {
                    sender: seen.server_of(msg@.sender),
                    opcode: msg@.opcode,
                    args: Seq::new(
                        msg@.args.len(),
                        |i: int| seen.argument_down(msg@.args[i], twins@),
                    ),
                })
                &&& delivery.destroy == seen.finished_callback(role, msg@)
                &&& delivery.destroy == (if role == Role::Callback && msg.opcode == 0
                    && seen.u2s.contains_key(msg.sender) {
                    Some(seen.u2s[msg.sender])
                } else {
                    None
                })
                &&& delivery.message.opcode == msg.opcode
                &&& delivery.message.sender == (if msg.sender != 0 && seen.u2s.contains_key(
                    msg.sender,
                ) {
                    seen.u2s[msg.sender]
                } else {
                    0
                })
                &&& delivery.message.args@.len() == msg.args@.len()
                &&& forall|i: int|
                    0 <= i < msg.args@.len() ==> match msg.args@[i] {
                        Argument::Object(id) => #[trigger] delivery.message.args@[i]
                            == Argument::<F>::Object(
                            if id != 0 && seen.u2s.contains_key(id) {
                                seen.u2s[id]
                            } else {
                                0
                            },
                        ),
                        Argument::NewId(id) => delivery.message.args@[i] == Argument::<F>::NewId(
                            twin_of(twins@, id),
                        ),
                        other => delivery.message.args@[i] == other,
                    }
            }),
    {
        self.link_twins(twins);
        self.observe(role, msg);
        let sender: u64 = self.map_object_server(msg.sender);
        let args: Vec<Argument<F>> = self.args_down(&msg.args, twins);
        let message = Message { sender, opcode: msg.opcode, args };
        let destroy: Option<u64> = if role == Role::Callback && msg.opcode == 0 {
            match self.u2s.get(&msg.sender) {
                Some(server) => Some(*server),
                None => None,
            }
        } else {
            None
        };
        match destroy {
            Some(server) => self.unlink_server(server),
            None => {},
        }
        Delivery { message, destroy }
    }
}

// ---------------------------------------------------------------------------
// Globals
// ---------------------------------------------------------------------------

/// What to do with an event of the compositor's registry.
pub enum RegistryStep {
    /// Nothing is advertised or withdrawn.
    Ignore,
    /// Advertise a global to the application under a global of the seat's own.
    Advertise { name: u32, interface: KnownInterface, version: u32 },
    /// Withdraw a global of the seat.
    Withdraw { global: u64 },
}

/// The interface name of a registry announcement, where it is well-formed.
pub open spec fn announced<F>(msg: MessageView<F>) -> Option<(u32, Seq<char>, u32)> {
    if msg.opcode == 0 && msg.args.len() >= 3 {
        match (msg.args[0], msg.args[1], msg.args[2]) {
            (
                Argument::Uint(name),
                Argument::Str(Some(bytes)),
                Argument::Uint(version),
            ) => if vstd::utf8::valid_utf8(bytes@) {
                Some((name, vstd::utf8::decode_utf8(bytes@), version))
            } else {
                None
            },
            _ => None,
        }
    } else {
        None
    }
}

/// Whether a global of this interface is advertised to the application.
pub open spec fn advertisable(interface: Seq<char>) -> bool {
    !crate::interfaces::denied(interface) && crate::interfaces::registered(interface) is Some
}

/// The smaller of two versions.
pub open spec fn lower(a: u32, b: u32) -> u32 {
    if a < b {
        a
    } else {
        b
    }
}

/// The name that a registry removal speaks of.
pub open spec fn removed_name<F>(msg: MessageView<F>) -> Option<u32> {
    if msg.opcode == 1 && msg.args.len() > 0 {
        match msg.args[0] {
            Argument::Uint(name) => Some(name),
            _ => None,
        }
    } else {
        None
    }
}

impl<F> ConnView<F> {
    /// The connection once a global was advertised.
    pub open spec fn advertised(self, name: u32, entry: AdvertisedGlobal) -> Self {
        ConnView {
            globals: self.globals.insert(name, entry),
            global_names: self.global_names.insert(entry.global, name),
            ..self
        }
    }

    /// The connection once a global is gone.
    pub open spec fn withdrawn(self, name: u32) -> Self {
        if self.globals.contains_key(name) {
            ConnView {
                globals: self.globals.remove(name),
                global_names: self.global_names.remove(self.globals[name].global),
                ..self
            }
        } else {
            self
        }
    }
}

fn announcement<F>(msg: &Message<F>) -> (read: Option<(u32, String, u32)>)
    ensures
        match read {
            Some((name, interface, version)) => announced(msg@) == Some(
                (name, interface@, version),
            ),
            None => announced(msg@) is None,
        },
{
    if !(msg.opcode == 0 && msg.args.len() >= 3) {
        return None;
    }
    let name: u32 = match &msg.args[0] {
        Argument::Uint(name) => *name,
        _ => return None,
    };
    let bytes: &Arc<Vec<u8>> = match &msg.args[1] {
        Argument::Str(Some(bytes)) => bytes,
        _ => return None,
    };
    let version: u32 = match &msg.args[2] {
        Argument::Uint(version) => *version,
        _ => return None,
    };
    match decoded(bytes) {
        Some(interface) => Some((name, interface, version)),
        None => None,
    }
}

impl<F> Conn<F> {
    /// Decide on an event of the compositor's registry. Unknown and denied
    /// interfaces are never advertised; a known one is advertised at no more
    /// than the version the seat knows.
    pub fn registry_event(&mut self, msg: &Message<F>) -> (step: RegistryStep)
        ensures
            match step {
                RegistryStep::Advertise { name, interface, version } => {
                    &&& final(self)@ == old(self)@
                    &&& announced(msg@) matches Some((announced_name, text, announced_version))
                    &&& advertisable(text)
                    &&& name == announced_name
                    &&& crate::interfaces::registered(text) == Some(
                        crate::interfaces::described(*interface.interface),
                    )
                    &&& interface.is_faithful()
                    &&& version == lower(announced_version, interface.version)
                    &&& version == (if announced_version < interface.version {
                        announced_version
                    } else {
                        interface.version
                    })
                    &&& !crate::interfaces::denied(text)
                },
                RegistryStep::Withdraw { global } => {
                    &&& removed_name(msg@) matches Some(name)
                    &&& old(self)@.globals.contains_key(name)
                    &&& global == old(self)@.globals[name].global
                    &&& final(self)@ == old(self)@.withdrawn(name)
                },
                RegistryStep::Ignore => {
                    &&& final(self)@ == old(self)@
                    &&& announced(msg@) matches Some((name, text, version)) ==> !advertisable(text)
                    &&& removed_name(msg@) matches Some(name) ==> !old(self)@.globals.contains_key(
                        name,
                    )
                },
            },
    {
        if msg.opcode == 1 && msg.args.len() > 0 {
            let name: u32 = match &msg.args[0] {
                Argument::Uint(name) => *name,
                _ => return RegistryStep::Ignore,
            };
            return match self.globals.remove(&name) {
                Some(entry) => {
                    self.server_global_to_name.remove(&entry.global);
                    RegistryStep::Withdraw { global: entry.global }
                },
                None => {
                    assert(self@.globals =~= old(self)@.globals);
                    RegistryStep::Ignore
                },
            };
        }
        match announcement(msg) {
            Some((name, interface, version)) => {
                if is_denied(interface.as_str()) {
                    return RegistryStep::Ignore;
                }
                match by_name(interface.as_str()) {
                    Some(known) => {
                        let version: u32 = if version < known.version {
                            version
                        } else {
                            known.version
                        };
                        RegistryStep::Advertise { name, interface: known, version }
                    },
                    None => RegistryStep::Ignore,
                }
            },
            None => RegistryStep::Ignore,
        }
    }

    /// Record a global that was advertised to the application.
    pub fn advertised(&mut self, name: u32, entry: AdvertisedGlobal)
        ensures
            final(self)@ == old(self)@.advertised(name, entry),
    {
        self.globals.insert(name, entry);
        self.server_global_to_name.insert(entry.global, name);
    }
}

/// A binding to make upstream for an object that the application bound.
pub struct BindPlan<F> {
    /// `wl_registry.bind`, addressed to the compositor's registry.
    pub message: Message<F>,
    pub interface: KnownInterface,
    pub version: u32,
    pub role: Role,
}

fn bytes_of(text: &str) -> (bytes: Arc<Vec<u8>>)
    ensures
        bytes@ == vstd::utf8::encode_utf8(text@),
{
    Arc::new(text.as_bytes_vec())
}

impl<F> Conn<F> {
    /// Decide how to bind upstream what the application bound: at the very
    /// version of the application's object, which keeps both twins alike. The
    /// advertised version stands in where that version cannot be read.
    pub fn bind(&self, upstream_name: u32, object_version: Option<u32>) -> (plan: Option<
        BindPlan<F>,
    >)
        ensures
            match plan {
                Some(plan) => {
                    &&& self@.globals.contains_key(upstream_name)
                    &&& self@.upstream_registry is Some
                    &&& plan.interface == self@.globals[upstream_name].interface
                    &&& plan.version == (match object_version {
                        Some(version) => version,
                        None => self@.globals[upstream_name].version,
                    })
                    &&& plan.role == crate::interfaces::role_of(plan.interface.name@)
                    &&& plan.message.sender == self@.upstream_registry.unwrap()
                    &&& plan.message.opcode == 0
                    &&& plan.message.args@.len() == 4
                    &&& plan.message.args@[0] == Argument::<F>::Uint(upstream_name)
                    &&& plan.message.args@[1] matches Argument::Str(Some(bytes))
                    &&& bytes@ == vstd::utf8::encode_utf8(plan.interface.name@)
                    &&& plan.message.args@[2] == Argument::<F>::Uint(plan.version)
                    &&& plan.message.args@[3] == Argument::<F>::NewId(0)
                },
                None => !self@.globals.contains_key(upstream_name)
                    || self@.upstream_registry is None,
            },
    {
        let entry: AdvertisedGlobal = match self.globals.get(&upstream_name) {
            Some(entry) => *entry,
            None => return None,
        };
        let registry: u64 = match self.upstream_registry {
            Some(registry) => registry,
            None => return None,
        };
        let version: u32 = match object_version {
            Some(version) => version,
            None => entry.version,
        };
        let role: Role = role_for_interface(entry.interface.name);
        let name: Arc<Vec<u8>> = bytes_of(entry.interface.name);
        let mut args: Vec<Argument<F>> = Vec::new();
        args.push(Argument::Uint(upstream_name));
        args.push(Argument::Str(Some(name)));
        args.push(Argument::Uint(version));
        args.push(Argument::NewId(0));
        Some(
            BindPlan {
                message: Message { sender: registry, opcode: 0, args },
                interface: entry.interface,
                version,
                role,
            },
        )
    }
}

} // verus!
