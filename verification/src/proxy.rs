//! The state of one proxied connection and the rules that move it.
//!
//! The application talks to a private server, and the proxy talks to the real
//! compositor on its behalf. Both sides number their objects on their own, so
//! every message is rewritten from one numbering to the other. On the way the
//! proxy notes what capture and injection need: shared-memory pools and
//! buffers, what each surface shows, the input objects, the keymap and the
//! keyboard focus.
//!
//! Objects of either side are named by handles. The handle `0` stands for the
//! null object. Descriptors are shared values of a type `F`.
use crate::input::InputState;
use crate::interfaces::KnownInterface;
use std::collections::HashMap;
use std::sync::Arc;
use vstd::prelude::*;

verus! {

broadcast use vstd::std_specs::hash::group_hash_axioms;

// ---------------------------------------------------------------------------
// Messages
// ---------------------------------------------------------------------------

/// One argument of a message.
pub enum Argument<F> {
    Int(i32),
    Uint(u32),
    Fixed(i32),
    Str(Option<Arc<Vec<u8>>>),
    Array(Arc<Vec<u8>>),
    Object(u64),
    NewId(u64),
    Fd(Arc<F>),
}

/// One request or event.
pub struct Message<F> {
    pub sender: u64,
    pub opcode: u16,
    pub args: Vec<Argument<F>>,
}

/// What a message says.
#[verifier::ext_equal]
pub struct MessageView<F> {
    pub sender: u64,
    pub opcode: u16,
    pub args: Seq<Argument<F>>,
}

impl<F> View for Message<F> {
    type V = MessageView<F>;

    open spec fn view(&self) -> MessageView<F> {
        MessageView { sender: self.sender, opcode: self.opcode, args: self.args@ }
    }
}

/// An object on the compositor's side: its handle and its protocol id.
#[derive(Clone, Copy, Debug, PartialEq, Eq, Structural)]
pub struct UpstreamObject {
    pub handle: u64,
    pub protocol_id: u32,
}

// ---------------------------------------------------------------------------
// Capture state
// ---------------------------------------------------------------------------

/// A `wl_shm` pool created by the application.
pub struct ShmPool<F> {
    pub fd: Arc<F>,
    pub size: i32,
}

/// Everything needed to read a shared-memory buffer back. A surface keeps it
/// after `wl_surface.attach`: the application may destroy the buffer and its
/// pool right away, while the pixels stay in use.
pub struct ShmFrame<F> {
    pub fd: Arc<F>,
    pub pool_size: i32,
    pub offset: i32,
    pub width: i32,
    pub height: i32,
    pub stride: i32,
    pub format: u32,
}

/// One plane of a GPU buffer.
#[derive(Clone, Copy, Debug)]
pub struct DmaBufPlane {
    pub fd_index: usize,
    pub offset: u32,
    pub stride: u32,
}

/// The planes of a GPU buffer, gathered before the buffer is created.
pub struct DmaBufPending<F> {
    pub planes: Vec<DmaBufPlane>,
    pub fds: Vec<Arc<F>>,
    pub modifier: u64,
}

/// What gathered planes amount to.
#[verifier::ext_equal]
pub struct PendingView<F> {
    pub planes: Seq<DmaBufPlane>,
    pub fds: Seq<Arc<F>>,
    pub modifier: u64,
}

impl<F> View for DmaBufPending<F> {
    type V = PendingView<F>;

    open spec fn view(&self) -> PendingView<F> {
        PendingView { planes: self.planes@, fds: self.fds@, modifier: self.modifier }
    }
}

/// Metadata of a buffer the application may attach to its surfaces.
pub enum BufferKind<F> {
    Shm(ShmFrame<F>),
    DmaBuf { width: i32, height: i32, format: u32, pending: DmaBufPending<F> },
}

/// What a buffer's metadata amounts to.
pub enum BufferView<F> {
    Shm(ShmFrame<F>),
    DmaBuf { width: i32, height: i32, format: u32, pending: PendingView<F> },
}

impl<F> View for BufferKind<F> {
    type V = BufferView<F>;

    open spec fn view(&self) -> BufferView<F> {
        match *self {
            BufferKind::Shm(frame) => BufferView::Shm(frame),
            BufferKind::DmaBuf { width, height, format, pending } => BufferView::DmaBuf {
                width,
                height,
                format,
                pending: pending@,
            },
        }
    }
}

/// Per-surface state for capture.
pub struct SurfaceState<F> {
    /// Readable buffer attached most recently (none: unattached or not `wl_shm`).
    pub attached: Option<ShmFrame<F>>,
    /// Incremented on every `commit`.
    pub commit_count: u64,
    /// Number of the most recent `commit`, counted over all surfaces; zero
    /// where there was none.
    pub last_commit: u64,
}

/// A global that the seat advertises to the application.
#[derive(Clone, Copy)]
pub struct AdvertisedGlobal {
    pub global: u64,
    pub interface: KnownInterface,
    pub version: u32,
}

// ---------------------------------------------------------------------------
// The connection
// ---------------------------------------------------------------------------

/// Shared state of one proxied connection.
pub struct Conn<F> {
    pub client: Option<u64>,
    pub upstream_registry: Option<u64>,
    pub s2u: HashMap<u64, UpstreamObject>,
    pub u2s: HashMap<u64, u64>,
    pub u2s_proto: HashMap<u32, u64>,
    pub globals: HashMap<u32, AdvertisedGlobal>,
    pub server_global_to_name: HashMap<u64, u32>,
    pub shm_pools: HashMap<u64, ShmPool<F>>,
    pub buffers: HashMap<u64, BufferKind<F>>,
    pub surfaces: HashMap<u64, SurfaceState<F>>,
    /// Commits on any surface so far.
    pub commits: u64,
    pub dmabuf_pending: HashMap<u64, DmaBufPending<F>>,
    pub keymap_fd: Option<Arc<F>>,
    pub keymap_size: u32,
    pub input: InputState,
    pub dead: bool,
}

/// What a connection holds.
#[verifier::ext_equal]
pub struct ConnView<F> {
    pub client: Option<u64>,
    pub upstream_registry: Option<u64>,
    pub s2u: Map<u64, UpstreamObject>,
    pub u2s: Map<u64, u64>,
    pub u2s_proto: Map<u32, u64>,
    pub globals: Map<u32, AdvertisedGlobal>,
    pub global_names: Map<u64, u32>,
    pub pools: Map<u64, ShmPool<F>>,
    pub buffers: Map<u64, BufferView<F>>,
    pub surfaces: Map<u64, SurfaceState<F>>,
    pub commits: u64,
    pub pending: Map<u64, PendingView<F>>,
    pub keymap_fd: Option<Arc<F>>,
    pub keymap_size: u32,
    pub input: InputState,
    pub dead: bool,
}

impl<F> View for Conn<F> {
    type V = ConnView<F>;

    open spec fn view(&self) -> ConnView<F> {
        ConnView {
            client: self.client,
            upstream_registry: self.upstream_registry,
            s2u: self.s2u@,
            u2s: self.u2s@,
            u2s_proto: self.u2s_proto@,
            globals: self.globals@,
            global_names: self.server_global_to_name@,
            pools: self.shm_pools@,
            buffers: self.buffers@.map_values(|kind: BufferKind<F>| kind@),
            surfaces: self.surfaces@,
            commits: self.commits,
            pending: self.dmabuf_pending@.map_values(|pending: DmaBufPending<F>| pending@),
            keymap_fd: self.keymap_fd,
            keymap_size: self.keymap_size,
            input: self.input,
            dead: self.dead,
        }
    }
}

impl<F> ConnView<F> {
    /// A connection on which nothing has happened yet.
    pub open spec fn fresh() -> Self {
        ConnView {
            client: None,
            upstream_registry: None,
            s2u: Map::empty(),
            u2s: Map::empty(),
            u2s_proto: Map::empty(),
            globals: Map::empty(),
            global_names: Map::empty(),
            pools: Map::empty(),
            buffers: Map::empty(),
            surfaces: Map::empty(),
            commits: 0,
            pending: Map::empty(),
            keymap_fd: None,
            keymap_size: 0,
            input: InputState::initial(),
            dead: false,
        }
    }

    /// The two numberings agree: each object of one side that has a partner
    /// is that partner's partner.
    pub open spec fn paired(self) -> bool {
        &&& forall|s: u64| #[trigger]
            self.s2u.contains_key(s) ==> self.u2s.contains_key(self.s2u[s].handle)
                && self.u2s[self.s2u[s].handle] == s
        &&& forall|u: u64| #[trigger]
            self.u2s.contains_key(u) ==> self.s2u.contains_key(self.u2s[u])
                && self.s2u[self.u2s[u]].handle == u
    }

    /// Pair a server object with an upstream object.
    pub open spec fn linked(self, server: u64, upstream: UpstreamObject) -> Self {
        ConnView {
            s2u: self.s2u.insert(server, upstream),
            u2s: self.u2s.insert(upstream.handle, server),
            u2s_proto: self.u2s_proto.insert(upstream.protocol_id, server),
            ..self
        }
    }

    /// Forget which upstream object a server object is paired with.
    pub open spec fn unpaired(self, server: u64) -> Self {
        if self.s2u.contains_key(server) {
            let upstream = self.s2u[server];
            ConnView {
                s2u: self.s2u.remove(server),
                u2s: self.u2s.remove(upstream.handle),
                u2s_proto: self.u2s_proto.remove(upstream.protocol_id),
                ..self
            }
        } else {
            self
        }
    }

    /// Forget what was tracked of a server object for capture.
    pub open spec fn untracked(self, server: u64) -> Self {
        ConnView {
            pools: self.pools.remove(server),
            buffers: self.buffers.remove(server),
            surfaces: self.surfaces.remove(server),
            pending: self.pending.remove(server),
            ..self
        }
    }

    /// Forget an upstream object.
    pub open spec fn unlinked_upstream(self, upstream: UpstreamObject) -> Self {
        let protocols = self.u2s_proto.remove(upstream.protocol_id);
        if self.u2s.contains_key(upstream.handle) {
            ConnView {
                s2u: self.s2u.remove(self.u2s[upstream.handle]),
                u2s: self.u2s.remove(upstream.handle),
                u2s_proto: protocols,
                ..self
            }
        } else {
            ConnView { u2s_proto: protocols, ..self }
        }
    }

    /// The upstream handle of a server object, null where it has none.
    pub open spec fn upstream_of(self, id: u64) -> u64 {
        if id != 0 && self.s2u.contains_key(id) {
            self.s2u[id].handle
        } else {
            0
        }
    }

    /// The server handle of an upstream object, null where it has none.
    pub open spec fn server_of(self, id: u64) -> u64 {
        if id != 0 && self.u2s.contains_key(id) {
            self.u2s[id]
        } else {
            0
        }
    }

    /// The state of a surface, the initial one where nothing is known of it.
    pub open spec fn surface(self, id: u64) -> SurfaceState<F> {
        if self.surfaces.contains_key(id) {
            self.surfaces[id]
        } else {
            SurfaceState { attached: None, commit_count: 0, last_commit: 0 }
        }
    }

    /// The readable frame behind a buffer object, if any.
    pub open spec fn readable(self, buffer: u64) -> Option<ShmFrame<F>> {
        if buffer != 0 && self.buffers.contains_key(buffer) {
            match self.buffers[buffer] {
                BufferView::Shm(frame) => Some(frame),
                BufferView::DmaBuf { .. } => None,
            }
        } else {
            None
        }
    }
}

pub(crate) proof fn lemma_mapped_insert<K, V: View>(m: Map<K, V>, k: K, v: V)
    ensures
        m.insert(k, v).map_values(|x: V| x@) =~= m.map_values(|x: V| x@).insert(k, v@),
{
}

pub(crate) proof fn lemma_mapped_remove<K, V: View>(m: Map<K, V>, k: K)
    ensures
        m.remove(k).map_values(|x: V| x@) =~= m.map_values(|x: V| x@).remove(k),
{
}

/// The keys of a map, in the order in which it is walked.
pub(crate) fn keys_of<V>(map: &HashMap<u64, V>) -> (keys: Vec<u64>)
    ensures
        forall|k: u64| map@.contains_key(k) <==> #[trigger] keys@.contains(k),
{
    let mut keys: Vec<u64> = Vec::new();
    let ghost all = vstd::std_specs::iter::IteratorSpec::remaining(
        &vstd::std_specs::hash::spec_keys_iter(map),
    );
    for key in it: map.keys()
        invariant
            it.seq() == all,
            keys@ == all.unref().take(it.index()),
    {
        keys.push(*key);
    }
    assert(keys@ =~= all.unref());
    assert forall|k: u64| map@.contains_key(k) <==> #[trigger] keys@.contains(k) by {
        assert(all.unref().to_set().contains(k) <==> keys@.contains(k));
    }
    keys
}

/// The readable frame behind a buffer's metadata: GPU buffers have none.
pub fn retain_shm_frame<F>(buffer: &BufferKind<F>) -> (frame: Option<ShmFrame<F>>)
    ensures
        frame == (match buffer@ {
            BufferView::Shm(frame) => Some(frame),
            BufferView::DmaBuf { .. } => None,
        }),
{
    match buffer {
        BufferKind::Shm(frame) => Some(
            ShmFrame {
                fd: frame.fd.clone(),
                pool_size: frame.pool_size,
                offset: frame.offset,
                width: frame.width,
                height: frame.height,
                stride: frame.stride,
                format: frame.format,
            },
        ),
        BufferKind::DmaBuf { .. } => None,
    }
}

impl<F> Conn<F> {
    /// The state of a connection that was just opened.
    pub fn new() -> (conn: Self)
        ensures
            conn@ == ConnView::<F>::fresh(),
    {
        let conn = Conn {
            client: None,
            upstream_registry: None,
            s2u: HashMap::new(),
            u2s: HashMap::new(),
            u2s_proto: HashMap::new(),
            globals: HashMap::new(),
            server_global_to_name: HashMap::new(),
            shm_pools: HashMap::new(),
            buffers: HashMap::new(),
            surfaces: HashMap::new(),
            commits: 0,
            dmabuf_pending: HashMap::new(),
            keymap_fd: None,
            keymap_size: 0,
            input: InputState::new(),
            dead: false,
        };
        assert(conn@ =~= ConnView::<F>::fresh());
        conn
    }

    /// Pair a server object with its upstream twin.
    pub fn link(&mut self, server: u64, upstream: UpstreamObject)
        ensures
            final(self)@ == old(self)@.linked(server, upstream),
    {
        self.u2s_proto.insert(upstream.protocol_id, server);
        self.s2u.insert(server, upstream);
        self.u2s.insert(upstream.handle, server);
    }

    fn unpair(&mut self, server: u64) -> (upstream: Option<UpstreamObject>)
        ensures
            final(self)@ == old(self)@.unpaired(server),
            upstream == (if old(self)@.s2u.contains_key(server) {
                Some(old(self)@.s2u[server])
            } else {
                None
            }),
    {
        let upstream: Option<UpstreamObject> = self.s2u.remove(&server);
        match upstream {
            Some(twin) => {
                self.u2s.remove(&twin.handle);
                self.u2s_proto.remove(&twin.protocol_id);
            },
            None => {
                assert(self@.s2u =~= old(self)@.s2u);
            },
        }
        upstream
    }

    fn untrack(&mut self, server: u64)
        ensures
            final(self)@ == old(self)@.untracked(server),
    {
        proof {
            lemma_mapped_remove(self.buffers@, server);
            lemma_mapped_remove(self.dmabuf_pending@, server);
        }
        self.shm_pools.remove(&server);
        self.buffers.remove(&server);
        self.surfaces.remove(&server);
        self.dmabuf_pending.remove(&server);
    }

    /// Forget a server object everywhere: its twin, what was tracked of it,
    /// and every role it has in input injection.
    pub fn unlink_server(&mut self, server: u64)
        ensures
            final(self)@ == (ConnView {
                input: old(self)@.input.without(server),
                ..old(self)@.unpaired(server).untracked(server)
            }),
    {
        let _ = self.unpair(server);
        self.untrack(server);
        self.input.forget(server);
    }

    /// Forget an upstream object and its server twin's pairing.
    pub fn unlink_upstream(&mut self, upstream: UpstreamObject)
        ensures
            final(self)@ == old(self)@.unlinked_upstream(upstream),
    {
        match self.u2s.remove(&upstream.handle) {
            Some(server) => {
                self.s2u.remove(&server);
            },
            None => {
                assert(self@.u2s =~= old(self)@.u2s);
            },
        }
        self.u2s_proto.remove(&upstream.protocol_id);
    }

    /// The application's object is gone: forget it and name the upstream twin
    /// that must be destroyed with it.
    pub fn server_destroyed(&mut self, server: u64) -> (twin: Option<UpstreamObject>)
        ensures
            final(self)@ == old(self)@.unpaired(server).untracked(server),
            twin == (if old(self)@.s2u.contains_key(server) {
                Some(old(self)@.s2u[server])
            } else {
                None
            }),
    {
        let twin: Option<UpstreamObject> = self.unpair(server);
        self.untrack(server);
        twin
    }

    /// The upstream handle of a server object; null where it has none.
    pub fn map_object_upstream(&self, id: u64) -> (upstream: u64)
        ensures
            upstream == self@.upstream_of(id),
    {
        if id == 0 {
            0
        } else {
            match self.s2u.get(&id) {
                Some(twin) => twin.handle,
                None => 0,
            }
        }
    }

    /// The server handle of an upstream object; null where it has none.
    pub fn map_object_server(&self, id: u64) -> (server: u64)
        ensures
            server == self@.server_of(id),
    {
        if id == 0 {
            0
        } else {
            match self.u2s.get(&id) {
                Some(twin) => *twin,
                None => 0,
            }
        }
    }
}

} // verus!
