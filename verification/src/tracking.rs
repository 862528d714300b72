//! What the proxy notes of the application's own requests.
use crate::input::InputState;
use crate::interfaces::Role;
use crate::proxy::{
    retain_shm_frame, Argument, BufferKind, BufferView, Conn, ConnView,
    DmaBufPending, DmaBufPlane, Message, MessageView, PendingView, ShmFrame, ShmPool, SurfaceState,
};
use std::sync::Arc;
use vstd::prelude::*;

verus! {

broadcast use vstd::std_specs::hash::group_hash_axioms;

// ---------------------------------------------------------------------------
// Reading arguments
// ---------------------------------------------------------------------------

/// The last descriptor among the arguments.
pub open spec fn last_fd<F>(args: Seq<Argument<F>>) -> Option<Arc<F>>
    decreases args.len(),
{
    if args.len() == 0 {
        None
    } else {
        match args.last() {
            Argument::Fd(fd) => Some(fd),
            _ => last_fd(args.drop_last()),
        }
    }
}

/// The last signed integer among the arguments, zero where there is none.
pub open spec fn last_int<F>(args: Seq<Argument<F>>) -> i32
    decreases args.len(),
{
    if args.len() == 0 {
        0
    } else {
        match args.last() {
            Argument::Int(v) => v,
            _ => last_int(args.drop_last()),
        }
    }
}

/// The unsigned integers among the arguments, in order.
pub open spec fn uints_of<F>(args: Seq<Argument<F>>) -> Seq<u32>
    decreases args.len(),
{
    if args.len() == 0 {
        Seq::empty()
    } else {
        let before = uints_of(args.drop_last());
        match args.last() {
            Argument::Uint(v) => before.push(v),
            _ => before,
        }
    }
}

/// The integers among the arguments, in order, all read as signed.
pub open spec fn ints_of<F>(args: Seq<Argument<F>>) -> Seq<i32>
    decreases args.len(),
{
    if args.len() == 0 {
        Seq::empty()
    } else {
        let before = ints_of(args.drop_last());
        match args.last() {
            Argument::Int(v) => before.push(v),
            Argument::Uint(v) => before.push(v as i32),
            _ => before,
        }
    }
}

/// An element of a sequence, zero behind its end.
pub open spec fn nth(values: Seq<u32>, i: int) -> u32 {
    if 0 <= i < values.len() {
        values[i]
    } else {
        0
    }
}

/// The two halves of a format modifier put together: the upper one comes
/// first.
pub open spec fn joined_modifier(values: Seq<u32>) -> u64 {
    ((nth(values, 3) as u64) << 32) | nth(values, 4) as u64
}

fn read_last_fd<F>(args: &Vec<Argument<F>>) -> (fd: Option<Arc<F>>)
    ensures
        fd == last_fd(args@),
{
    let mut fd: Option<Arc<F>> = None;
    let mut i: usize = 0;
    assert(last_fd(args@.take(0)) is None);
    while i < args.len()
        invariant
            i <= args.len(),
            fd == last_fd(args@.take(i as int)),
        decreases args.len() - i,
    {
        proof {
            assert(args@.take(i + 1).drop_last() =~= args@.take(i as int));
            assert(args@.take(i + 1).last() == args@[i as int]);
        }
        match &args[i] {
            Argument::Fd(f) => {
                fd = Some(f.clone());
            },
            _ => {},
        }
        i = i + 1;
    }
    assert(args@.take(args@.len() as int) =~= args@);
    fd
}

fn read_last_int<F>(args: &Vec<Argument<F>>) -> (value: i32)
    ensures
        value == last_int(args@),
{
    let mut value: i32 = 0;
    let mut i: usize = 0;
    assert(last_int(args@.take(0)) == 0);
    while i < args.len()
        invariant
            i <= args.len(),
            value == last_int(args@.take(i as int)),
        decreases args.len() - i,
    {
        proof {
            assert(args@.take(i + 1).drop_last() =~= args@.take(i as int));
            assert(args@.take(i + 1).last() == args@[i as int]);
        }
        match &args[i] {
            Argument::Int(v) => {
                value = *v;
            },
            _ => {},
        }
        i = i + 1;
    }
    assert(args@.take(args@.len() as int) =~= args@);
    value
}

fn read_uints<F>(args: &Vec<Argument<F>>) -> (values: Vec<u32>)
    ensures
        values@ == uints_of(args@),
{
    let mut values: Vec<u32> = Vec::new();
    let mut i: usize = 0;
    assert(values@ =~= uints_of(args@.take(0)));
    while i < args.len()
        invariant
            i <= args.len(),
            values@ == uints_of(args@.take(i as int)),
        decreases args.len() - i,
    {
        proof {
            assert(args@.take(i + 1).drop_last() =~= args@.take(i as int));
            assert(args@.take(i + 1).last() == args@[i as int]);
        }
        match &args[i] {
            Argument::Uint(v) => {
                values.push(*v);
            },
            _ => {},
        }
        i = i + 1;
    }
    assert(args@.take(args@.len() as int) =~= args@);
    values
}

fn read_ints<F>(args: &Vec<Argument<F>>) -> (values: Vec<i32>)
    ensures
        values@ == ints_of(args@),
{
    let mut values: Vec<i32> = Vec::new();
    let mut i: usize = 0;
    assert(values@ =~= ints_of(args@.take(0)));
    while i < args.len()
        invariant
            i <= args.len(),
            values@ == ints_of(args@.take(i as int)),
        decreases args.len() - i,
    {
        proof {
            assert(args@.take(i + 1).drop_last() =~= args@.take(i as int));
            assert(args@.take(i + 1).last() == args@[i as int]);
        }
        match &args[i] {
            Argument::Int(v) => {
                values.push(*v);
            },
            Argument::Uint(v) => {
                values.push(
                    #[verifier::truncate]
                    (*v as i32),
                );
            },
            _ => {},
        }
        i = i + 1;
    }
    assert(args@.take(args@.len() as int) =~= args@);
    values
}

fn value_at(values: &Vec<u32>, i: usize) -> (value: u32)
    ensures
        value == nth(values@, i as int),
{
    if i < values.len() {
        values[i]
    } else {
        0
    }
}

// ---------------------------------------------------------------------------
// Requests on existing objects
// ---------------------------------------------------------------------------

/// The opcode of `zwp_linux_buffer_params_v1.add`, the second request of its
/// interface; the first one is `destroy`.
pub const PARAMS_ADD: u16 = 1;

impl<F> ConnView<F> {
    /// `wl_surface.attach`: the surface shows what the buffer holds, if that
    /// can be read back at all.
    pub open spec fn attached(self, surface: u64, buffer: u64) -> Self {
        ConnView {
            surfaces: self.surfaces.insert(
                surface,
                SurfaceState {
                    attached: self.readable(buffer),
                    commit_count: self.surface(surface).commit_count,
                    last_commit: self.surface(surface).last_commit,
                },
            ),
            ..self
        }
    }

    /// `wl_surface.commit`: one more frame, and the latest one.
    pub open spec fn committed(self, surface: u64) -> Self {
        ConnView {
            surfaces: self.surfaces.insert(
                surface,
                SurfaceState {
                    attached: self.surface(surface).attached,
                    commit_count: self.surface(surface).commit_count.wrapping_add(1),
                    last_commit: self.commits.wrapping_add(1),
                },
            ),
            commits: self.commits.wrapping_add(1),
            ..self
        }
    }

    /// `wl_shm_pool.resize`: buffers made from now on see the new size.
    pub open spec fn resized(self, pool: u64, size: i32) -> Self {
        if self.pools.contains_key(pool) {
            ConnView {
                pools: self.pools.insert(pool, ShmPool { fd: self.pools[pool].fd, size }),
                ..self
            }
        } else {
            self
        }
    }

    /// Planes gathered so far for a GPU buffer.
    pub open spec fn gathered(self, params: u64) -> PendingView<F> {
        if self.pending.contains_key(params) {
            self.pending[params]
        } else {
            PendingView { planes: Seq::empty(), fds: Seq::empty(), modifier: 0 }
        }
    }

    /// `zwp_linux_buffer_params_v1.add`: one more plane.
    pub open spec fn plane_added(self, params: u64, args: Seq<Argument<F>>) -> Self {
        match last_fd(args) {
            Some(fd) => {
                let before = self.gathered(params);
                let values = uints_of(args);
                ConnView {
                    pending: self.pending.insert(
                        params,
                        PendingView {
                            planes: before.planes.push(
                                DmaBufPlane {
                                    fd_index: before.fds.len() as usize,
                                    offset: nth(values, 1),
                                    stride: nth(values, 2),
                                },
                            ),
                            fds: before.fds.push(fd),
                            modifier: joined_modifier(values),
                        },
                    ),
                    ..self
                }
            },
            None => self,
        }
    }

    /// The text input's own requests: enable, disable and commit.
    pub open spec fn text_input_request(self, opcode: u16) -> Self {
        let input = self.input;
        if opcode == 1 {
            ConnView {
                input: InputState { text_input_pending_enabled: true, ..input },
                ..self
            }
        } else if opcode == 2 {
            ConnView {
                input: InputState { text_input_pending_enabled: false, ..input },
                ..self
            }
        } else if opcode == 7 {
            ConnView {
                input: InputState {
                    text_input_commit_serial: input.text_input_commit_serial.wrapping_add(1),
                    text_input_enabled: input.text_input_pending_enabled,
                    ..input
                },
                ..self
            }
        } else {
            self
        }
    }

    /// What a request changes, by the role of its object.
    pub open spec fn requested(self, role: Role, msg: MessageView<F>) -> Self {
        match role {
            Role::Surface => if msg.opcode == 1 && msg.args.len() > 0 {
                match msg.args[0] {
                    Argument::Object(buffer) => self.attached(msg.sender, buffer),
                    _ => self,
                }
            } else if msg.opcode == 6 {
                self.committed(msg.sender)
            } else {
                self
            },
            Role::ShmPool => if msg.opcode == 2 && msg.args.len() > 0 {
                match msg.args[0] {
                    Argument::Int(size) => self.resized(msg.sender, size),
                    _ => self,
                }
            } else {
                self
            },
            Role::TextInput => self.text_input_request(msg.opcode),
            Role::DmaBufParams => if msg.opcode == PARAMS_ADD {
                self.plane_added(msg.sender, msg.args)
            } else {
                self
            },
            _ => self,
        }
    }
}

impl<F> Conn<F> {
    fn take_surface(&mut self, id: u64) -> (state: SurfaceState<F>)
        ensures
            state == old(self)@.surface(id),
            final(self)@ == (ConnView { surfaces: old(self)@.surfaces.remove(id), ..old(self)@ }),
    {
        match self.surfaces.remove(&id) {
            Some(state) => state,
            None => SurfaceState { attached: None, commit_count: 0, last_commit: 0 },
        }
    }

    fn attach(&mut self, surface: u64, buffer: u64)
        ensures
            final(self)@ == old(self)@.attached(surface, buffer),
    {
        let frame: Option<ShmFrame<F>> = if buffer == 0 {
            None
        } else {
            match self.buffers.get(&buffer) {
                Some(kind) => retain_shm_frame(kind),
                None => None,
            }
        };
        let state: SurfaceState<F> = self.take_surface(surface);
        self.surfaces.insert(
            surface,
            SurfaceState {
                attached: frame,
                commit_count: state.commit_count,
                last_commit: state.last_commit,
            },
        );
        assert(self@ =~= old(self)@.attached(surface, buffer));
    }

    fn commit(&mut self, surface: u64)
        ensures
            final(self)@ == old(self)@.committed(surface),
    {
        let state: SurfaceState<F> = self.take_surface(surface);
        self.commits = self.commits.wrapping_add(1);
        self.surfaces.insert(
            surface,
            SurfaceState {
                attached: state.attached,
                commit_count: state.commit_count.wrapping_add(1),
                last_commit: self.commits,
            },
        );
        assert(self@ =~= old(self)@.committed(surface));
    }

    fn resize(&mut self, pool: u64, size: i32)
        ensures
            final(self)@ == old(self)@.resized(pool, size),
    {
        match self.shm_pools.remove(&pool) {
            Some(known) => {
                self.shm_pools.insert(pool, ShmPool { fd: known.fd, size });
            },
            None => {},
        }
        assert(self@ =~= old(self)@.resized(pool, size));
    }

    fn add_plane(&mut self, params: u64, args: &Vec<Argument<F>>)
        ensures
            final(self)@ == old(self)@.plane_added(params, args@),
    {
        match read_last_fd(args) {
            Some(fd) => {
                let values: Vec<u32> = read_uints(args);
                let ghost before = self.dmabuf_pending@;
                let mut gathered: DmaBufPending<F> = match self.dmabuf_pending.remove(&params) {
                    Some(gathered) => gathered,
                    None => DmaBufPending { planes: Vec::new(), fds: Vec::new(), modifier: 0 },
                };
                gathered.planes.push(
                    DmaBufPlane {
                        fd_index: gathered.fds.len(),
                        offset: value_at(&values, 1),
                        stride: value_at(&values, 2),
                    },
                );
                gathered.fds.push(fd);
                gathered.modifier = ((value_at(&values, 3) as u64) << 32) | value_at(
                    &values,
                    4,
                ) as u64;
                proof {
                    crate::proxy::lemma_mapped_remove(before, params);
                    crate::proxy::lemma_mapped_insert(before.remove(params), params, gathered);
                }
                self.dmabuf_pending.insert(params, gathered);
                assert(self@ =~= old(self)@.plane_added(params, args@));
            },
            None => {},
        }
    }

    /// Record protocol-specific state for a request before it is forwarded.
    pub fn track_request(&mut self, role: Role, msg: &Message<F>)
        ensures
            final(self)@ == old(self)@.requested(role, msg@),
    {
        match role {
            Role::Surface => {
                if msg.opcode == 1 && msg.args.len() > 0 {
                    match &msg.args[0] {
                        Argument::Object(buffer) => self.attach(msg.sender, *buffer),
                        _ => {},
                    }
                } else if msg.opcode == 6 {
                    self.commit(msg.sender);
                }
            },
            Role::ShmPool => {
                if msg.opcode == 2 && msg.args.len() > 0 {
                    match &msg.args[0] {
                        Argument::Int(size) => self.resize(msg.sender, *size),
                        _ => {},
                    }
                }
            },
            Role::TextInput => {
                if msg.opcode == 1 {
                    self.input.text_input_pending_enabled = true;
                } else if msg.opcode == 2 {
                    self.input.text_input_pending_enabled = false;
                } else if msg.opcode == 7 {
                    self.input.text_input_commit_serial =
                    self.input.text_input_commit_serial.wrapping_add(1);
                    self.input.text_input_enabled = self.input.text_input_pending_enabled;
                }
            },
            Role::DmaBufParams => {
                if msg.opcode == PARAMS_ADD {
                    self.add_plane(msg.sender, &msg.args);
                }
            },
            _ => {},
        }
    }
}

// ---------------------------------------------------------------------------
// Newly created objects
// ---------------------------------------------------------------------------

impl<F> ConnView<F> {
    /// `wl_shm.create_pool`: remember the pool's descriptor and size.
    pub open spec fn pool_created(self, id: u64, args: Seq<Argument<F>>) -> Self {
        match last_fd(args) {
            Some(fd) => ConnView {
                pools: self.pools.insert(id, ShmPool { fd, size: last_int(args) }),
                ..self
            },
            None => self,
        }
    }

    /// `wl_shm_pool.create_buffer`: remember where in the pool the buffer lies.
    pub open spec fn buffer_created(self, id: u64, pool: u64, args: Seq<Argument<F>>) -> Self {
        let ints = ints_of(args);
        if ints.len() >= 5 && self.pools.contains_key(pool) {
            ConnView {
                buffers: self.buffers.insert(
                    id,
                    BufferView::Shm(
                        ShmFrame {
                            fd: self.pools[pool].fd,
                            pool_size: self.pools[pool].size,
                            offset: ints[0],
                            width: ints[1],
                            height: ints[2],
                            stride: ints[3],
                            format: ints[4] as u32,
                        },
                    ),
                ),
                ..self
            }
        } else {
            self
        }
    }

    /// `zwp_linux_buffer_params_v1.create_immed`: the gathered planes become a
    /// buffer.
    pub open spec fn gpu_buffer_created(
        self,
        id: u64,
        params: u64,
        args: Seq<Argument<F>>,
    ) -> Self {
        let ints = ints_of(args);
        if self.pending.contains_key(params) {
            let rest = self.pending.remove(params);
            if ints.len() >= 3 {
                ConnView {
                    pending: rest,
                    buffers: self.buffers.insert(
                        id,
                        BufferView::DmaBuf {
                            width: ints[0],
                            height: ints[1],
                            format: ints[2] as u32,
                            pending: self.pending[params],
                        },
                    ),
                    ..self
                }
            } else {
                ConnView { pending: rest, ..self }
            }
        } else {
            self
        }
    }

    /// What a new object adds, by its role.
    pub open spec fn created(self, role: Role, id: u64, msg: MessageView<F>) -> Self {
        let input = self.input;
        match role {
            Role::ShmPool => self.pool_created(id, msg.args),
            Role::ShmBuffer => self.buffer_created(id, msg.sender, msg.args),
            Role::DmaBufBuffer => self.gpu_buffer_created(id, msg.sender, msg.args),
            Role::Pointer => ConnView { input: InputState { pointer: Some(id), ..input }, ..self },
            Role::Keyboard => ConnView { input: InputState { keyboard: Some(id), ..input }, ..self },
            Role::TextInput => ConnView {
                input: InputState { text_input: Some(id), ..input },
                ..self
            },
            Role::Surface => ConnView {
                surfaces: self.surfaces.insert(id, self.surface(id)),
                ..self
            },
            _ => self,
        }
    }
}

impl<F> Conn<F> {
    fn create_pool(&mut self, id: u64, args: &Vec<Argument<F>>)
        ensures
            final(self)@ == old(self)@.pool_created(id, args@),
    {
        match read_last_fd(args) {
            Some(fd) => {
                let size: i32 = read_last_int(args);
                self.shm_pools.insert(id, ShmPool { fd, size });
            },
            None => {},
        }
    }

    fn create_buffer(&mut self, id: u64, pool: u64, args: &Vec<Argument<F>>)
        ensures
            final(self)@ == old(self)@.buffer_created(id, pool, args@),
    {
        let ints: Vec<i32> = read_ints(args);
        if ints.len() >= 5 {
            let frame: Option<ShmFrame<F>> = match self.shm_pools.get(&pool) {
                Some(known) => Some(
                    ShmFrame {
                        fd: known.fd.clone(),
                        pool_size: known.size,
                        offset: ints[0],
                        width: ints[1],
                        height: ints[2],
                        stride: ints[3],
                        format: #[verifier::truncate]
                        (ints[4] as u32),
                    },
                ),
                None => None,
            };
            match frame {
                Some(frame) => {
                    let kind = BufferKind::Shm(frame);
                    proof {
                        crate::proxy::lemma_mapped_insert(self.buffers@, id, kind);
                    }
                    self.buffers.insert(id, kind);
                },
                None => {},
            }
        }
        assert(self@ =~= old(self)@.buffer_created(id, pool, args@));
    }

    fn create_gpu_buffer(&mut self, id: u64, params: u64, args: &Vec<Argument<F>>)
        ensures
            final(self)@ == old(self)@.gpu_buffer_created(id, params, args@),
    {
        proof {
            crate::proxy::lemma_mapped_remove(self.dmabuf_pending@, params);
        }
        match self.dmabuf_pending.remove(&params) {
            Some(pending) => {
                let ints: Vec<i32> = read_ints(args);
                if ints.len() >= 3 {
                    let kind = BufferKind::DmaBuf {
                        width: ints[0],
                        height: ints[1],
                        format: #[verifier::truncate]
                        (ints[2] as u32),
                        pending,
                    };
                    proof {
                        crate::proxy::lemma_mapped_insert(self.buffers@, id, kind);
                    }
                    self.buffers.insert(id, kind);
                }
            },
            None => {},
        }
        assert(self@ =~= old(self)@.gpu_buffer_created(id, params, args@));
    }

    /// Register a newly created object for capture and injection.
    pub fn track_created(&mut self, role: Role, id: u64, msg: &Message<F>)
        ensures
            final(self)@ == old(self)@.created(role, id, msg@),
    {
        match role {
            Role::ShmPool => self.create_pool(id, &msg.args),
            Role::ShmBuffer => self.create_buffer(id, msg.sender, &msg.args),
            Role::DmaBufBuffer => self.create_gpu_buffer(id, msg.sender, &msg.args),
            Role::Pointer => {
                self.input.pointer = Some(id);
            },
            Role::Keyboard => {
                self.input.keyboard = Some(id);
            },
            Role::TextInput => {
                self.input.text_input = Some(id);
            },
            Role::Surface => {
                let state: SurfaceState<F> = self.take_surface(id);
                self.surfaces.insert(id, state);
                assert(self@ =~= old(self)@.created(role, id, msg@));
            },
            _ => {},
        }
    }
}

} // verus!
