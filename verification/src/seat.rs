//! The seat: which applications are connected, which connection a process is
//! bound to, and how everything is torn down.
use crate::bridge::{
    BridgeAction, BridgeActionView, BridgeFailure, BridgeStart, BridgeState, XwaylandBridge,
    XwaylandView,
};
use crate::clock::is_within;
use crate::command::CommandPlan;
use crate::error::SeatError;
use crate::harness::configure_seat;
use crate::identity::fresh_socket_name;
use crate::session::{SeatSetup, Session, SetupAction, SetupState};
use crate::teardown::{Teardown, TeardownStage};
use std::collections::{HashMap, HashSet};
use std::sync::Arc;
use std::time::Duration;
use vstd::prelude::*;

verus! {

broadcast use vstd::std_specs::hash::group_hash_axioms;

// ---------------------------------------------------------------------------
// Paths to clean up
// ---------------------------------------------------------------------------

/// The directories to remove when a connection closes, as the bytes of their
/// paths.
pub struct CleanupPaths {
    pub closed: bool,
    pub paths: Vec<Vec<u8>>,
}

impl Default for CleanupPaths {
    fn default() -> (cleanup: Self)
        ensures
            !cleanup.closed,
            cleanup.paths@ == Seq::<Vec<u8>>::empty(),
    {
        CleanupPaths { closed: false, paths: Vec::new() }
    }
}

impl CleanupPaths {
    /// Have a directory removed at the end. One that comes too late is handed
    /// back, to be removed right away.
    pub fn register(&mut self, path: Vec<u8>) -> (late: Option<Vec<u8>>)
        ensures
            final(self).closed == old(self).closed,
            if old(self).closed {
                late == Some(path) && final(self).paths@ == old(self).paths@
            } else {
                late is None && final(self).paths@ == old(self).paths@.push(path)
            },
    {
        if self.closed {
            Some(path)
        } else {
            self.paths.push(path);
            None
        }
    }

    /// The end: all directories so far are handed out, and none is kept.
    pub fn close(&mut self) -> (paths: Vec<Vec<u8>>)
        ensures
            final(self).closed,
            final(self).paths@ == Seq::<Vec<u8>>::empty(),
            paths@ == old(self).paths@,
    {
        self.closed = true;
        let mut paths: Vec<Vec<u8>> = Vec::new();
        std::mem::swap(&mut self.paths, &mut paths);
        paths
    }
}

// ---------------------------------------------------------------------------
// Removing one connection of several
// ---------------------------------------------------------------------------

/// The items that are not marked, in order.
pub open spec fn unmarked<T>(items: Seq<T>, marks: Seq<bool>) -> Seq<T>
    decreases items.len(),
{
    if items.len() == 0 {
        Seq::empty()
    } else if marks[items.len() - 1] {
        unmarked(items.drop_last(), marks)
    } else {
        unmarked(items.drop_last(), marks).push(items.last())
    }
}

/// Remove the marked items, keeping the order of the others.
pub fn remove_marked<T>(items: &mut Vec<T>, marks: &Vec<bool>) -> (removed: bool)
    requires
        marks@.len() == old(items)@.len(),
    ensures
        final(items)@ == unmarked(old(items)@, marks@),
        removed == exists|i: int| 0 <= i < marks@.len() && #[trigger] marks@[i],
{
    let ghost all = items@;
    let mut removed: bool = false;
    let mut left: usize = items.len();
    assert(all.take(left as int) =~= all);
    assert(items@.skip(left as int) =~= Seq::<T>::empty());
    assert(unmarked(all, marks@) + Seq::<T>::empty() =~= unmarked(all, marks@));
    while left > 0
        invariant
            left <= marks@.len() == all.len(),
            left <= items@.len(),
            items@.take(left as int) == all.take(left as int),
            unmarked(all.take(left as int), marks@) + items@.skip(left as int) == unmarked(
                all,
                marks@,
            ),
            removed == exists|i: int| left <= i < marks@.len() && #[trigger] marks@[i],
        decreases left,
    {
        let ghost before = items@;
        let ghost last = all[left - 1];
        proof {
            assert(all.take(left as int).drop_last() =~= all.take(left - 1));
            assert(all.take(left as int).last() == last);
            assert(before.take(left as int)[left - 1] == before[left - 1]);
        }
        left = left - 1;
        if marks[left] {
            items.remove(left);
            removed = true;
            proof {
                assert(items@.skip(left as int) =~= before.skip(left + 1));
                assert(items@.take(left as int) =~= before.take(left + 1).take(left as int));
                assert(all.take(left + 1).take(left as int) =~= all.take(left as int));
            }
        } else {
            proof {
                assert(items@.skip(left as int) =~= seq![last] + before.skip(left + 1));
                assert(items@.take(left as int) =~= before.take(left + 1).take(left as int));
                assert(all.take(left + 1).take(left as int) =~= all.take(left as int));
                let head = unmarked(all.take(left as int), marks@);
                assert(head.push(last) + before.skip(left + 1) =~= head + (seq![last]
                    + before.skip(left + 1)));
            }
        }
    }
    assert(items@ =~= unmarked(all.take(0), marks@) + items@.skip(0));
    removed
}

/// `Arc::ptr_eq`: whether two handles share one value. Which values share
/// their place depends on how the handles were made; those that do are the
/// same value.
#[verifier::external_body]
fn is_same_place<V>(a: &Arc<V>, b: &Arc<V>) -> (same: bool)
    ensures
        same ==> *a == *b,
{
    Arc::ptr_eq(a, b)
}

/// Whether asking if two handles share one value comes to this answer.
pub closed spec fn tells_same_place<V>(a: Arc<V>, b: Arc<V>, same: bool) -> bool {
    call_ensures(is_same_place::<V>, (&a, &b), same)
}

/// Handles that share a place hold the same value.
pub proof fn lemma_same_place_same_value<V>(a: Arc<V>, b: Arc<V>)
    requires
        tells_same_place(a, b, true),
    ensures
        a == b,
{
}

fn marks_of<V, T: Fn(&Arc<V>, &Arc<V>) -> bool>(
    items: &Vec<Arc<V>>,
    expected: &Arc<V>,
    test: T,
) -> (marks: Vec<bool>)
    requires
        forall|item: &Arc<V>| call_requires(test, (item, expected)),
    ensures
        marks@.len() == items@.len(),
        forall|i: int|
            0 <= i < marks@.len() ==> call_ensures(
                test,
                (&items@[i], expected),
                #[trigger] marks@[i],
            ),
{
    let mut marks: Vec<bool> = Vec::new();
    let mut i: usize = 0;
    while i < items.len()
        invariant
            i <= items@.len(),
            marks@.len() == i,
            forall|item: &Arc<V>| call_requires(test, (item, expected)),
            forall|j: int|
                0 <= j < i ==> call_ensures(test, (&items@[j], expected), #[trigger] marks@[j]),
        decreases items@.len() - i,
    {
        marks.push(test(&items[i], expected));
        i = i + 1;
    }
    marks
}

/// Remove every handle on the expected value itself: each item is asked
/// whether it shares the expected place, and exactly those that do leave. An
/// equal value of its own stays.
pub fn remove_same_arc<V>(items: &mut Vec<Arc<V>>, expected: &Arc<V>) -> (removed: bool)
    ensures
        exists|marks: Seq<bool>|
            {
                &&& marks.len() == old(items)@.len()
                &&& forall|i: int|
                    0 <= i < marks.len() ==> tells_same_place(
                        old(items)@[i],
                        *expected,
                        #[trigger] marks[i],
                    )
                &&& forall|i: int|
                    0 <= i < marks.len() && #[trigger] marks[i] ==> old(items)@[i] == *expected
                &&& final(items)@ == #[trigger] unmarked(old(items)@, marks)
                &&& removed == exists|i: int| 0 <= i < marks.len() && #[trigger] marks[i]
            },
{
    let marks: Vec<bool> = marks_of(items, expected, is_same_place::<V>);
    let ghost told = marks@;
    proof {
        assert forall|i: int| 0 <= i < told.len() && #[trigger] told[i] implies items@[i]
            == *expected by {
            lemma_same_place_same_value(items@[i], *expected);
        }
    }
    remove_marked(items, &marks)
}

// ---------------------------------------------------------------------------
// The registry of connections
// ---------------------------------------------------------------------------

/// A connected application. One process may hold several connections, each
/// with a number of its own.
#[derive(Clone, Copy, Debug, PartialEq, Eq, Structural)]
pub struct AppEntry {
    pub id: u64,
    pub pid: u32,
}

/// The connections other than this one, in order.
pub open spec fn others(apps: Seq<AppEntry>, id: u64) -> Seq<AppEntry>
    decreases apps.len(),
{
    if apps.len() == 0 {
        Seq::empty()
    } else if apps.last().id == id {
        others(apps.drop_last(), id)
    } else {
        others(apps.drop_last(), id).push(apps.last())
    }
}

/// Whether a process is connected.
pub open spec fn has_process(apps: Seq<AppEntry>, pid: u32) -> bool {
    exists|i: int| 0 <= i < apps.len() && (#[trigger] apps[i]).pid == pid
}

/// The connections of a process, in order.
pub open spec fn of_process(apps: Seq<AppEntry>, pid: u32) -> Seq<AppEntry>
    decreases apps.len(),
{
    if apps.len() == 0 {
        Seq::empty()
    } else if apps.last().pid == pid {
        of_process(apps.drop_last(), pid).push(apps.last())
    } else {
        of_process(apps.drop_last(), pid)
    }
}

/// The connections of processes that are not in a set, in order.
pub open spec fn newcomers(apps: Seq<AppEntry>, before: Set<u32>) -> Seq<AppEntry>
    decreases apps.len(),
{
    if apps.len() == 0 {
        Seq::empty()
    } else if before.contains(apps.last().pid) {
        newcomers(apps.drop_last(), before)
    } else {
        newcomers(apps.drop_last(), before).push(apps.last())
    }
}

/// The last of these connections that passes a test.
pub open spec fn last_passing(apps: Seq<AppEntry>, passes: Seq<bool>) -> Option<AppEntry>
    decreases apps.len(),
{
    if apps.len() == 0 {
        None
    } else if passes[apps.len() - 1] {
        Some(apps.last())
    } else {
        last_passing(apps.drop_last(), passes)
    }
}

/// Private Wayland proxy: its socket, its connections and their bindings.
pub struct AgentSeat {
    socket_name: String,
    runtime_dir: String,
    apps: Vec<AppEntry>,
    bound: HashMap<u32, u64>,
    next_id: u64,
    stopping: bool,
    socket_removed: bool,
}

/// What a seat holds.
#[verifier::ext_equal]
pub struct SeatView {
    pub socket_name: Seq<char>,
    pub runtime_dir: Seq<char>,
    pub apps: Seq<AppEntry>,
    pub bound: Map<u32, u64>,
    pub next_id: u64,
    pub stopping: bool,
    pub socket_removed: bool,
}

impl View for AgentSeat {
    type V = SeatView;

    closed spec fn view(&self) -> SeatView {
        SeatView {
            socket_name: self.socket_name@,
            runtime_dir: self.runtime_dir@,
            apps: self.apps@,
            bound: self.bound@,
            next_id: self.next_id,
            stopping: self.stopping,
            socket_removed: self.socket_removed,
        }
    }
}

impl SeatView {
    /// No two connections have the same number, and none has one that is
    /// still to be given out.
    pub open spec fn wf(self) -> bool {
        &&& forall|i: int| 0 <= i < self.apps.len() ==> (#[trigger] self.apps[i]).id < self.next_id
        &&& forall|i: int, j: int|
            0 <= i < j < self.apps.len() ==> (#[trigger] self.apps[i]).id != (
            #[trigger] self.apps[j]).id
    }

    /// A connection is gone: nothing is bound to it any more, nor to one that
    /// has ceased to exist.
    pub open spec fn removed(self, id: u64, live: Set<u64>) -> Self {
        SeatView {
            apps: others(self.apps, id),
            bound: self.bound.restrict(
                Set::new(
                    |pid: u32|
                        self.bound.contains_key(pid) && live.contains(self.bound[pid])
                            && self.bound[pid] != id,
                ),
            ),
            ..self
        }
    }
}

impl AgentSeat {
    /// A seat that was just opened.
    pub fn new(socket_name: String, runtime_dir: String) -> (seat: Self)
        ensures
            seat@ == (SeatView {
                socket_name: socket_name@,
                runtime_dir: runtime_dir@,
                apps: Seq::empty(),
                bound: Map::empty(),
                next_id: 0,
                stopping: false,
                socket_removed: false,
            }),
            seat@.wf(),
    {
        AgentSeat {
            socket_name,
            runtime_dir,
            apps: Vec::new(),
            bound: HashMap::new(),
            next_id: 0,
            stopping: false,
            socket_removed: false,
        }
    }

    /// The `WAYLAND_DISPLAY` value that applications must use.
    pub fn socket_name(&self) -> (name: String)
        ensures
            name@ == self@.socket_name,
    {
        self.socket_name.clone()
    }

    /// The directory that the seat's socket is in.
    pub fn runtime_dir(&self) -> (directory: String)
        ensures
            directory@ == self@.runtime_dir,
    {
        self.runtime_dir.clone()
    }

    /// Configure a process to connect through this seat.
    pub fn configure_command(&self, command: &mut CommandPlan)
        ensures
            final(command)@ == old(command)@.on_seat(self@.socket_name),
    {
        configure_seat(command, self.socket_name.as_str());
    }

    /// Whether the seat is being torn down.
    pub fn is_stopping(&self) -> (stopping: bool)
        ensures
            stopping == self@.stopping,
    {
        self.stopping
    }

    /// Serve no further connections.
    pub fn stop(&mut self)
        ensures
            final(self)@ == (SeatView { stopping: true, ..old(self)@ }),
    {
        self.stopping = true;
    }

    /// Note that the socket is removed, and say whether it was still there.
    pub fn forget_socket(&mut self) -> (present: bool)
        ensures
            present == !old(self)@.socket_removed,
            final(self)@ == (SeatView { socket_removed: true, ..old(self)@ }),
    {
        let present: bool = !self.socket_removed;
        self.socket_removed = true;
        present
    }

    /// Forget all connections and bindings.
    pub fn clear(&mut self)
        ensures
            final(self)@ == (SeatView { apps: Seq::empty(), bound: Map::empty(), ..old(self)@ }),
    {
        self.apps.clear();
        self.bound.clear();
        assert(self@.bound =~= Map::empty());
    }

    /// Whether another connection can get a number.
    pub fn has_room(&self) -> (room: bool)
        ensures
            room == (self@.next_id < u64::MAX),
    {
        self.next_id < u64::MAX
    }

    /// Note a new connection.
    pub fn connect(&mut self, pid: u32) -> (app: AppEntry)
        requires
            old(self)@.wf(),
            old(self)@.next_id < u64::MAX,
        ensures
            app == (AppEntry { id: old(self)@.next_id, pid }),
            final(self)@ == (SeatView {
                apps: old(self)@.apps.push(app),
                next_id: (old(self)@.next_id + 1) as u64,
                ..old(self)@
            }),
            final(self)@.wf(),
    {
        let app = AppEntry { id: self.next_id, pid };
        self.apps.push(app);
        self.next_id = self.next_id + 1;
        app
    }

    /// The most recently connected application. Used as a fallback when the
    /// bound target's process does not match the connected peer's.
    pub fn most_recent_app(&self) -> (app: Option<AppEntry>)
        ensures
            app == (if self@.apps.len() == 0 {
                None
            } else {
                Some(self@.apps.last())
            }),
    {
        if self.apps.len() == 0 {
            None
        } else {
            Some(self.apps[self.apps.len() - 1])
        }
    }

    /// Number of connected applications.
    pub fn app_count(&self) -> (count: usize)
        ensures
            count == self@.apps.len(),
    {
        self.apps.len()
    }

    /// The connected applications, in the order in which they came.
    pub fn connections(&self) -> (apps: Vec<AppEntry>)
        ensures
            apps@ == self@.apps,
    {
        let apps: Vec<AppEntry> = self.apps.clone();
        assert(apps@ =~= self.apps@);
        apps
    }

    /// The set of currently connected processes.
    pub fn connected_pids(&self) -> (pids: HashSet<u32>)
        ensures
            forall|pid: u32| #[trigger] pids@.contains(pid) <==> has_process(self@.apps, pid),
    {
        let mut pids: HashSet<u32> = HashSet::new();
        let mut i: usize = 0;
        while i < self.apps.len()
            invariant
                i <= self.apps@.len(),
                forall|pid: u32| #[trigger]
                    pids@.contains(pid) <==> has_process(self.apps@.take(i as int), pid),
            decreases self.apps@.len() - i,
        {
            let pid: u32 = self.apps[i].pid;
            let ghost seen = self.apps@.take(i as int);
            let ghost after = self.apps@.take(i + 1);
            pids.insert(pid);
            assert forall|p: u32| #[trigger] pids@.contains(p) <==> has_process(after, p) by {
                if has_process(seen, p) {
                    let at = choose|at: int| 0 <= at < seen.len() && (#[trigger] seen[at]).pid == p;
                    assert(after[at].pid == p);
                }
                if p == pid {
                    assert(after[i as int].pid == p);
                }
                if has_process(after, p) && p != pid {
                    let at = choose|at: int|
                        0 <= at < after.len() && (#[trigger] after[at]).pid == p;
                    assert(seen[at].pid == p);
                }
            }
            i = i + 1;
        }
        assert(self.apps@.take(self.apps@.len() as int) =~= self.apps@);
        pids
    }

    /// Pin subsequent lookups for the application's process to this exact
    /// connection.
    pub fn bind_app(&mut self, app: AppEntry)
        ensures
            final(self)@ == (SeatView {
                bound: old(self)@.bound.insert(app.pid, app.id),
                ..old(self)@
            }),
    {
        self.bind_app_for_pid(app.pid, app);
    }

    /// Bind a process to the connection that transports its pixels and input.
    /// Normally the connection is its own; a bridge deliberately transports
    /// the window of another process.
    pub fn bind_app_for_pid(&mut self, application_pid: u32, app: AppEntry)
        ensures
            final(self)@ == (SeatView {
                bound: old(self)@.bound.insert(application_pid, app.id),
                ..old(self)@
            }),
    {
        self.bound.insert(application_pid, app.id);
    }

    /// The connection that a process is bound to.
    pub fn bound_app(&self, pid: u32) -> (app: Option<u64>)
        ensures
            app == (if self@.bound.contains_key(pid) {
                Some(self@.bound[pid])
            } else {
                None
            }),
    {
        match self.bound.get(&pid) {
            Some(app) => Some(*app),
            None => None,
        }
    }

    /// The connections of a process, in order.
    pub fn candidates(&self, pid: u32) -> (apps: Vec<AppEntry>)
        ensures
            apps@ == of_process(self@.apps, pid),
    {
        let mut apps: Vec<AppEntry> = Vec::new();
        let mut i: usize = 0;
        while i < self.apps.len()
            invariant
                i <= self.apps@.len(),
                apps@ == of_process(self.apps@.take(i as int), pid),
            decreases self.apps@.len() - i,
        {
            proof {
                assert(self.apps@.take(i + 1).drop_last() =~= self.apps@.take(i as int));
                assert(self.apps@.take(i + 1).last() == self.apps@[i as int]);
            }
            if self.apps[i].pid == pid {
                apps.push(self.apps[i]);
            }
            i = i + 1;
        }
        assert(self.apps@.take(self.apps@.len() as int) =~= self.apps@);
        apps
    }

    /// The connections of processes that were not connected before, in order.
    pub fn new_candidates(&self, before: &HashSet<u32>) -> (apps: Vec<AppEntry>)
        ensures
            apps@ == newcomers(self@.apps, before@),
    {
        let mut apps: Vec<AppEntry> = Vec::new();
        let mut i: usize = 0;
        while i < self.apps.len()
            invariant
                i <= self.apps@.len(),
                apps@ == newcomers(self.apps@.take(i as int), before@),
            decreases self.apps@.len() - i,
        {
            proof {
                assert(self.apps@.take(i + 1).drop_last() =~= self.apps@.take(i as int));
                assert(self.apps@.take(i + 1).last() == self.apps@[i as int]);
            }
            if !before.contains(&self.apps[i].pid) {
                apps.push(self.apps[i]);
            }
            i = i + 1;
        }
        assert(self.apps@.take(self.apps@.len() as int) =~= self.apps@);
        apps
    }

    /// Note that a connection is gone. `live` are the connections that still
    /// exist anywhere.
    pub fn remove_app(&mut self, id: u64, live: &HashSet<u64>)
        ensures
            final(self)@ == old(self)@.removed(id, live@),
    {
        let mut marks: Vec<bool> = Vec::new();
        let mut i: usize = 0;
        while i < self.apps.len()
            invariant
                i <= self.apps@.len(),
                self@ == old(self)@,
                marks@.len() == i,
                forall|j: int| 0 <= j < i ==> #[trigger] marks@[j] == (self.apps@[j].id == id),
            decreases self.apps@.len() - i,
        {
            marks.push(self.apps[i].id == id);
            i = i + 1;
        }
        proof {
            lemma_unmarked_others(self.apps@, marks@, id);
        }
        remove_marked(&mut self.apps, &marks);
        let pids: Vec<u32> = bound_pids(&self.bound);
        let ghost bound = self.bound@;
        let ghost keep = |pid: u32| live@.contains(bound[pid]) && bound[pid] != id;
        let mut k: usize = 0;
        while k < pids.len()
            invariant
                k <= pids@.len(),
                self.socket_name@ == old(self).socket_name@,
                self.runtime_dir@ == old(self).runtime_dir@,
                self.apps@ == others(old(self).apps@, id),
                self.next_id == old(self).next_id,
                self.stopping == old(self).stopping,
                self.socket_removed == old(self).socket_removed,
                bound == old(self).bound@,
                forall|pid: u32| bound.contains_key(pid) <==> #[trigger] pids@.contains(pid),
                forall|pid: u32| #[trigger]
                    self.bound@.contains_key(pid) <==> bound.contains_key(pid) && (live@.contains(
                        bound[pid],
                    ) && bound[pid] != id || !pids@.take(k as int).contains(pid)),
                forall|pid: u32| #[trigger]
                    self.bound@.contains_key(pid) ==> self.bound@[pid] == bound[pid],
            decreases pids@.len() - k,
        {
            let pid: u32 = pids[k];
            assert(pids@.contains(pids@[k as int]));
            let drop: bool = match self.bound.get(&pid) {
                Some(app) => !live.contains(app) || *app == id,
                None => false,
            };
            if drop {
                self.bound.remove(&pid);
            }
            proof {
                let seen = pids@.take(k as int);
                let after = pids@.take(k + 1);
                assert(after =~= seen.push(pid));
                assert forall|p: u32| #[trigger] after.contains(p) <==> seen.contains(p) || p
                    == pid by {
                    if seen.contains(p) {
                        let at = choose|at: int| 0 <= at < seen.len() && #[trigger] seen[at] == p;
                        assert(after[at] == p);
                    }
                    if p == pid {
                        assert(after[k as int] == p);
                    }
                    if after.contains(p) && p != pid {
                        let at = choose|at: int| 0 <= at < after.len() && #[trigger] after[at] == p;
                        assert(seen[at] == p);
                    }
                }
            }
            k = k + 1;
        }
        proof {
            assert(pids@.take(pids@.len() as int) =~= pids@);
            assert(self@.bound =~= old(self)@.removed(id, live@).bound);
        }
    }
}

proof fn lemma_unmarked_others(apps: Seq<AppEntry>, marks: Seq<bool>, id: u64)
    requires
        marks.len() >= apps.len(),
        forall|j: int| 0 <= j < apps.len() ==> #[trigger] marks[j] == (apps[j].id == id),
    ensures
        unmarked(apps, marks) == others(apps, id),
    decreases apps.len(),
{
    if apps.len() > 0 {
        lemma_unmarked_others(apps.drop_last(), marks, id);
    }
}

fn bound_pids(map: &HashMap<u32, u64>) -> (pids: Vec<u32>)
    ensures
        forall|pid: u32| map@.contains_key(pid) <==> #[trigger] pids@.contains(pid),
{
    let mut pids: Vec<u32> = Vec::new();
    let ghost all = vstd::std_specs::iter::IteratorSpec::remaining(
        &vstd::std_specs::hash::spec_keys_iter(map),
    );
    for pid in it: map.keys()
        invariant
            it.seq() == all,
            pids@ == all.unref().take(it.index()),
    {
        pids.push(*pid);
    }
    assert(pids@ =~= all.unref());
    assert forall|pid: u32| map@.contains_key(pid) <==> #[trigger] pids@.contains(pid) by {
        assert(all.unref().to_set().contains(pid) <==> pids@.contains(pid));
    }
    pids
}

/// The last of these connections whose window was seen.
pub fn last_interactive(apps: &Vec<AppEntry>, interactive: &Vec<bool>) -> (app: Option<AppEntry>)
    requires
        interactive@.len() == apps@.len(),
    ensures
        app == last_passing(apps@, interactive@),
{
    let mut left: usize = apps.len();
    assert(apps@.take(left as int) =~= apps@);
    while left > 0
        invariant
            left <= apps@.len() == interactive@.len(),
            last_passing(apps@.take(left as int), interactive@) == last_passing(
                apps@,
                interactive@,
            ),
        decreases left,
    {
        proof {
            assert(apps@.take(left as int).drop_last() =~= apps@.take(left - 1));
            assert(apps@.take(left as int).last() == apps@[left - 1]);
        }
        if interactive[left - 1] {
            return Some(apps[left - 1]);
        }
        left = left - 1;
    }
    None
}

/// The connection of a process: the one it is bound to where that still
/// exists, else the last one with a window, else the last one.
pub open spec fn is_app_of(
    bound: Option<u64>,
    candidates: Seq<AppEntry>,
    interactive: Seq<bool>,
    app: Option<u64>,
) -> bool {
    match bound {
        Some(id) => app == Some(id),
        None => match last_passing(candidates, interactive) {
            Some(entry) => app == Some(entry.id),
            None => if candidates.len() == 0 {
                app is None
            } else {
                app == Some(candidates.last().id)
            },
        },
    }
}

/// Choose the connection of a process. `bound` is the connection that the
/// process is bound to, where that still exists.
pub fn choose_app(bound: Option<u64>, candidates: &Vec<AppEntry>, interactive: &Vec<bool>) -> (app:
    Option<u64>)
    requires
        interactive@.len() == candidates@.len(),
    ensures
        is_app_of(bound, candidates@, interactive@, app),
{
    if bound.is_some() {
        return bound;
    }
    match last_interactive(candidates, interactive) {
        Some(entry) => Some(entry.id),
        None => {
            if candidates.len() == 0 {
                None
            } else {
                Some(candidates[candidates.len() - 1].id)
            }
        },
    }
}

/// What waiting for an application comes to.
#[derive(Clone, Copy, Debug, PartialEq, Eq, Structural)]
pub enum WaitStep {
    Found(AppEntry),
    /// Look again after this many milliseconds.
    Again { millis: u64 },
    TimedOut,
}

impl AgentSeat {
    /// Begin to create a seat in the session that `XDG_RUNTIME_DIR` and
    /// `WAYLAND_DISPLAY` name, with a fresh socket for this process.
    pub fn create(runtime_dir: Option<String>, display: Option<String>, pid: u32) -> (begun: Result<
        (SeatSetup, SetupAction),
        SeatError,
    >)
        ensures
            match begun {
                Ok((setup, action)) => {
                    &&& crate::session::is_set(runtime_dir) && crate::session::is_set(display)
                    &&& setup.session.runtime_dir@ == runtime_dir.unwrap()@
                    &&& setup.session.upstream_socket@ == crate::session::socket_of(
                        runtime_dir.unwrap()@,
                        display.unwrap()@,
                    )
                    &&& exists|id: u128| #[trigger]
                        crate::identity::is_drawn(id) && setup.socket_name@
                            == crate::identity::seat_name(pid, id)
                    &&& setup.state == SetupState::Checking
                    &&& setup.failure is None
                    &&& action is CheckUpstream
                },
                Err(SeatError::MissingRuntimeDir) => !crate::session::is_set(runtime_dir),
                Err(SeatError::NoWaylandSession) => crate::session::is_set(runtime_dir)
                    && !crate::session::is_set(display),
                Err(_) => false,
            },
    {
        match Session::discover(runtime_dir, display) {
            Ok(session) => Ok(SeatSetup::begin(session, fresh_socket_name(pid))),
            Err(error) => Err(error),
        }
    }

    /// Begin to stop this seat: close every connection, and reap bridges.
    /// Calling this more than once is safe.
    pub fn close(&mut self) -> (teardown: Teardown)
        ensures
            teardown.stage == TeardownStage::Socket,
            final(self)@ == (SeatView { stopping: true, ..old(self)@ }),
    {
        Teardown::begin(self)
    }

    /// Begin to start an owner-authenticated XWayland server whose single
    /// root window is itself a client of this seat.
    pub fn start_xwayland_bridge(&self, width: u16, height: u16, pid: u32, diagnostics: bool) -> (begun:
        (BridgeStart, BridgeAction))
        ensures
            begun.0@.order.width == width,
            begun.0@.order.height == height,
            begun.0@.order.socket_name@ == self@.socket_name,
            begun.0@.order.runtime_dir@ == self@.runtime_dir,
            begun.0@.order.diagnostics == diagnostics,
            begun.0@.failure is None,
            exists|id: u128| #[trigger]
                crate::identity::is_drawn(id) && begun.0@.order.name@
                    == crate::identity::bridge_name(pid, id),
            exists|first: u128, second: u128|
                #![trigger crate::identity::is_drawn(first), crate::identity::is_drawn(second)]
                crate::identity::is_drawn(first) && crate::identity::is_drawn(second)
                    && begun.0@.order.cookie@ == crate::identity::id_digits(first)
                    + crate::identity::id_digits(second),
            if crate::bridge::is_bridge_size(width, height) {
                begun.0@.state == BridgeState::Finding && begun.1 is FindXwayland
            } else {
                begun.0@.state == BridgeState::Over && begun.1.says(
                    BridgeActionView::Fail {
                        kind: BridgeFailure::Xwayland,
                        message: "bridge geometry must be at least 160x120"@,
                    },
                )
            },
    {
        BridgeStart::begin(
            width,
            height,
            self.socket_name.clone(),
            self.runtime_dir.clone(),
            pid,
            diagnostics,
        )
    }

    /// Take a bridge's process over. Whoever reaps it then removes the
    /// bridge's own directory, which comes with it.
    pub fn adopt_xwayland_bridge<C>(&self, bridge: &mut XwaylandBridge<C>) -> (adopted: Result<
        (C, String),
        SeatError,
    >)
        ensures
            match adopted {
                Ok((child, directory)) => old(bridge)@.child == Some(child) && directory@ == old(
                    bridge,
                )@.runtime_dir,
                Err(error) => old(bridge)@.child is None && crate::bridge::is_failure(
                    error,
                    BridgeFailure::Xwayland,
                    "XWayland bridge process was already transferred"@,
                ),
            },
            final(bridge)@ == (XwaylandView { child: None, ..old(bridge)@ }),
    {
        match bridge.take_child() {
            Ok(child) => Ok((child, bridge.runtime_dir())),
            Err(error) => Err(error),
        }
    }

    /// One look of the wait for a window of a process not connected before.
    pub fn wait_new_capturable_app<W: Fn(u64) -> bool>(
        &self,
        before: &HashSet<u32>,
        elapsed: &Duration,
        timeout: &Duration,
        has_window: W,
    ) -> (step: WaitStep)
        requires
            forall|id: u64| call_requires(has_window, (id,)),
        ensures
            if crate::clock::duration_nanos(*elapsed) < crate::clock::duration_nanos(*timeout) {
                exists|interactive: Seq<bool>|
                    {
                        &&& interactive.len() == newcomers(self@.apps, before@).len()
                        &&& forall|i: int|
                            0 <= i < interactive.len() ==> call_ensures(
                                has_window,
                                (newcomers(self@.apps, before@)[i].id,),
                                #[trigger] interactive[i],
                            )
                        &&& step == match #[trigger] last_passing(
                            newcomers(self@.apps, before@),
                            interactive,
                        ) {
                            Some(app) => WaitStep::Found(app),
                            None => WaitStep::Again { millis: 50 },
                        }
                    }
            } else {
                step == WaitStep::TimedOut
            },
    {
        if !is_within(elapsed, timeout) {
            return WaitStep::TimedOut;
        }
        match self.new_capturable_app(before, has_window) {
            Some(app) => WaitStep::Found(app),
            None => WaitStep::Again { millis: 50 },
        }
    }

    /// The connection of a process, when it is connected. `bound_lives` says
    /// whether the connection that it is bound to still exists;
    /// `has_window` whether a connection shows a window.
    pub fn app<W: Fn(u64) -> bool>(&self, pid: u32, bound_lives: bool, has_window: W) -> (app:
        Option<u64>)
        requires
            forall|id: u64| call_requires(has_window, (id,)),
        ensures
            if bound_lives && self@.bound.contains_key(pid) {
                app == Some(self@.bound[pid])
            } else {
                exists|interactive: Seq<bool>|
                    {
                        &&& interactive.len() == of_process(self@.apps, pid).len()
                        &&& forall|i: int|
                            0 <= i < interactive.len() ==> call_ensures(
                                has_window,
                                (of_process(self@.apps, pid)[i].id,),
                                #[trigger] interactive[i],
                            )
                        &&& #[trigger] is_app_of(
                            None,
                            of_process(self@.apps, pid),
                            interactive,
                            app,
                        )
                    }
            },
    {
        let bound: Option<u64> = self.bound_app(pid);
        if bound_lives && bound.is_some() {
            return bound;
        }
        let apps: Vec<AppEntry> = self.candidates(pid);
        let interactive: Vec<bool> = windows(&apps, has_window);
        choose_app(None, &apps, &interactive)
    }

    /// The last connection of a process not connected before that shows a
    /// window. One process can open several connections; binding the first
    /// one can select a helper with no visible surface.
    pub fn new_capturable_app<W: Fn(u64) -> bool>(&self, before: &HashSet<u32>, has_window: W) -> (app:
        Option<AppEntry>)
        requires
            forall|id: u64| call_requires(has_window, (id,)),
        ensures
            exists|interactive: Seq<bool>|
                {
                    &&& interactive.len() == newcomers(self@.apps, before@).len()
                    &&& forall|i: int|
                        0 <= i < interactive.len() ==> call_ensures(
                            has_window,
                            (newcomers(self@.apps, before@)[i].id,),
                            #[trigger] interactive[i],
                        )
                    &&& app == #[trigger] last_passing(
                        newcomers(self@.apps, before@),
                        interactive,
                    )
                },
    {
        let apps: Vec<AppEntry> = self.new_candidates(before);
        let interactive: Vec<bool> = windows(&apps, has_window);
        last_interactive(&apps, &interactive)
    }
}

fn windows<W: Fn(u64) -> bool>(apps: &Vec<AppEntry>, has_window: W) -> (interactive: Vec<bool>)
    requires
        forall|id: u64| call_requires(has_window, (id,)),
    ensures
        interactive@.len() == apps@.len(),
        forall|i: int|
            0 <= i < apps@.len() ==> call_ensures(
                has_window,
                (apps@[i].id,),
                #[trigger] interactive@[i],
            ),
{
    let mut interactive: Vec<bool> = Vec::new();
    let mut i: usize = 0;
    while i < apps.len()
        invariant
            i <= apps@.len(),
            interactive@.len() == i,
            forall|id: u64| call_requires(has_window, (id,)),
            forall|j: int|
                0 <= j < i ==> call_ensures(has_window, (apps@[j].id,), #[trigger] interactive@[j]),
        decreases apps@.len() - i,
    {
        interactive.push(has_window(apps[i].id));
        i = i + 1;
    }
    interactive
}

} // verus!
