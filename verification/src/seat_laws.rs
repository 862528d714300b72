//! What holds of opening, serving and using a seat, step by step.
use crate::error::SeatError;
use crate::seat::{AppEntry, SeatView};
use crate::serve::{LoopAction, LoopEvent, LoopState, ReadOutcome};
use crate::session::{SetupAction, SetupEvent, SetupState};
use crate::teardown::{TeardownAction, TeardownStage};
use std::sync::Arc;
use vstd::prelude::*;

verus! {

// ---------------------------------------------------------------------------
// Opening
// ---------------------------------------------------------------------------

/// A seat is opened in order: the compositor must be there, old sockets are
/// swept away, the path is cleared, the socket is bound, closed to others and
/// made nonblocking.
pub proof fn law_seats_are_opened_in_order(
    state: SetupState,
    failure: Option<Seq<char>>,
    event: SetupEvent,
    next: SetupState,
    next_failure: Option<Seq<char>>,
    action: SetupAction,
)
    requires
        crate::session::setup_steps_to(state, failure, event, next, next_failure, action),
    ensures
        state == SetupState::Checking && event == (SetupEvent::UpstreamSeen { exists: true })
            ==> next == SetupState::Sweeping && action is SweepStale,
        state == SetupState::Checking && event == (SetupEvent::UpstreamSeen { exists: false })
            ==> next == SetupState::Over && action == SetupAction::Fail(
            SeatError::NoWaylandSession,
        ),
        state == SetupState::Sweeping && event is Swept ==> next == SetupState::Clearing
            && action is ClearPath,
        state == SetupState::Clearing && event is Cleared ==> next == SetupState::Binding
            && action is Bind,
        state == SetupState::Binding && event is Bound ==> next == SetupState::Restricting
            && action == (SetupAction::Restrict { mode: 0o600 }),
        state == SetupState::Restricting && event is Restricted ==> next == SetupState::Unblocking
            && action is Unblock,
        state == SetupState::Unblocking && event is Unblocked ==> next == SetupState::Over
            && action is Ready,
{
}

/// What keeps a seat from being opened is what is reported: at once where the
/// socket was not bound, and else once it is removed again.
pub proof fn law_setup_errors_are_reported(
    state: SetupState,
    failure: Option<Seq<char>>,
    event: SetupEvent,
    next: SetupState,
    next_failure: Option<Seq<char>>,
    action: SetupAction,
)
    requires
        crate::session::setup_steps_to(state, failure, event, next, next_failure, action),
    ensures
        state == SetupState::Binding ==> (event matches SetupEvent::BindFailed { error } ==> (
        action matches SetupAction::Fail(SeatError::SocketCreate(text)) && text@
            == "could not bind the agent seat socket: "@ + error@)),
        state == SetupState::Restricting ==> (event matches SetupEvent::RestrictFailed { error }
            ==> action is Discard && next == SetupState::Discarding && next_failure == Some(
            "could not restrict the agent seat socket permissions: "@ + error@,
        )),
        state == SetupState::Unblocking ==> (event matches SetupEvent::UnblockFailed { error }
            ==> action is Discard && next == SetupState::Discarding && next_failure == Some(
            "could not make the seat socket nonblocking: "@ + error@,
        )),
        state == SetupState::Discarding && event is Discarded && failure is Some ==> (
        action matches SetupAction::Fail(SeatError::SocketCreate(text)) && text@
            == failure.unwrap()) && next == SetupState::Over,
{
}

/// Whether a report answers what opening a seat asked for.
pub open spec fn is_awaited(state: SetupState, event: SetupEvent) -> bool {
    match state {
        SetupState::Checking => event is UpstreamSeen,
        SetupState::Sweeping => event is Swept,
        SetupState::Clearing => event is Cleared,
        SetupState::Binding => event is Bound || event is BindFailed,
        SetupState::Restricting => event is Restricted || event is RestrictFailed,
        SetupState::Unblocking => event is Unblocked || event is UnblockFailed,
        SetupState::Discarding => event is Discarded,
        SetupState::Over => false,
    }
}

/// A report that was not asked for changes nothing; one that was is always
/// answered, save the end of a removal whose error is missing.
pub proof fn law_only_awaited_reports_count(
    state: SetupState,
    failure: Option<Seq<char>>,
    event: SetupEvent,
    next: SetupState,
    next_failure: Option<Seq<char>>,
    action: SetupAction,
)
    requires
        crate::session::setup_steps_to(state, failure, event, next, next_failure, action),
    ensures
        !is_awaited(state, event) ==> next == state && next_failure == failure && action is Ignore,
        is_awaited(state, event) && !(state == SetupState::Discarding && failure is None)
            ==> !(action is Ignore) && next != state,
{
}

/// The compositor's socket is the one that the display names: an absolute
/// path as it stands, and a name in the runtime directory.
pub proof fn law_displays_name_their_socket(runtime_dir: Seq<char>, display: Seq<char>)
    requires
        display.len() > 0,
    ensures
        display[0] == '/' ==> crate::session::socket_of(runtime_dir, display) == display,
        display[0] != '/' && runtime_dir.len() > 0 && runtime_dir.last() != '/'
            ==> crate::session::socket_of(runtime_dir, display) == runtime_dir + seq!['/']
            + display,
        display[0] != '/' && runtime_dir.len() > 0 && runtime_dir.last() == '/'
            ==> crate::session::socket_of(runtime_dir, display) == runtime_dir + display,
{
}

/// Only names of seat sockets tell an owner.
pub proof fn law_other_files_have_no_owner(name: Seq<char>)
    requires
        name.len() < 11 || name.take(11) != "agent-seat-"@,
    ensures
        crate::session::owner_of(name) is None,
{
    reveal_strlit("agent-seat-");
    assert("agent-seat-"@.len() == 11);
}

// ---------------------------------------------------------------------------
// Serving
// ---------------------------------------------------------------------------

/// A round serves the application where it is ready, then the compositor
/// where that is ready, and sends what is queued; then the next round begins,
/// unless the seat stops or the connection is dead.
pub proof fn law_rounds_serve_both_sides(
    state: LoopState,
    event: LoopEvent,
    stopping: bool,
    dead: bool,
)
    ensures
        ({
            let (next, action, after) = crate::serve::serves(state, event, stopping, dead);
            &&& state == LoopState::Polling ==> (event matches LoopEvent::Polled { keys } ==> {
                let application = exists|i: int| 0 <= i < keys@.len() && keys@[i] == 1;
                let compositor = exists|i: int| 0 <= i < keys@.len() && keys@[i] == 2;
                &&& application ==> action == LoopAction::DispatchServer && next
                    == (LoopState::Serving { upstream: compositor })
                &&& !application && compositor ==> action == LoopAction::ReadUpstream && next
                    == LoopState::Reading
                &&& !application && !compositor ==> action == LoopAction::Flush && next
                    == LoopState::Flushing
                &&& after == dead
            })
            &&& state == LoopState::Polling && event is PollFailed ==> action == LoopAction::Exit
                && next == LoopState::Over
            &&& state matches LoopState::Serving { upstream } ==> (
            event matches LoopEvent::ServerDispatched { ok } ==> {
                &&& upstream ==> action == LoopAction::ReadUpstream && next == LoopState::Reading
                &&& !upstream ==> action == LoopAction::Flush && next == LoopState::Flushing
                &&& after == (dead || !ok)
            })
            &&& state == LoopState::Reading ==> (event matches LoopEvent::UpstreamRead { outcome }
                ==> action == LoopAction::DispatchUpstream && next == LoopState::Dispatching
                && after == (dead || outcome == ReadOutcome::Lost))
            &&& state == LoopState::Dispatching && event is UpstreamDispatched ==> action
                == LoopAction::Flush && next == LoopState::Flushing && after == dead
            &&& state == LoopState::Flushing && event is Flushed ==> {
                &&& stopping || dead ==> action == LoopAction::Exit && next == LoopState::Over
                &&& !stopping && !dead ==> action == (LoopAction::Poll { millis: 200 }) && next
                    == LoopState::Polling
                &&& after == dead
            }
            &&& state == LoopState::Over ==> action == LoopAction::Ignore && next == state
        }),
        crate::serve::round(stopping, dead) == (if stopping || dead {
            (LoopState::Over, LoopAction::Exit)
        } else {
            (LoopState::Polling, LoopAction::Poll { millis: 200 })
        }),
{
    if let LoopEvent::Polled { keys } = event {
        if exists|i: int| 0 <= i < keys@.len() && keys@[i] == 1 {
            let i = choose|i: int| 0 <= i < keys@.len() && keys@[i] == 1;
            assert(keys@[i] == 1usize);
            assert(keys@.contains(1usize));
        }
        if exists|i: int| 0 <= i < keys@.len() && keys@[i] == 2 {
            let i = choose|i: int| 0 <= i < keys@.len() && keys@[i] == 2;
            assert(keys@[i] == 2usize);
            assert(keys@.contains(2usize));
        }
    }
}

// ---------------------------------------------------------------------------
// The slot and the end
// ---------------------------------------------------------------------------

/// A seat that is there is handed out as it is, and nothing is created; an
/// empty slot is filled by creating one, and stays empty where that fails.
/// Shutting down hands the seat out and leaves the slot empty.
pub proof fn law_slot_holds_one_seat<S, C: FnOnce() -> Result<Arc<S>, SeatError>>(
    before: Option<Arc<S>>,
    create: C,
    seat: Result<Arc<S>, SeatError>,
    after: Option<Arc<S>>,
    taken: Option<Arc<S>>,
    emptied: Option<Arc<S>>,
)
    requires
        crate::slot::gives_seat(before, create, seat, after),
        crate::slot::takes_seat(after, taken, emptied),
    ensures
        before matches Some(existing) ==> seat == Ok::<Arc<S>, SeatError>(existing) && after
            == Some(existing),
        before is None ==> call_ensures(create, (), seat),
        before is None && seat is Ok ==> after == Some(seat.unwrap()),
        before is None && seat is Err ==> after is None,
        taken == after,
        emptied is None,
{
}

/// A seat is torn down in order, each stage once, and all of its connections
/// are closed whenever any are.
pub proof fn law_seats_are_torn_down_in_order(
    stage: TeardownStage,
    seat: SeatView,
    next: TeardownStage,
    left: SeatView,
    action: TeardownAction,
)
    requires
        crate::teardown::tears_down_to(stage, seat, next, left, action),
    ensures
        action matches TeardownAction::CloseConnections(apps) ==> apps@ == seat.apps && left == seat,
        stage == TeardownStage::Socket && !seat.socket_removed ==> action is RemoveSocket && next
            == TeardownStage::FirstClose && left == (SeatView { socket_removed: true, ..seat }),
        stage == TeardownStage::Socket && seat.socket_removed ==> action is CloseConnections && next
            == TeardownStage::Accept,
        stage == TeardownStage::FirstClose ==> action is CloseConnections && next
            == TeardownStage::Accept,
        stage == TeardownStage::Accept ==> action is JoinAccept && next
            == TeardownStage::SecondClose && left == seat,
        stage == TeardownStage::SecondClose ==> action is CloseConnections && next
            == TeardownStage::Proxies,
        stage == TeardownStage::Proxies ==> action is JoinProxies && next == TeardownStage::Bridges
            && left == seat,
        stage == TeardownStage::Bridges ==> action is JoinBridges && next == TeardownStage::Clear
            && left == seat,
        stage == TeardownStage::Clear ==> action is Done && next == TeardownStage::Over
            && left.apps.len() == 0 && left.bound == Map::<u32, u64>::empty() && left.socket_name
            == seat.socket_name && left.stopping == seat.stopping,
        stage == TeardownStage::Over ==> action is Done && next == stage && left == seat,
{
}

// ---------------------------------------------------------------------------
// Connections
// ---------------------------------------------------------------------------

proof fn lemma_filtered<A>(items: Seq<A>, holds: spec_fn(A) -> bool)
    ensures
        items.len() == 0 ==> items.filter(holds) == Seq::<A>::empty(),
        items.len() > 0 ==> items.filter(holds) == (if holds(items.last()) {
            items.drop_last().filter(holds).push(items.last())
        } else {
            items.drop_last().filter(holds)
        }),
{
    reveal(Seq::filter);
}

/// The other connections are all but those of a number, the connections of a
/// process are all of that process, and newcomers are all whose process was
/// not there before; each in the order in which they came.
pub proof fn law_connections_are_found_by_what_they_are(
    apps: Seq<AppEntry>,
    id: u64,
    pid: u32,
    before: Set<u32>,
)
    ensures
        crate::seat::others(apps, id) == apps.filter(|app: AppEntry| app.id != id),
        crate::seat::of_process(apps, pid) == apps.filter(|app: AppEntry| app.pid == pid),
        crate::seat::newcomers(apps, before) == apps.filter(
            |app: AppEntry| !before.contains(app.pid),
        ),
    decreases apps.len(),
{
    lemma_filtered(apps, |app: AppEntry| app.id != id);
    lemma_filtered(apps, |app: AppEntry| app.pid == pid);
    lemma_filtered(apps, |app: AppEntry| !before.contains(app.pid));
    if apps.len() > 0 {
        law_connections_are_found_by_what_they_are(apps.drop_last(), id, pid, before);
    }
}

/// A process is connected exactly where a connection is its own.
pub proof fn law_connected_processes_have_a_connection(apps: Seq<AppEntry>, pid: u32)
    ensures
        crate::seat::has_process(apps, pid) <==> crate::seat::of_process(apps, pid).len() > 0,
    decreases apps.len(),
{
    if apps.len() > 0 {
        let front = apps.drop_last();
        law_connected_processes_have_a_connection(front, pid);
        if crate::seat::has_process(front, pid) {
            let i = choose|i: int| 0 <= i < front.len() && (#[trigger] front[i]).pid == pid;
            assert(apps[i].pid == pid);
        }
        if crate::seat::has_process(apps, pid) {
            let i = choose|i: int| 0 <= i < apps.len() && (#[trigger] apps[i]).pid == pid;
            if i < front.len() {
                assert(front[i].pid == pid);
            }
        }
        if apps.last().pid == pid {
            assert(apps[apps.len() - 1].pid == pid);
        }
    }
}

/// Of the connections that pass a test the last one counts, and none where
/// none passes.
pub proof fn law_last_passing_connection_counts(apps: Seq<AppEntry>, passes: Seq<bool>)
    requires
        passes.len() == apps.len(),
    ensures
        match crate::seat::last_passing(apps, passes) {
            Some(entry) => exists|i: int|
                0 <= i < apps.len() && #[trigger] apps[i] == entry && passes[i] && forall|j: int|
                    i < j < passes.len() ==> !#[trigger] passes[j],
            None => forall|j: int| 0 <= j < passes.len() ==> !#[trigger] passes[j],
        },
{
    lemma_last_passing(apps, passes);
}

proof fn lemma_last_passing(apps: Seq<AppEntry>, passes: Seq<bool>)
    requires
        passes.len() >= apps.len(),
    ensures
        match crate::seat::last_passing(apps, passes) {
            Some(entry) => exists|i: int|
                0 <= i < apps.len() && #[trigger] apps[i] == entry && passes[i] && forall|j: int|
                    i < j < apps.len() ==> !#[trigger] passes[j],
            None => forall|j: int| 0 <= j < apps.len() ==> !#[trigger] passes[j],
        },
    decreases apps.len(),
{
    if apps.len() > 0 {
        let front = apps.drop_last();
        if passes[apps.len() - 1] {
            assert(apps[apps.len() - 1] == apps.last());
        } else {
            lemma_last_passing(front, passes);
            if let Some(entry) = crate::seat::last_passing(front, passes) {
                let i = choose|i: int|
                    0 <= i < front.len() && #[trigger] front[i] == entry && passes[i] && forall|
                        j: int,
                    | i < j < front.len() ==> !#[trigger] passes[j];
                assert(apps[i] == entry);
            }
        }
    }
}

/// A process that is bound is spoken to through that connection; else through
/// the last of its connections with a window, and where none has one, through
/// its last.
pub proof fn law_bound_connections_are_preferred(
    bound: Option<u64>,
    candidates: Seq<AppEntry>,
    interactive: Seq<bool>,
    app: Option<u64>,
)
    requires
        interactive.len() == candidates.len(),
        crate::seat::is_app_of(bound, candidates, interactive, app),
    ensures
        bound is Some ==> app == bound,
        bound is None && candidates.len() == 0 ==> app is None,
        bound is None && candidates.len() > 0 ==> exists|i: int|
            {
                &&& 0 <= i < candidates.len()
                &&& app == Some((#[trigger] candidates[i]).id)
                &&& interactive[i] || i == candidates.len() - 1
                &&& !interactive[i] ==> forall|j: int|
                    0 <= j < interactive.len() ==> !#[trigger] interactive[j]
                &&& interactive[i] ==> forall|j: int|
                    i < j < interactive.len() ==> !#[trigger] interactive[j]
            },
{
    law_last_passing_connection_counts(candidates, interactive);
    if bound is None && candidates.len() > 0 {
        match crate::seat::last_passing(candidates, interactive) {
            Some(entry) => {
                let i = choose|i: int|
                    0 <= i < candidates.len() && #[trigger] candidates[i] == entry
                        && interactive[i] && forall|j: int|
                        i < j < interactive.len() ==> !#[trigger] interactive[j];
                assert(app == Some(candidates[i].id));
            },
            None => {
                assert(candidates[candidates.len() - 1] == candidates.last());
                assert(!interactive[candidates.len() - 1]);
            },
        }
    }
}

/// Marked items are removed, each of them, and the others stay in order.
pub proof fn law_marked_items_are_removed<T>(items: Seq<T>, marks: Seq<bool>, i: int)
    requires
        marks.len() == items.len(),
        0 <= i < items.len(),
    ensures
        crate::seat::unmarked(items, marks).len() <= items.len(),
        !marks[i] ==> crate::seat::unmarked(items, marks).contains(items[i]),
        (forall|j: int| 0 <= j < marks.len() ==> !#[trigger] marks[j]) ==> crate::seat::unmarked(
            items,
            marks,
        ) == items,
        (forall|j: int| 0 <= j < marks.len() ==> #[trigger] marks[j]) ==> crate::seat::unmarked(
            items,
            marks,
        ).len() == 0,
        marks[i] && (forall|j: int| 0 <= j < marks.len() && j != i ==> !#[trigger] marks[j])
            ==> crate::seat::unmarked(items, marks) == items.remove(i),
{
    lemma_unmarked(items, marks, i);
}

proof fn lemma_unmarked<T>(items: Seq<T>, marks: Seq<bool>, i: int)
    requires
        marks.len() >= items.len(),
    ensures
        crate::seat::unmarked(items, marks).len() <= items.len(),
        0 <= i < items.len() && !marks[i] ==> crate::seat::unmarked(items, marks).contains(
            items[i],
        ),
        (forall|j: int| 0 <= j < items.len() ==> !#[trigger] marks[j]) ==> crate::seat::unmarked(
            items,
            marks,
        ) == items,
        (forall|j: int| 0 <= j < items.len() ==> #[trigger] marks[j]) ==> crate::seat::unmarked(
            items,
            marks,
        ).len() == 0,
        0 <= i < items.len() && marks[i] && (forall|j: int|
            0 <= j < items.len() && j != i ==> !#[trigger] marks[j]) ==> crate::seat::unmarked(
            items,
            marks,
        ) == items.remove(i),
    decreases items.len(),
{
    let rest = crate::seat::unmarked(items, marks);
    if items.len() == 0 {
        assert(rest =~= items);
    } else {
        let front = items.drop_last();
        let last = items.len() - 1;
        let before = crate::seat::unmarked(front, marks);
        lemma_unmarked(front, marks, i);
        assert(front.push(items.last()) =~= items);
        if 0 <= i < items.len() && !marks[i] {
            if i == last {
                assert(rest[rest.len() - 1] == items[i]);
            } else {
                let k = choose|k: int| 0 <= k < before.len() && before[k] == front[i];
                assert(rest[k] == items[i]);
            }
        }
        if 0 <= i < items.len() && marks[i] && (forall|j: int|
            0 <= j < items.len() && j != i ==> !#[trigger] marks[j]) {
            if i == last {
                assert(before =~= front);
                assert(items.remove(i) =~= front);
            } else {
                assert(!marks[last]);
                assert(front.remove(i).push(items.last()) =~= items.remove(i));
            }
        }
    }
}

} // verus!
