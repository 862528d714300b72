//! Tearing a seat down, step by step.
use crate::error::SeatError;
use crate::seat::{AgentSeat, AppEntry, SeatView};
use std::sync::Arc;
use vstd::prelude::*;

verus! {

/// What tearing a seat down asks for.
pub enum TeardownAction {
    /// Remove the seat's socket.
    RemoveSocket,
    /// Close these connections.
    CloseConnections(Vec<AppEntry>),
    /// Wait for the thread that accepts connections.
    JoinAccept,
    /// Wait for the threads that serve connections.
    JoinProxies,
    /// Wait for the threads that reap bridges.
    JoinBridges,
    /// The seat is gone.
    Done,
}

/// How far tearing a seat down is.
#[derive(Clone, Copy, Debug, PartialEq, Eq, Structural)]
pub enum TeardownStage {
    Socket,
    FirstClose,
    Accept,
    SecondClose,
    Proxies,
    Bridges,
    Clear,
    Over,
}

/// A seat that is being torn down.
#[derive(Debug)]
pub struct Teardown {
    pub stage: TeardownStage,
}

/// Whether tearing a seat down goes on like this. Current connections are
/// closed before anything is waited for, and once more when no further ones
/// can appear.
pub open spec fn tears_down_to(
    stage: TeardownStage,
    seat: SeatView,
    next: TeardownStage,
    left: SeatView,
    action: TeardownAction,
) -> bool {
    match stage {
        TeardownStage::Socket => if seat.socket_removed {
            &&& next == TeardownStage::Accept
            &&& left == seat
            &&& action matches TeardownAction::CloseConnections(apps) && apps@ == seat.apps
        } else {
            &&& next == TeardownStage::FirstClose
            &&& left == (SeatView { socket_removed: true, ..seat })
            &&& action is RemoveSocket
        },
        TeardownStage::FirstClose => {
            &&& next == TeardownStage::Accept
            &&& left == seat
            &&& action matches TeardownAction::CloseConnections(apps) && apps@ == seat.apps
        },
        TeardownStage::Accept => next == TeardownStage::SecondClose && left == seat
            && action is JoinAccept,
        TeardownStage::SecondClose => {
            &&& next == TeardownStage::Proxies
            &&& left == seat
            &&& action matches TeardownAction::CloseConnections(apps) && apps@ == seat.apps
        },
        TeardownStage::Proxies => next == TeardownStage::Bridges && left == seat
            && action is JoinProxies,
        TeardownStage::Bridges => next == TeardownStage::Clear && left == seat
            && action is JoinBridges,
        TeardownStage::Clear => {
            &&& next == TeardownStage::Over
            &&& left == (SeatView { apps: Seq::empty(), bound: Map::empty(), ..seat })
            &&& action is Done
        },
        TeardownStage::Over => next == stage && left == seat && action is Done,
    }
}

impl Teardown {
    /// Begin to tear a seat down: no connection is served from now on.
    pub fn begin(seat: &mut AgentSeat) -> (teardown: Self)
        ensures
            teardown.stage == TeardownStage::Socket,
            final(seat)@ == (SeatView { stopping: true, ..old(seat)@ }),
    {
        seat.stop();
        Teardown { stage: TeardownStage::Socket }
    }

    /// The next thing to do.
    pub fn next(&mut self, seat: &mut AgentSeat) -> (action: TeardownAction)
        ensures
            tears_down_to(old(self).stage, old(seat)@, final(self).stage, final(seat)@, action),
    {
        match self.stage {
            TeardownStage::Socket => {
                if seat.forget_socket() {
                    self.stage = TeardownStage::FirstClose;
                    TeardownAction::RemoveSocket
                } else {
                    self.stage = TeardownStage::Accept;
                    TeardownAction::CloseConnections(seat.connections())
                }
            },
            TeardownStage::FirstClose => {
                self.stage = TeardownStage::Accept;
                TeardownAction::CloseConnections(seat.connections())
            },
            TeardownStage::Accept => {
                self.stage = TeardownStage::SecondClose;
                TeardownAction::JoinAccept
            },
            TeardownStage::SecondClose => {
                self.stage = TeardownStage::Proxies;
                TeardownAction::CloseConnections(seat.connections())
            },
            TeardownStage::Proxies => {
                self.stage = TeardownStage::Bridges;
                TeardownAction::JoinProxies
            },
            TeardownStage::Bridges => {
                self.stage = TeardownStage::Clear;
                TeardownAction::JoinBridges
            },
            TeardownStage::Clear => {
                self.stage = TeardownStage::Over;
                seat.clear();
                TeardownAction::Done
            },
            TeardownStage::Over => TeardownAction::Done,
        }
    }
}

// ---------------------------------------------------------------------------
// Laws
// ---------------------------------------------------------------------------

/// How many times connections were closed before a stage.
pub open spec fn closings(stage: TeardownStage) -> int {
    match stage {
        TeardownStage::Socket => 0,
        TeardownStage::FirstClose => 0,
        TeardownStage::Accept => 1,
        TeardownStage::SecondClose => 1,
        _ => 2,
    }
}

/// Connections are closed before anything is waited for: once before the
/// accepting thread, and once more before the others.
pub proof fn law_connections_close_before_joins(
    stage: TeardownStage,
    seat: SeatView,
    next: TeardownStage,
    left: SeatView,
    action: TeardownAction,
)
    requires
        tears_down_to(stage, seat, next, left, action),
    ensures
        closings(next) == closings(stage) + (if action is CloseConnections {
            1int
        } else {
            0
        }),
        action is JoinAccept ==> closings(stage) >= 1,
        action is JoinProxies ==> closings(stage) == 2,
        action is JoinBridges ==> closings(stage) == 2,
{
}

/// Tearing a seat down again does no harm: the socket is removed only once,
/// and a seat that was torn down stays so.
pub proof fn law_teardown_is_idempotent(
    stage: TeardownStage,
    seat: SeatView,
    next: TeardownStage,
    left: SeatView,
    action: TeardownAction,
)
    requires
        tears_down_to(stage, seat, next, left, action),
    ensures
        seat.socket_removed ==> !(action is RemoveSocket) && left.socket_removed,
        action is RemoveSocket ==> left.socket_removed,
        seat.stopping ==> left.stopping,
        seat.apps.len() == 0 && seat.bound == Map::<u32, u64>::empty() && seat.socket_removed
            ==> left == seat,
        action is Done && stage != TeardownStage::Over ==> left.apps.len() == 0 && left.bound
            == Map::<u32, u64>::empty(),
{
}

/// One step of tearing a seat down: the seat before and after it.
pub struct TeardownStep {
    pub stage: TeardownStage,
    pub seat: SeatView,
    pub next: TeardownStage,
    pub left: SeatView,
    pub action: TeardownAction,
}

impl TeardownStep {
    /// Whether a teardown makes this step.
    pub open spec fn is_made(self) -> bool {
        tears_down_to(self.stage, self.seat, self.next, self.left, self.action)
    }

    /// Whether another step may come right after this one. In between,
    /// connections may end, but nothing starts the seat again, brings its
    /// socket back or renames it.
    pub open spec fn leads_to(self, other: TeardownStep) -> bool {
        &&& other.stage == self.next
        &&& self.left.stopping ==> other.seat.stopping
        &&& self.left.socket_removed ==> other.seat.socket_removed
        &&& other.seat.socket_name == self.left.socket_name
    }
}

/// Whether these are the steps of a whole teardown, up to the one that says
/// it is done.
pub open spec fn is_whole_teardown(steps: Seq<TeardownStep>) -> bool {
    &&& steps.len() > 0
    &&& steps[0].stage == TeardownStage::Socket
    &&& steps[0].seat.stopping
    &&& forall|i: int| 0 <= i < steps.len() ==> (#[trigger] steps[i]).is_made()
    &&& forall|i: int, j: int|
        0 <= i && j == i + 1 && j < steps.len() ==> #[trigger] steps[i].leads_to(
            #[trigger] steps[j],
        )
    &&& forall|i: int|
        0 <= i < steps.len() ==> ((#[trigger] steps[i]).action is Done <==> i == steps.len() - 1)
}

proof fn lemma_seat_stays_stopped(steps: Seq<TeardownStep>, at: int)
    requires
        is_whole_teardown(steps),
        0 <= at < steps.len(),
    ensures
        steps[at].seat.stopping,
        steps[at].stage != TeardownStage::Socket ==> steps[at].seat.socket_removed,
        steps[at].stage != TeardownStage::Over,
        steps[at].seat.socket_name == steps[0].seat.socket_name,
    decreases at,
{
    if at > 0 {
        lemma_seat_stays_stopped(steps, at - 1);
        assert(steps[at - 1].is_made());
        assert(steps[at - 1].leads_to(steps[at]));
        assert(!(steps[at - 1].action is Done));
    }
}

/// Shutting down ends the seat: once it was taken out of its slot and torn
/// down, it has no connection, no binding and no socket, and accepts nothing
/// more. The next request creates a new seat, whose socket has another name
/// where another identifier was drawn for it. Shutting down once more before
/// that, or where there never was a seat, has no effect.
pub proof fn law_shutdown_ends_the_seat<S, C: FnOnce() -> Result<Arc<S>, SeatError>>(
    slot: Option<Arc<S>>,
    taken: Option<Arc<S>>,
    emptied: Option<Arc<S>>,
    steps: Seq<TeardownStep>,
    create: C,
    again: Result<Arc<S>, SeatError>,
    refilled: Option<Arc<S>>,
    pid: u32,
    id: u128,
    fresh_id: u128,
)
    requires
        crate::slot::takes_seat(slot, taken, emptied),
        is_whole_teardown(steps),
        crate::slot::gives_seat(emptied, create, again, refilled),
    ensures
        taken == slot,
        slot is None ==> taken is None && emptied == slot,
        ({
            let left = steps.last().left;
            &&& left.apps.len() == 0
            &&& left.bound == Map::<u32, u64>::empty()
            &&& left.stopping
            &&& left.socket_removed
            &&& steps[0].seat.socket_name == crate::identity::seat_name(pid, id) && id != fresh_id
                ==> crate::identity::seat_name(pid, fresh_id) != left.socket_name
        }),
        !steps[0].seat.socket_removed ==> steps[0].action is RemoveSocket,
        call_ensures(create, (), again),
        again matches Ok(fresh) ==> refilled == Some(fresh),
        forall|none: Option<Arc<S>>, still: Option<Arc<S>>| #[trigger]
            crate::slot::takes_seat(emptied, none, still) ==> none is None && still == emptied,
{
    lemma_seat_stays_stopped(steps, steps.len() - 1);
    assert(steps.last().is_made());
    assert(steps[0].is_made());
    if id != fresh_id {
        crate::identity::law_socket_names_differ(pid, id, pid, fresh_id);
    }
}

} // verus!
