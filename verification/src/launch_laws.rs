//! What holds of a launch, step by step.
use crate::error::SeatError;
use crate::harness::Transport;
use crate::launch::{LaunchActionView, LaunchEvent, LaunchRun, LaunchState, Launched};
use std::time::Duration;
use vstd::prelude::*;

verus! {

/// Native Wayland is tried for as long as its own timeout says: until then a
/// window is looked for, and from then on the application is stopped.
pub proof fn law_native_wayland_gets_its_timeout(
    run: LaunchRun,
    pid: u32,
    span: Duration,
    next: LaunchRun,
    action: LaunchActionView,
)
    requires
        run.state == (LaunchState::NativeTiming { pid }),
        run.steps_to(LaunchEvent::Elapsed { span }, next, action),
    ensures
        action is Probe <==> crate::clock::duration_nanos(span) < crate::clock::duration_nanos(
            run.settings.native_timeout,
        ),
        action is StopChild <==> crate::clock::duration_nanos(span)
            >= crate::clock::duration_nanos(run.settings.native_timeout),
        action is Probe ==> next.state == (LaunchState::NativeProbing { pid }),
        action is StopChild ==> next.state == LaunchState::NativeStopping && next.failure
            == run.failure,
{
}

/// The bridge is tried for as long as the fallback timeout says, for a window
/// and for something to see in it; after that the launch fails, and says what
/// was missing.
pub proof fn law_bridge_gets_the_fallback_timeout(
    run: LaunchRun,
    pid: u32,
    app: u64,
    span: Duration,
    next: LaunchRun,
    action: LaunchActionView,
)
    requires
        run.steps_to(LaunchEvent::Elapsed { span }, next, action),
        run.state == (LaunchState::BridgedTiming { pid }) || run.state
            == (LaunchState::ContentTiming { pid, app }),
    ensures
        ({
            let in_time = crate::clock::duration_nanos(span) < crate::clock::duration_nanos(
                run.settings.fallback_timeout,
            );
            let windowless = run.state == (LaunchState::BridgedTiming { pid });
            &&& in_time && windowless ==> action == LaunchActionView::Probe && next.state
                == (LaunchState::BridgedProbing { pid })
            &&& in_time && !windowless ==> action == (LaunchActionView::CheckContent { app })
                && next.state == (LaunchState::ContentChecking { pid, app })
            &&& !in_time ==> action == LaunchActionView::StopChild && next.state
                == LaunchState::Failing
            &&& !in_time && windowless ==> next.failure == Some(
                (
                    run.program
                        + " did not expose a readable frame through native Wayland or XWayland"@,
                    None::<SeatError>,
                ),
            )
            &&& !in_time && !windowless ==> next.failure == Some(
                (
                    run.program
                        + " connected through XWayland but did not render visible application content"@,
                    None::<SeatError>,
                ),
            )
        }),
{
}

/// A launch keeps its settings and the name of its program from beginning to
/// end.
pub proof fn law_launch_settings_stay(
    run: LaunchRun,
    event: LaunchEvent,
    next: LaunchRun,
    action: LaunchActionView,
)
    requires
        run.steps_to(event, next, action),
    ensures
        next.settings == run.settings,
        next.program == run.program,
{
}

/// The attempt with native Wayland: a started application is timed, looked
/// for while its time runs, and checked for having exited; it is bound as
/// soon as it has a window, and launched then. Where it exited, it is given
/// up.
pub proof fn law_native_attempt(
    run: LaunchRun,
    event: LaunchEvent,
    next: LaunchRun,
    action: LaunchActionView,
    pid: u32,
    app: u64,
)
    requires
        run.steps_to(event, next, action),
    ensures
        run.state == LaunchState::NativeSpawning && event == (LaunchEvent::Spawned { pid })
            ==> next.state == (LaunchState::NativeTiming { pid }) && action
            == LaunchActionView::Clock,
        run.state == (LaunchState::NativeProbing { pid }) && event == (LaunchEvent::Probed {
            app: Some(app),
        }) ==> next.state == (LaunchState::NativeBinding { pid, app }) && action
            == (LaunchActionView::Bind { pid, app }),
        run.state == (LaunchState::NativeProbing { pid }) && event == (LaunchEvent::Probed {
            app: None,
        }) ==> next.state == (LaunchState::NativeChecking { pid }) && action
            == LaunchActionView::CheckExit,
        run.state == (LaunchState::NativeChecking { pid }) && event is Running ==> next.state
            == (LaunchState::NativePausing { pid }) && action == (LaunchActionView::Pause {
            millis: 50,
        }),
        run.state == (LaunchState::NativeChecking { pid }) && event is Exited ==> next.state
            == LaunchState::NativeStopping && action == LaunchActionView::StopChild,
        run.state == (LaunchState::NativePausing { pid }) && event is Paused ==> next.state
            == (LaunchState::NativeTiming { pid }) && action == LaunchActionView::Clock,
        run.state == (LaunchState::NativeBinding { pid, app }) && event is Bound ==> next.state
            == LaunchState::Over && action == LaunchActionView::Finish(
            Launched { pid, app, transport: Transport::NativeWayland },
        ),
        run.state == LaunchState::NativeStopping && event is Stopped ==> next.state
            == LaunchState::BridgeStarting && action == (LaunchActionView::StartBridge {
            width: run.settings.bridge_width,
            height: run.settings.bridge_height,
        }),
{
}

/// The attempt through the bridge: a started application is timed, and looked
/// for while its time runs; once it has a window, it is looked at until there
/// is something to see. It is bound then, and launched once the seat has
/// taken the bridge over.
pub proof fn law_bridged_attempt(
    run: LaunchRun,
    event: LaunchEvent,
    next: LaunchRun,
    action: LaunchActionView,
    pid: u32,
    app: u64,
)
    requires
        run.steps_to(event, next, action),
    ensures
        run.state == LaunchState::BridgeStarting && event is BridgeStarted ==> next.state
            == LaunchState::BridgedSpawning && action == LaunchActionView::SpawnBridged,
        run.state == LaunchState::BridgedSpawning && event == (LaunchEvent::Spawned { pid })
            ==> next.state == (LaunchState::BridgedTiming { pid }) && action
            == LaunchActionView::Clock,
        run.state == (LaunchState::BridgedProbing { pid }) && event == (LaunchEvent::Probed {
            app: Some(app),
        }) ==> next.state == (LaunchState::ContentTiming { pid, app }) && action
            == LaunchActionView::Clock,
        run.state == (LaunchState::BridgedProbing { pid }) && event == (LaunchEvent::Probed {
            app: None,
        }) ==> next.state == (LaunchState::BridgedPausing { pid }) && action
            == (LaunchActionView::Pause { millis: 50 }),
        run.state == (LaunchState::BridgedPausing { pid }) && event is Paused ==> next.state
            == (LaunchState::BridgedTiming { pid }) && action == LaunchActionView::Clock,
        run.state == (LaunchState::ContentChecking { pid, app }) && event
            == (LaunchEvent::ContentSeen { visible: true }) ==> next.state
            == (LaunchState::BridgedBinding { pid, app }) && action == (LaunchActionView::Bind {
            pid,
            app,
        }),
        run.state == (LaunchState::ContentChecking { pid, app }) && event
            == (LaunchEvent::ContentSeen { visible: false }) ==> next.state
            == (LaunchState::ContentPausing { pid, app }) && action == (LaunchActionView::Pause {
            millis: 50,
        }),
        run.state == (LaunchState::ContentPausing { pid, app }) && event is Paused ==> next.state
            == (LaunchState::ContentTiming { pid, app }) && action == LaunchActionView::Clock,
        run.state == (LaunchState::BridgedBinding { pid, app }) && event is Bound ==> next.state
            == (LaunchState::Adopting { pid, app }) && action == LaunchActionView::AdoptBridge,
        run.state == (LaunchState::Adopting { pid, app }) && event is Adopted ==> next.state
            == LaunchState::Over && action == LaunchActionView::Finish(
            Launched { pid, app, transport: Transport::Xwayland },
        ),
{
}

/// What goes wrong is what the launch fails with: a program that does not
/// start is named with its transport, an error of the seat is the cause, and
/// an error that had to wait for the process to stop is reported unchanged.
pub proof fn law_launch_errors_are_reported(
    run: LaunchRun,
    event: LaunchEvent,
    next: LaunchRun,
    action: LaunchActionView,
)
    requires
        run.steps_to(event, next, action),
    ensures
        run.state == LaunchState::NativeSpawning ==> (event matches LaunchEvent::SpawnFailed {
            error,
        } ==> action == (LaunchActionView::Fail {
            text: "could not launch "@ + run.program + " through "@ + "native Wayland"@ + ": "@
                + error@,
            cause: None,
        })),
        run.state == LaunchState::BridgedSpawning ==> (event matches LaunchEvent::SpawnFailed {
            error,
        } ==> action == (LaunchActionView::Fail {
            text: "could not launch "@ + run.program + " through "@ + "XWayland"@ + ": "@ + error@,
            cause: None,
        })),
        run.state is NativeChecking ==> (event matches LaunchEvent::ExitUnknown { error }
            ==> next.failure == Some((error@, None::<SeatError>)) && next.state
            == LaunchState::Failing && action == LaunchActionView::StopChild),
        run.state == LaunchState::BridgeStarting ==> (event matches LaunchEvent::BridgeFailed {
            cause,
        } ==> action matches LaunchActionView::Fail { text, cause: reported } && reported == Some(
            cause,
        ) && cause.shown_as(text)),
        run.state is Adopting ==> (event matches LaunchEvent::AdoptFailed { cause }
            ==> next.state == LaunchState::Failing && action == LaunchActionView::StopChild
            && next.failure is Some && next.failure.unwrap().1 == Some(cause)
            && cause.shown_as(next.failure.unwrap().0)),
        run.state == LaunchState::Failing && event is Stopped && run.failure is Some ==> action
            == (LaunchActionView::Fail {
            text: run.failure.unwrap().0,
            cause: run.failure.unwrap().1,
        }) && next.state == LaunchState::Over,
{
}

/// Whether a report answers what the launch asked for.
pub open spec fn is_awaited(state: LaunchState, event: LaunchEvent) -> bool {
    match state {
        LaunchState::NativeSpawning => event is Spawned || event is SpawnFailed,
        LaunchState::BridgedSpawning => event is Spawned || event is SpawnFailed,
        LaunchState::NativeTiming { .. } => event is Elapsed,
        LaunchState::BridgedTiming { .. } => event is Elapsed,
        LaunchState::ContentTiming { .. } => event is Elapsed,
        LaunchState::NativeProbing { .. } => event is Probed,
        LaunchState::BridgedProbing { .. } => event is Probed,
        LaunchState::NativeChecking { .. } => event is Running || event is Exited || event
            is ExitUnknown,
        LaunchState::ContentChecking { .. } => event is ContentSeen,
        LaunchState::NativePausing { .. } => event is Paused,
        LaunchState::BridgedPausing { .. } => event is Paused,
        LaunchState::ContentPausing { .. } => event is Paused,
        LaunchState::NativeBinding { .. } => event is Bound,
        LaunchState::BridgedBinding { .. } => event is Bound,
        LaunchState::NativeStopping => event is Stopped,
        LaunchState::Failing => event is Stopped,
        LaunchState::BridgeStarting => event is BridgeStarted || event is BridgeFailed,
        LaunchState::Adopting { .. } => event is Adopted || event is AdoptFailed,
        LaunchState::Over => false,
    }
}

/// A report that was not asked for changes nothing; one that was is always
/// answered, save the end of a process whose error is missing.
pub proof fn law_only_awaited_reports_count(
    run: LaunchRun,
    event: LaunchEvent,
    next: LaunchRun,
    action: LaunchActionView,
)
    requires
        run.steps_to(event, next, action),
    ensures
        !is_awaited(run.state, event) ==> next == run && action == LaunchActionView::Ignore,
        is_awaited(run.state, event) && !(run.state == LaunchState::Failing && run.failure is None)
            ==> action != LaunchActionView::Ignore && next.state != run.state,
{
}

} // verus!
