//! What holds of starting a bridge, step by step.
use crate::bridge::{BridgeActionView, BridgeEvent, BridgeFailure, BridgeOrder, BridgeRun, BridgeState};
use vstd::prelude::*;

verus! {

// ---------------------------------------------------------------------------
// Processes
// ---------------------------------------------------------------------------

/// The secret lies in its own directory below the runtime directory.
pub proof fn law_secret_lies_in_the_bridge_directory(order: BridgeOrder)
    requires
        order.runtime_dir@.len() > 0,
        order.runtime_dir@.last() != '/',
        order.name@.len() > 0,
        order.name@[0] != '/',
        order.name@.last() != '/',
    ensures
        order.directory() == order.runtime_dir@ + seq!['/'] + order.name@,
        order.authority() == order.runtime_dir@ + seq!['/'] + order.name@ + seq!['/']
            + "Xauthority"@,
{
    reveal_strlit("Xauthority");
    assert("Xauthority"@[0] == 'X');
    assert(order.directory().last() == order.name@.last());
}

/// A display is called by its number behind a colon.
pub proof fn law_displays_are_called_by_their_number(display: u32)
    ensures
        ({
            let name = crate::bridge::display_name(display);
            &&& name[0] == ':'
            &&& crate::text::parsed(name.skip(1)) == Some(display)
        }),
{
    reveal_strlit(":");
    crate::text_laws::law_decimals_read_back(display as nat);
    assert(crate::bridge::display_name(display).skip(1) =~= crate::text::decimal(display as nat));
}

/// The secret is written down for the very display, into the bridge's own
/// file, by a process that inherits nothing of the harness's output.
pub proof fn law_secret_is_written_for_its_display(order: BridgeOrder, display: u32)
    ensures
        ({
            let plan = order.authorization(display);
            &&& plan.program == crate::bytes::encoded("xauth"@)
            &&& plan.arguments.len() == 6
            &&& plan.arguments[0] == crate::bytes::encoded("-f"@)
            &&& plan.arguments[1] == crate::bytes::encoded(order.authority())
            &&& plan.arguments[2] == crate::bytes::encoded("add"@)
            &&& plan.arguments[3] == crate::bytes::encoded(
                ":"@ + crate::text::decimal(display as nat),
            )
            &&& plan.arguments[4] == crate::bytes::encoded("MIT-MAGIC-COOKIE-1"@)
            &&& plan.arguments[5] == crate::bytes::encoded(order.cookie@)
            &&& plan.current_dir is None
            &&& !plan.inherit_stdout && !plan.inherit_stderr
            &&& plan.environment.len() == 0
        }),
{
}

/// The bridge serves the very display, asks for the secret in the bridge's
/// own file, takes no connections over the network, goes away once unused,
/// shares its pixels and has the size that was ordered. It is a client of the
/// seat and of no other X display.
pub proof fn law_bridge_serves_its_display(
    order: BridgeOrder,
    program: Seq<u8>,
    display: u32,
    inherited: Option<Seq<u8>>,
)
    ensures
        ({
            let plan = order.server(program, display);
            &&& plan.program == program
            &&& plan.arguments.len() == 10
            &&& plan.arguments[0] == crate::bytes::encoded(
                ":"@ + crate::text::decimal(display as nat),
            )
            &&& plan.arguments[1] == crate::bytes::encoded("-auth"@)
            &&& plan.arguments[2] == crate::bytes::encoded(order.authority())
            &&& plan.arguments[3] == crate::bytes::encoded("-nolisten"@)
            &&& plan.arguments[4] == crate::bytes::encoded("tcp"@)
            &&& plan.arguments[5] == crate::bytes::encoded("-terminate"@)
            &&& plan.arguments[6] == crate::bytes::encoded("10"@)
            &&& plan.arguments[7] == crate::bytes::encoded("-shm"@)
            &&& plan.arguments[8] == crate::bytes::encoded("-geometry"@)
            &&& plan.arguments[9] == crate::bytes::encoded(
                crate::text::decimal(order.width as nat) + "x"@ + crate::text::decimal(
                    order.height as nat,
                ),
            )
            &&& plan.current_dir is None
            &&& !plan.inherit_stdout
            &&& plan.inherit_stderr == order.diagnostics
            &&& plan.variable("WAYLAND_DISPLAY"@, inherited) == Some(
                crate::bytes::encoded(order.socket_name@),
            )
            &&& plan.variable("DISPLAY"@, inherited) is None
        }),
{
    let plan = order.server(program, display);
    let changes = plan.environment;
    reveal_strlit("WAYLAND_DISPLAY");
    reveal_strlit("DISPLAY");
    assert("WAYLAND_DISPLAY"@.len() != "DISPLAY"@.len());
    crate::bytes::lemma_encoded_differ("WAYLAND_DISPLAY"@, "DISPLAY"@);
    reveal_with_fuel(crate::command::effective, 3);
    assert(changes.len() == 2);
    assert(changes.drop_last().last() == changes[0]);
}

/// A bridge is refused exactly where it is smaller than 160 by 120.
pub proof fn law_small_bridges_are_refused(width: u16, height: u16)
    ensures
        crate::bridge::is_bridge_size(width, height) <==> !(width < 160 || height < 120),
{
}

// ---------------------------------------------------------------------------
// Steps
// ---------------------------------------------------------------------------

/// Preparing a bridge: its program is found, a display is picked, its
/// directory is created and closed to others, and its secret is written down
/// and closed to others. Each of these follows the one before.
pub proof fn law_bridge_is_prepared_in_order(run: BridgeRun, event: BridgeEvent)
    ensures
        ({
            let (next, action) = run.next(event);
            &&& run.state == BridgeState::Finding ==> (event matches BridgeEvent::XwaylandFound {
                path: Some(path),
            } ==> next.state == BridgeState::Picking && next.program == path@ && action
                == BridgeActionView::PickDisplay)
            &&& run.state == BridgeState::Picking ==> (event matches BridgeEvent::DisplayPicked {
                display: Some(display),
            } ==> next.state == BridgeState::Creating && next.display == display && action
                == BridgeActionView::CreateDirectory)
            &&& run.state == BridgeState::Creating && event is Created ==> next.state
                == BridgeState::Restricting && action == (BridgeActionView::RestrictDirectory {
                mode: 0o700,
            })
            &&& run.state == BridgeState::Restricting && event is Restricted ==> next.state
                == BridgeState::Authorizing && action == BridgeActionView::Authorize(
                run.order.authorization(run.display),
            )
            &&& run.state == BridgeState::Authorizing && event == (BridgeEvent::Authorized {
                success: true,
            }) ==> next.state == BridgeState::Guarding && action
                == (BridgeActionView::RestrictAuthority { mode: 0o600 })
            &&& run.state == BridgeState::Guarding && event is Restricted ==> next.state
                == BridgeState::Spawning && action == BridgeActionView::Spawn(
                run.order.server(run.program, run.display),
            )
            &&& next.order == run.order
            &&& run.state != BridgeState::Finding ==> next.program == run.program
            &&& run.state != BridgeState::Picking ==> next.display == run.display
        }),
{
}

/// A started bridge is looked at for five seconds: it is ready as soon as its
/// socket is there, and given up when it has exited or its time is over.
pub proof fn law_bridge_gets_five_seconds(run: BridgeRun, event: BridgeEvent)
    ensures
        ({
            let (next, action) = run.next(event);
            &&& run.state == BridgeState::Spawning && event is Spawned ==> next.state
                == BridgeState::Timing && action == BridgeActionView::Clock
            &&& run.state == BridgeState::Timing ==> (event matches BridgeEvent::Elapsed { span }
                ==> if crate::clock::duration_nanos(span) < 5_000_000_000 {
                next.state == BridgeState::Looking && action == BridgeActionView::CheckSocket
            } else {
                next.state == BridgeState::Stopping && action == BridgeActionView::StopChild
                    && next.failure == Some(
                    (
                        BridgeFailure::Xwayland,
                        "XWayland compatibility bridge did not create its X socket"@,
                    ),
                )
            })
            &&& run.state == BridgeState::Looking ==> (event matches BridgeEvent::SocketSeen {
                exists: there,
            } ==> if there {
                next.state == BridgeState::Over && action == BridgeActionView::Ready
            } else {
                next.state == BridgeState::Checking && action == BridgeActionView::CheckExit
            })
            &&& run.state == BridgeState::Checking ==> (event matches BridgeEvent::ExitSeen {
                exited,
            } ==> if exited {
                next.state == BridgeState::Removing && action == BridgeActionView::RemoveDirectory
                    && next.failure == Some(
                    (
                        BridgeFailure::Xwayland,
                        "XWayland compatibility bridge exited during startup"@,
                    ),
                )
            } else {
                next.state == BridgeState::Pausing && action == (BridgeActionView::Pause {
                    millis: 50,
                })
            })
            &&& run.state == BridgeState::Pausing && event is Paused ==> next.state
                == BridgeState::Timing && action == BridgeActionView::Clock
        }),
{
}

/// What keeps a bridge from starting is what is reported, at once where there
/// is nothing to remove, and else once the directory is gone.
pub proof fn law_bridge_errors_are_reported(run: BridgeRun, event: BridgeEvent)
    ensures
        ({
            let (next, action) = run.next(event);
            &&& run.state == BridgeState::Finding && event == (BridgeEvent::XwaylandFound {
                path: None,
            }) ==> action == (BridgeActionView::Fail {
                kind: BridgeFailure::Xwayland,
                message: "XWayland is not installed for compatibility fallback"@,
            })
            &&& run.state == BridgeState::Picking && event == (BridgeEvent::DisplayPicked {
                display: None,
            }) ==> action == (BridgeActionView::Fail {
                kind: BridgeFailure::Xwayland,
                message: "no free X display number for the compatibility bridge"@,
            })
            &&& run.state == BridgeState::Creating ==> (event matches BridgeEvent::CreateFailed {
                error,
            } ==> action == (BridgeActionView::Fail {
                kind: BridgeFailure::Xwayland,
                message: "could not create XWayland runtime directory: "@ + error@,
            }))
            &&& run.state == BridgeState::Restricting ==> (
            event matches BridgeEvent::RestrictFailed { error } ==> action
                == BridgeActionView::RemoveDirectory && next.failure == Some(
                (
                    BridgeFailure::Xwayland,
                    "could not restrict XWayland runtime directory: "@ + error@,
                ),
            ))
            &&& run.state == BridgeState::Authorizing && event == (BridgeEvent::Authorized {
                success: false,
            }) ==> action == BridgeActionView::RemoveDirectory && next.failure == Some(
                (
                    BridgeFailure::Xauth,
                    "xauth could not create credentials for display "@ + (":"@
                        + crate::text::decimal(run.display as nat)),
                ),
            )
            &&& run.state == BridgeState::Authorizing ==> (
            event matches BridgeEvent::AuthorizeFailed { error } ==> action
                == BridgeActionView::RemoveDirectory && next.failure == Some(
                (
                    BridgeFailure::Xauth,
                    "could not create XWayland authority file: "@ + error@,
                ),
            ))
            &&& run.state == BridgeState::Guarding ==> (event matches BridgeEvent::RestrictFailed {
                error,
            } ==> action == BridgeActionView::RemoveDirectory && next.failure == Some(
                (
                    BridgeFailure::Xauth,
                    "could not restrict XWayland authority file: "@ + error@,
                ),
            ))
            &&& run.state == BridgeState::Spawning ==> (event matches BridgeEvent::SpawnFailed {
                error,
            } ==> action == BridgeActionView::RemoveDirectory && next.failure == Some(
                (
                    BridgeFailure::Xwayland,
                    "could not start XWayland compatibility bridge: "@ + error@,
                ),
            ))
            &&& run.state == BridgeState::Stopping && event is Stopped ==> next.state
                == BridgeState::Removing && action == BridgeActionView::RemoveDirectory
                && next.failure == run.failure
            &&& run.state == BridgeState::Removing && event is Removed && run.failure is Some
                ==> next.state == BridgeState::Over && action == (BridgeActionView::Fail {
                kind: run.failure.unwrap().0,
                message: run.failure.unwrap().1,
            })
        }),
{
}

/// Whether a report answers what starting a bridge asked for.
pub open spec fn is_awaited(state: BridgeState, event: BridgeEvent) -> bool {
    match state {
        BridgeState::Finding => event is XwaylandFound,
        BridgeState::Picking => event is DisplayPicked,
        BridgeState::Creating => event is Created || event is CreateFailed,
        BridgeState::Restricting => event is Restricted || event is RestrictFailed,
        BridgeState::Authorizing => event is Authorized || event is AuthorizeFailed,
        BridgeState::Guarding => event is Restricted || event is RestrictFailed,
        BridgeState::Spawning => event is Spawned || event is SpawnFailed,
        BridgeState::Timing => event is Elapsed,
        BridgeState::Looking => event is SocketSeen,
        BridgeState::Checking => event is ExitSeen,
        BridgeState::Pausing => event is Paused,
        BridgeState::Stopping => event is Stopped,
        BridgeState::Removing => event is Removed,
        BridgeState::Over => false,
    }
}

/// A report that was not asked for changes nothing; one that was is always
/// answered, save the end of a removal whose error is missing.
pub proof fn law_only_awaited_reports_count(run: BridgeRun, event: BridgeEvent)
    ensures
        !is_awaited(run.state, event) ==> run.next(event) == (run, BridgeActionView::Ignore),
        is_awaited(run.state, event) && !(run.state == BridgeState::Removing && run.failure is None)
            ==> run.next(event).1 != BridgeActionView::Ignore && run.next(event).0.state
            != run.state,
{
}

} // verus!
