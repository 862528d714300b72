//! What descriptions say of the values that they describe: nothing is left
//! out of a step, a command, a message, an action or a process.
use crate::bridge::{BridgeAction, BridgeActionView, BridgeFailure};
use crate::command::{CommandPlan, EnvChange};
use crate::error::SeatError;
use crate::harness::LaunchConfig;
use crate::inject::{Plan, PlanView};
use crate::input::InputState;
use crate::launch::{LaunchAction, LaunchActionView};
use crate::plan::{Step, StepView};
use crate::proxy::{BufferKind, BufferView, ConnView, Message};
use crate::run::{Command, CommandView};
use vstd::prelude::*;

verus! {

/// A step is described by all that it holds.
pub proof fn law_steps_are_described_in_full(step: Step)
    ensures
        match step {
            Step::Send { target, opcode, serial, args } => step@ == (StepView::Send {
                target,
                opcode,
                serial,
                args: args@,
            }),
            Step::SendText { target, opcode, text } => step@ == (StepView::SendText {
                target,
                opcode,
                text: text@,
            }),
            Step::Sleep { millis } => step@ == (StepView::Sleep { millis }),
            Step::NoteTime => step@ == StepView::NoteTime,
            Step::PointerOn(surface) => step@ == StepView::PointerOn(surface),
            Step::KeyboardOn(surface) => step@ == StepView::KeyboardOn(surface),
            Step::SurfaceFocused(surface) => step@ == StepView::SurfaceFocused(surface),
            Step::Fail(message) => step@ == StepView::Fail(message@),
        },
{
}

/// A plan is described by all of its steps, in order.
pub proof fn law_plans_are_described_in_full(plan: Plan)
    ensures
        plan@.open.len() == plan.open@.len(),
        plan@.lead.len() == plan.lead@.len(),
        plan@.cycle.len() == plan.cycle@.len(),
        plan@.close.len() == plan.close@.len(),
        plan@.cycles == plan.cycles,
        forall|i: int| 0 <= i < plan.open@.len() ==> #[trigger] plan@.open[i] == plan.open@[i]@,
        forall|i: int| 0 <= i < plan.lead@.len() ==> #[trigger] plan@.lead[i] == plan.lead@[i]@,
        forall|i: int| 0 <= i < plan.cycle@.len() ==> #[trigger] plan@.cycle[i] == plan.cycle@[i]@,
        forall|i: int| 0 <= i < plan.close@.len() ==> #[trigger] plan@.close[i] == plan.close@[i]@,
{
}

/// A plan of one part holds that part and nothing else.
pub proof fn law_plans_of_one_part(steps: Seq<StepView>)
    ensures
        PlanView::only_lead(steps).lead == steps,
        PlanView::only_lead(steps).open.len() == 0,
        PlanView::only_lead(steps).cycles == 0,
        PlanView::only_lead(steps).close.len() == 0,
        PlanView::only_open(steps).open == steps,
        PlanView::only_open(steps).lead.len() == 0,
        PlanView::only_open(steps).cycles == 0,
        PlanView::only_open(steps).close.len() == 0,
{
}

/// A command is described by all that it holds.
pub proof fn law_commands_are_described_in_full(command: Command)
    ensures
        match command {
            Command::Send { target, opcode, args } => command@ == (CommandView::Send {
                target,
                opcode,
                args: args@,
            }),
            Command::SendText { target, opcode, text } => command@ == (CommandView::SendText {
                target,
                opcode,
                text: text@,
            }),
            Command::Sleep { millis } => command@ == (CommandView::Sleep { millis }),
            Command::Finished(Ok(())) => command@ == CommandView::Finished(None),
            Command::Finished(Err(message)) => command@ == CommandView::Finished(Some(message@)),
        },
{
}

/// A message is described by its sender, its opcode and all of its arguments,
/// and a buffer by all of its measures.
pub proof fn law_messages_are_described_in_full<F>(message: Message<F>, buffer: BufferKind<F>)
    ensures
        message@.sender == message.sender,
        message@.opcode == message.opcode,
        message@.args == message.args@,
        match buffer {
            BufferKind::Shm(frame) => buffer@ == BufferView::Shm(frame),
            BufferKind::DmaBuf { width, height, format, pending } => {
                &&& buffer@ is DmaBuf
                &&& buffer@->DmaBuf_width == width
                &&& buffer@->DmaBuf_height == height
                &&& buffer@->DmaBuf_format == format
                &&& buffer@->DmaBuf_pending.planes == pending.planes@
                &&& buffer@->DmaBuf_pending.fds == pending.fds@
                &&& buffer@->DmaBuf_pending.modifier == pending.modifier
            },
        },
{
}

/// A process is described by its program, its arguments and settings in
/// order, its directory and what it inherits.
pub proof fn law_processes_are_described_in_full(plan: CommandPlan, change: EnvChange, i: int)
    ensures
        plan@.program == plan.program@,
        plan@.arguments.len() == plan.arguments@.len(),
        0 <= i < plan.arguments@.len() ==> plan@.arguments[i] == plan.arguments@[i]@,
        plan@.environment.len() == plan.environment@.len(),
        0 <= i < plan.environment@.len() ==> plan@.environment[i] == plan.environment@[i]@,
        plan.current_dir is None ==> plan@.current_dir is None,
        plan.current_dir is Some ==> plan@.current_dir == Some(plan.current_dir.unwrap()@),
        plan@.inherit_stdout == plan.inherit_stdout,
        plan@.inherit_stderr == plan.inherit_stderr,
        change@.key == change.key@,
        change.value is None ==> change@.value is None,
        change.value is Some ==> change@.value == Some(change.value.unwrap()@),
{
}

/// A configuration is described by its program, its arguments and settings in
/// order, its directory and whether its output is inherited.
pub proof fn law_configurations_are_described_in_full(config: LaunchConfig, i: int)
    ensures
        config@.program == config.program@,
        config@.arguments.len() == config.arguments@.len(),
        0 <= i < config.arguments@.len() ==> config@.arguments[i] == config.arguments@[i]@,
        config@.environment.len() == config.environment@.len(),
        0 <= i < config.environment@.len() ==> config@.environment[i].key
            == config.environment@[i].0@,
        0 <= i < config.environment@.len() && config.environment@[i].1 is Some
            ==> config@.environment[i].value == Some(config.environment@[i].1.unwrap()@),
        0 <= i < config.environment@.len() && config.environment@[i].1 is None
            ==> config@.environment[i].value is None,
        config.current_dir is None ==> config@.current_dir is None,
        config.current_dir is Some ==> config@.current_dir == Some(config.current_dir.unwrap()@),
        config@.inherit_diagnostics == config.inherit_diagnostics,
{
}

/// What a launch asks for is described in full.
pub proof fn law_launch_actions_are_described_in_full(action: LaunchAction)
    ensures
        match action {
            LaunchAction::SpawnNative => action@ == LaunchActionView::SpawnNative,
            LaunchAction::StartBridge { width, height } => action@
                == (LaunchActionView::StartBridge { width, height }),
            LaunchAction::SpawnBridged => action@ == LaunchActionView::SpawnBridged,
            LaunchAction::Clock => action@ == LaunchActionView::Clock,
            LaunchAction::Probe => action@ == LaunchActionView::Probe,
            LaunchAction::CheckExit => action@ == LaunchActionView::CheckExit,
            LaunchAction::CheckContent { app } => action@ == (LaunchActionView::CheckContent {
                app,
            }),
            LaunchAction::Pause { millis } => action@ == (LaunchActionView::Pause { millis }),
            LaunchAction::Bind { pid, app } => action@ == (LaunchActionView::Bind { pid, app }),
            LaunchAction::AdoptBridge => action@ == LaunchActionView::AdoptBridge,
            LaunchAction::StopChild => action@ == LaunchActionView::StopChild,
            LaunchAction::Finish(launched) => action@ == LaunchActionView::Finish(launched),
            LaunchAction::Fail(error) => action@ == (LaunchActionView::Fail {
                text: error.text(),
                cause: error.cause(),
            }),
            LaunchAction::Ignore => action@ == LaunchActionView::Ignore,
        },
{
}

/// What starting a bridge asks for is described in full: an action says one
/// thing, and that is what it is.
pub proof fn law_bridge_actions_are_described_in_full(action: BridgeAction, view: BridgeActionView)
    requires
        action.says(view),
    ensures
        match view {
            BridgeActionView::FindXwayland => action is FindXwayland,
            BridgeActionView::PickDisplay => action is PickDisplay,
            BridgeActionView::CreateDirectory => action is CreateDirectory,
            BridgeActionView::RestrictDirectory { mode } => action
                == (BridgeAction::RestrictDirectory { mode }),
            BridgeActionView::Authorize(plan) => action matches BridgeAction::Authorize(run)
                && run@ == plan,
            BridgeActionView::RestrictAuthority { mode } => action
                == (BridgeAction::RestrictAuthority { mode }),
            BridgeActionView::Spawn(plan) => action matches BridgeAction::Spawn(run) && run@
                == plan,
            BridgeActionView::Clock => action is Clock,
            BridgeActionView::CheckSocket => action is CheckSocket,
            BridgeActionView::CheckExit => action is CheckExit,
            BridgeActionView::Pause { millis } => action == (BridgeAction::Pause { millis }),
            BridgeActionView::StopChild => action is StopChild,
            BridgeActionView::RemoveDirectory => action is RemoveDirectory,
            BridgeActionView::Ready => action is Ready,
            BridgeActionView::Fail { kind: BridgeFailure::Xwayland, message } => (
            action matches BridgeAction::Fail(SeatError::Xwayland(text)) && text@ == message),
            BridgeActionView::Fail { kind: BridgeFailure::Xauth, message } => (
            action matches BridgeAction::Fail(SeatError::Xauth(text)) && text@ == message),
            BridgeActionView::Ignore => action is Ignore,
        },
{
}

/// A connection that was just opened knows nothing: no object, no global,
/// nothing shown and nothing focused. Its first serial is one.
pub proof fn law_fresh_connections_know_nothing<F>(id: u64, name: u32)
    ensures
        ({
            let fresh = ConnView::<F>::fresh();
            &&& !fresh.s2u.contains_key(id) && !fresh.u2s.contains_key(id)
                && !fresh.u2s_proto.contains_key(name)
            &&& !fresh.globals.contains_key(name) && !fresh.global_names.contains_key(id)
            &&& !fresh.pools.contains_key(id) && !fresh.buffers.contains_key(id)
                && !fresh.surfaces.contains_key(id) && !fresh.pending.contains_key(id)
            &&& fresh.client is None && fresh.upstream_registry is None && fresh.keymap_fd is None
            &&& fresh.commits == 0 && fresh.keymap_size == 0 && !fresh.dead
            &&& fresh.input == (InputState {
                pointer: None,
                keyboard: None,
                text_input: None,
                text_input_pending_enabled: false,
                text_input_enabled: false,
                text_input_commit_serial: 0,
                focused_surface: None,
                next_serial: 1,
                pointer_focus: None,
                keyboard_focus: None,
            })
            &&& fresh.paired()
        }),
{
}

} // verus!
