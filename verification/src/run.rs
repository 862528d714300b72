//! Performing a plan: which event to send or which pause to make next, and
//! what is left to do after a failure.
use crate::inject::{Plan, PlanView};
use crate::input::InputState;
use crate::plan::{EventArg, Step, StepView};
use crate::text::{decimal_text, join4};
use vstd::prelude::*;

verus! {

/// What to do next.
pub enum Command {
    /// Send an event; all arguments are known values.
    Send { target: u64, opcode: u16, args: Vec<EventArg> },
    /// Send an event whose only argument is a text.
    SendText { target: u64, opcode: u16, text: String },
    /// Wait this many milliseconds.
    Sleep { millis: u64 },
    /// Nothing is left to do.
    Finished(Result<(), String>),
}

/// What a command says.
pub enum CommandView {
    Send { target: u64, opcode: u16, args: Seq<EventArg> },
    SendText { target: u64, opcode: u16, text: Seq<char> },
    Sleep { millis: u64 },
    Finished(Option<Seq<char>>),
}

/// What an optional text says.
pub open spec fn shown(text: Option<String>) -> Option<Seq<char>> {
    match text {
        Some(text) => Some(text@),
        None => None,
    }
}

impl View for Command {
    type V = CommandView;

    open spec fn view(&self) -> CommandView {
        match *self {
            Command::Send { target, opcode, args } => CommandView::Send {
                target,
                opcode,
                args: args@,
            },
            Command::SendText { target, opcode, text } => CommandView::SendText {
                target,
                opcode,
                text: text@,
            },
            Command::Sleep { millis } => CommandView::Sleep { millis },
            Command::Finished(Ok(())) => CommandView::Finished(None),
            Command::Finished(Err(message)) => CommandView::Finished(Some(message@)),
        }
    }
}

// ---------------------------------------------------------------------------
// The meaning of a run
// ---------------------------------------------------------------------------

/// The part of a plan that a run is in.
#[derive(Clone, Copy, Debug, PartialEq, Eq, Structural)]
pub enum Part {
    Open,
    Act,
    Close,
    Over,
}

/// A run: the part it is in, the steps that are left of that part, the parts
/// to come, the time noted last, and the first error.
#[verifier::ext_equal]
pub struct RunView {
    pub part: Part,
    pub rest: Seq<StepView>,
    pub act: Seq<StepView>,
    pub close: Seq<StepView>,
    pub noted: u32,
    pub error: Option<Seq<char>>,
}

/// A list of steps, a number of times over.
pub open spec fn repeated(steps: Seq<StepView>, times: nat) -> Seq<StepView>
    decreases times,
{
    if times == 0 {
        Seq::empty()
    } else {
        steps + repeated(steps, (times - 1) as nat)
    }
}

/// An argument with the times filled in.
pub open spec fn filled(arg: EventArg, now: u32, noted: u32) -> EventArg {
    match arg {
        EventArg::Now => EventArg::Uint(now),
        EventArg::Noted => EventArg::Uint(noted),
        _ => arg,
    }
}

/// The arguments of an event, behind a fresh serial where it takes one.
pub open spec fn filled_all(
    serial: bool,
    args: Seq<EventArg>,
    next_serial: u32,
    now: u32,
    noted: u32,
) -> Seq<EventArg> {
    let tail = Seq::new(args.len(), |i: int| filled(args[i], now, noted));
    if serial {
        seq![EventArg::Uint(next_serial)] + tail
    } else {
        tail
    }
}

/// The input state once a step was performed, the serial counter included.
pub open spec fn input_after(input: InputState, step: StepView) -> InputState {
    match step {
        StepView::Send { serial: true, .. } => InputState {
            next_serial: input.next_serial.wrapping_add(1),
            ..input
        },
        _ => crate::plan::focus_after(input, step),
    }
}

/// What a step makes the caller do, if anything.
pub open spec fn command_of(step: StepView, input: InputState, now: u32, noted: u32) -> Option<
    CommandView,
> {
    match step {
        StepView::Send { target, opcode, serial, args } => Some(
            CommandView::Send {
                target,
                opcode,
                args: filled_all(serial, args, input.next_serial, now, noted),
            },
        ),
        StepView::SendText { target, opcode, text } => Some(
            CommandView::SendText { target, opcode, text },
        ),
        StepView::Sleep { millis } => Some(CommandView::Sleep { millis }),
        _ => None,
    }
}

impl RunView {
    /// A run that has not begun.
    pub open spec fn begun(plan: PlanView) -> Self {
        RunView {
            part: Part::Open,
            rest: plan.open,
            act: plan.lead + repeated(plan.cycle, plan.cycles as nat),
            close: plan.close,
            noted: 0,
            error: None,
        }
    }

    /// A failure: before the act it ends the run, in the act the closing part
    /// is still performed, and there it ends the run. The first error counts.
    pub open spec fn failed(self, message: Seq<char>) -> Self {
        let error = match self.error {
            Some(first) => Some(first),
            None => Some(message),
        };
        match self.part {
            Part::Act => RunView { part: Part::Close, rest: self.close, error, ..self },
            Part::Over => self,
            _ => RunView { part: Part::Over, rest: Seq::empty(), error, ..self },
        }
    }

    /// On to the next part, where the present one is done.
    pub open spec fn moved_on(self) -> Self {
        match self.part {
            Part::Open => RunView { part: Part::Act, rest: self.act, ..self },
            Part::Act => RunView { part: Part::Close, rest: self.close, ..self },
            _ => RunView { part: Part::Over, rest: Seq::empty(), ..self },
        }
    }

    /// The run once its first step was performed.
    pub open spec fn stepped(self, now: u32) -> Self {
        match self.rest[0] {
            StepView::Fail(message) => self.failed(message),
            StepView::NoteTime => RunView { rest: self.rest.skip(1), noted: now, ..self },
            _ => RunView { rest: self.rest.skip(1), ..self },
        }
    }

    /// How far a run is from its end, part by part.
    pub open spec fn parts_left(self) -> nat {
        match self.part {
            Part::Open => 3,
            Part::Act => 2,
            Part::Close => 1,
            Part::Over => 0,
        }
    }

    /// The next command, with the run and the input state behind it.
    pub open spec fn next(self, input: InputState, now: u32) -> (Self, InputState, CommandView)
        decreases self.parts_left(), self.rest.len(),
    {
        if self.part == Part::Over {
            (self, input, CommandView::Finished(self.error))
        } else if self.rest.len() == 0 {
            self.moved_on().next(input, now)
        } else {
            match command_of(self.rest[0], input, now, self.noted) {
                Some(command) => (
                    self.stepped(now),
                    input_after(input, self.rest[0]),
                    command,
                ),
                None => self.stepped(now).next(input_after(input, self.rest[0]), now),
            }
        }
    }
}

// ---------------------------------------------------------------------------
// The run itself
// ---------------------------------------------------------------------------

#[derive(Clone, Copy, Debug, PartialEq, Eq, Structural)]
enum Stage {
    Open,
    Lead,
    Cycle,
    Close,
    Over,
}

/// A plan that is being performed.
pub struct Injection {
    plan: Plan,
    stage: Stage,
    round: u32,
    index: usize,
    noted: u32,
    error: Option<String>,
}

impl View for Injection {
    type V = RunView;

    closed spec fn view(&self) -> RunView {
        let plan = self.plan@;
        let at = self.index as int;
        let (part, rest) = match self.stage {
            Stage::Open => (Part::Open, plan.open.skip(at)),
            Stage::Lead => (
                Part::Act,
                plan.lead.skip(at) + repeated(plan.cycle, plan.cycles as nat),
            ),
            Stage::Cycle => (
                Part::Act,
                plan.cycle.skip(at) + repeated(
                    plan.cycle,
                    (plan.cycles - self.round - 1) as nat,
                ),
            ),
            Stage::Close => (Part::Close, plan.close.skip(at)),
            Stage::Over => (Part::Over, Seq::empty()),
        };
        RunView {
            part,
            rest,
            act: plan.lead + repeated(plan.cycle, plan.cycles as nat),
            close: plan.close,
            noted: self.noted,
            error: shown(self.error),
        }
    }
}

impl Injection {
    /// The position lies within the plan.
    pub closed spec fn wf(self) -> bool {
        match self.stage {
            Stage::Open => self.index <= self.plan.open@.len(),
            Stage::Lead => self.index <= self.plan.lead@.len(),
            Stage::Cycle => self.index <= self.plan.cycle@.len() && self.round < self.plan.cycles,
            Stage::Close => self.index <= self.plan.close@.len(),
            Stage::Over => true,
        }
    }

    /// Begin to perform a plan.
    pub fn begin(plan: Plan) -> (run: Self)
        ensures
            run.wf(),
            run@ == RunView::begun(plan@),
    {
        let run = Injection {
            plan,
            stage: Stage::Open,
            round: 0,
            index: 0,
            noted: 0,
            error: None,
        };
        assert(run@ =~= RunView::begun(plan@));
        run
    }

    /// Pass over the ends of the lead and of finished rounds.
    fn settle(&mut self)
        requires
            old(self).wf(),
        ensures
            final(self).wf(),
            final(self)@ == old(self)@,
            final(self).stage == Stage::Lead ==> final(self).index < final(self).plan.lead@.len()
                || final(self).plan.cycles == 0,
            final(self).stage == Stage::Cycle ==> final(self).index
                < final(self).plan.cycle@.len() || final(self).round + 1
                == final(self).plan.cycles,
    {
        if self.stage == Stage::Lead && self.index == self.plan.lead.len() && self.plan.cycles
            > 0 {
            self.stage = Stage::Cycle;
            self.round = 0;
            self.index = 0;
            proof {
                let plan = self.plan@;
                assert(plan.cycle.skip(0) =~= plan.cycle);
                assert(plan.lead.skip(plan.lead.len() as int) + repeated(
                    plan.cycle,
                    plan.cycles as nat,
                ) =~= repeated(plan.cycle, plan.cycles as nat));
            }
            assert(self@ =~= old(self)@);
        }
        if self.stage != Stage::Cycle {
            return;
        }
        while self.index == self.plan.cycle.len() && self.round + 1 < self.plan.cycles
            invariant
                self.wf(),
                self.stage == Stage::Cycle,
                self@ == old(self)@,
            decreases self.plan.cycles - self.round,
        {
            let ghost before = *self;
            self.round = self.round + 1;
            self.index = 0;
            proof {
                let plan = self.plan@;
                assert(plan.cycle.skip(0) =~= plan.cycle);
                assert(before@.rest =~= repeated(plan.cycle, (plan.cycles - self.round) as nat));
                assert(self@ =~= before@);
            }
        }
    }

    /// On to the next part.
    fn move_on(&mut self)
        requires
            old(self).wf(),
        ensures
            final(self).wf(),
            final(self)@ == old(self)@.moved_on(),
    {
        self.index = 0;
        self.stage = match self.stage {
            Stage::Open => Stage::Lead,
            Stage::Lead => Stage::Close,
            Stage::Cycle => Stage::Close,
            Stage::Close => Stage::Over,
            Stage::Over => Stage::Over,
        };
        assert(self@ =~= old(self)@.moved_on());
    }

    /// Note a failure: what is left to do depends on the part it came in.
    pub fn fail(&mut self, message: String)
        requires
            old(self).wf(),
        ensures
            final(self).wf(),
            final(self)@ == old(self)@.failed(message@),
    {
        if self.stage == Stage::Over {
            return;
        }
        let keep: bool = self.error.is_some();
        if !keep {
            self.error = Some(message);
        }
        self.index = 0;
        self.stage = match self.stage {
            Stage::Lead => Stage::Close,
            Stage::Cycle => Stage::Close,
            _ => Stage::Over,
        };
        assert(self@ =~= old(self)@.failed(message@));
    }

    /// Note that an event could not be delivered.
    pub fn delivery_failed(&mut self, opcode: u16, error: &str)
        requires
            old(self).wf(),
        ensures
            final(self).wf(),
            final(self)@ == old(self)@.failed(
                "could not deliver input event opcode "@ + crate::text::decimal(opcode as nat)
                    + ": "@ + error@,
            ),
    {
        let number: String = decimal_text(opcode as u64);
        self.fail(join4("could not deliver input event opcode ", number.as_str(), ": ", error));
    }

    fn steps(&self) -> (steps: &Vec<Step>)
        requires
            self.stage != Stage::Over,
        ensures
            steps@ == match self.stage {
                Stage::Open => self.plan.open@,
                Stage::Lead => self.plan.lead@,
                Stage::Cycle => self.plan.cycle@,
                _ => self.plan.close@,
            },
    {
        match self.stage {
            Stage::Open => &self.plan.open,
            Stage::Lead => &self.plan.lead,
            Stage::Cycle => &self.plan.cycle,
            _ => &self.plan.close,
        }
    }

    /// Perform the step that comes first.
    fn step(&mut self, input: &mut InputState, now: u32) -> (command: Option<Command>)
        requires
            old(self).wf(),
            old(self).stage != Stage::Over,
            old(self)@.rest.len() > 0,
            old(self).index < (match old(self).stage {
                Stage::Open => old(self).plan.open@.len(),
                Stage::Lead => old(self).plan.lead@.len(),
                Stage::Cycle => old(self).plan.cycle@.len(),
                _ => old(self).plan.close@.len(),
            }),
        ensures
            final(self).wf(),
            final(self)@ == old(self)@.stepped(now),
            *final(input) == input_after(*old(input), old(self)@.rest[0]),
            match command {
                Some(command) => command_of(old(self)@.rest[0], *old(input), now, old(self)@.noted)
                    == Some(command@),
                None => command_of(old(self)@.rest[0], *old(input), now, old(self)@.noted) is None,
            },
    {
        let ghost before = *self;
        let ghost first = self@.rest[0];
        let at: usize = self.index;
        assert(match self.stage {
            Stage::Open => self.plan.open@[at as int]@ == first,
            Stage::Lead => self.plan.lead@[at as int]@ == first,
            Stage::Cycle => self.plan.cycle@[at as int]@ == first,
            _ => self.plan.close@[at as int]@ == first,
        });
        let mut note: bool = false;
        let mut failure: Option<String> = None;
        let noted: u32 = self.noted;
        let steps: &Vec<Step> = self.steps();
        assert(at < steps.len());
        let command: Option<Command> = match &steps[at] {
            Step::Send { target, opcode, serial, args } => {
                let args: Vec<EventArg> = fill(*serial, args, input, now, noted);
                Some(Command::Send { target: *target, opcode: *opcode, args })
            },
            Step::SendText { target, opcode, text } => Some(
                Command::SendText { target: *target, opcode: *opcode, text: text.clone() },
            ),
            Step::Sleep { millis } => Some(Command::Sleep { millis: *millis }),
            Step::NoteTime => {
                note = true;
                None
            },
            Step::PointerOn(surface) => {
                input.pointer_focus = Some(*surface);
                None
            },
            Step::KeyboardOn(surface) => {
                input.keyboard_focus = Some(*surface);
                None
            },
            Step::SurfaceFocused(surface) => {
                input.focused_surface = Some(*surface);
                None
            },
            Step::Fail(message) => {
                failure = Some(message.clone());
                None
            },
        };
        match failure {
            Some(message) => self.fail(message),
            None => {
                self.index = at + 1;
                if note {
                    self.noted = now;
                }
                proof {
                    assert(self@.rest =~= before@.rest.skip(1));
                }
            },
        }
        command
    }

    /// The next thing to do at time `now`. An event that cannot be delivered
    /// is reported with `delivery_failed` before the next call.
    pub fn next(&mut self, input: &mut InputState, now: u32) -> (command: Command)
        requires
            old(self).wf(),
        ensures
            final(self).wf(),
            (final(self)@, *final(input), command@) == old(self)@.next(*old(input), now),
    {
        loop
            invariant
                self.wf(),
                self@.next(*input, now) == old(self)@.next(*old(input), now),
            decreases self@.parts_left(), self@.rest.len(),
        {
            self.settle();
            if self.stage == Stage::Over {
                let result: Result<(), String> = match &self.error {
                    Some(message) => Err(message.clone()),
                    None => Ok(()),
                };
                return Command::Finished(result);
            }
            let done: bool = self.index == self.steps().len();
            if done {
                assert(self@.rest.len() == 0);
                self.move_on();
            } else {
                assert(self@.rest.len() > 0);
                match self.step(input, now) {
                    Some(command) => {
                        return command;
                    },
                    None => {},
                }
            }
        }
    }
}

fn fill(
    serial: bool,
    args: &Vec<EventArg>,
    input: &mut InputState,
    now: u32,
    noted: u32,
) -> (filled_args: Vec<EventArg>)
    ensures
        filled_args@ == filled_all(serial, args@, old(input).next_serial, now, noted),
        *final(input) == (InputState {
            next_serial: if serial {
                old(input).next_serial.wrapping_add(1)
            } else {
                old(input).next_serial
            },
            ..*old(input)
        }),
{
    let mut out: Vec<EventArg> = Vec::new();
    let ghost head: Seq<EventArg> = if serial {
        seq![EventArg::Uint(input.next_serial)]
    } else {
        Seq::empty()
    };
    if serial {
        out.push(EventArg::Uint(input.next_serial));
        input.next_serial = input.next_serial.wrapping_add(1);
    }
    assert(out@ =~= head);
    let mut i: usize = 0;
    while i < args.len()
        invariant
            i <= args.len(),
            out@ == head + Seq::new(i as nat, |j: int| filled(args@[j], now, noted)),
        decreases args.len() - i,
    {
        let arg: EventArg = match args[i] {
            EventArg::Now => EventArg::Uint(now),
            EventArg::Noted => EventArg::Uint(noted),
            other => other,
        };
        out.push(arg);
        i = i + 1;
        assert(out@ =~= head + Seq::new(i as nat, |j: int| filled(args@[j], now, noted)));
    }
    assert(out@ =~= filled_all(serial, args@, old(input).next_serial, now, noted));
    out
}

} // verus!
