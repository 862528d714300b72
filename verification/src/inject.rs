//! Input injection: which events make up a click, a scroll, a drag, a key
//! combination or a text.
//!
//! The events go straight to the application's own input objects, so it can
//! be driven while the user works in another window. Coordinates are surface
//! local and in 24.8 fixed point.
use crate::input::InputState;
use crate::plan::{
    EventArg, Planner, PlannerView, Step, StepView, BTN_LEFT, KEY_PRESSED, KEY_RELEASED, PTR_AXIS,
    PTR_AXIS_DISCRETE,
};
use crate::proxy::{keys_of, Conn, ConnView};
use vstd::prelude::*;

verus! {

broadcast use vstd::std_specs::hash::group_hash_axioms;

// ---------------------------------------------------------------------------
// Plans
// ---------------------------------------------------------------------------

/// A whole injection. `open` comes first; where it fails nothing else
/// happens. Then `lead` and `cycles` rounds of `cycle` follow, up to the first
/// failure, and `close` runs in any case.
pub struct Plan {
    pub open: Vec<Step>,
    pub lead: Vec<Step>,
    pub cycle: Vec<Step>,
    pub cycles: u32,
    pub close: Vec<Step>,
}

/// What an injection amounts to.
#[verifier::ext_equal]
pub struct PlanView {
    pub open: Seq<StepView>,
    pub lead: Seq<StepView>,
    pub cycle: Seq<StepView>,
    pub cycles: u32,
    pub close: Seq<StepView>,
}

impl View for Plan {
    type V = PlanView;

    open spec fn view(&self) -> PlanView {
        PlanView {
            open: crate::plan::step_views(self.open@),
            lead: crate::plan::step_views(self.lead@),
            cycle: crate::plan::step_views(self.cycle@),
            cycles: self.cycles,
            close: crate::plan::step_views(self.close@),
        }
    }
}

impl PlanView {
    /// A plan that is over after its first part.
    pub open spec fn only_open(open: Seq<StepView>) -> Self {
        PlanView {
            open,
            lead: Seq::empty(),
            cycle: Seq::empty(),
            cycles: 0,
            close: Seq::empty(),
        }
    }

    /// A plan with a single part.
    pub open spec fn only_lead(lead: Seq<StepView>) -> Self {
        PlanView {
            open: Seq::empty(),
            lead,
            cycle: Seq::empty(),
            cycles: 0,
            close: Seq::empty(),
        }
    }
}

impl Plan {
    pub(crate) fn only_open(open: Vec<Step>) -> (plan: Plan)
        ensures
            plan@ == PlanView::only_open(crate::plan::step_views(open@)),
    {
        let plan = Plan {
            open,
            lead: Vec::new(),
            cycle: Vec::new(),
            cycles: 0,
            close: Vec::new(),
        };
        assert(plan@ =~= PlanView::only_open(crate::plan::step_views(open@)));
        plan
    }

    pub(crate) fn only_lead(lead: Vec<Step>) -> (plan: Plan)
        ensures
            plan@ == PlanView::only_lead(crate::plan::step_views(lead@)),
    {
        let plan = Plan {
            open: Vec::new(),
            lead,
            cycle: Vec::new(),
            cycles: 0,
            close: Vec::new(),
        };
        assert(plan@ =~= PlanView::only_lead(crate::plan::step_views(lead@)));
        plan
    }
}

impl Plan {
    /// A plan whose middle part runs once between the other two.
    pub(crate) fn once(open: Vec<Step>, lead: Vec<Step>, close: Vec<Step>) -> (plan: Plan)
        ensures
            plan@ == (PlanView {
                open: crate::plan::step_views(open@),
                lead: crate::plan::step_views(lead@),
                cycle: Seq::empty(),
                cycles: 0,
                close: crate::plan::step_views(close@),
            }),
    {
        let plan = Plan { open, lead, cycle: Vec::new(), cycles: 0, close };
        assert(plan@.cycle =~= Seq::empty());
        plan
    }
}

// ---------------------------------------------------------------------------
// Target surface
// ---------------------------------------------------------------------------

impl<F> ConnView<F> {
    /// Whether input goes to this surface: the focused one where there is
    /// one, else the one that was committed most recently.
    pub open spec fn is_target(self, target: Option<u64>) -> bool {
        match self.input.focused_surface {
            Some(surface) => target == Some(surface),
            None => match target {
                Some(id) => {
                    &&& self.surfaces.contains_key(id)
                    &&& forall|other: u64| #[trigger]
                        self.surfaces.contains_key(other) ==> self.surfaces[other].last_commit
                            <= self.surfaces[id].last_commit
                },
                None => self.surfaces.dom() =~= Set::empty(),
            },
        }
    }
}

impl<F> Conn<F> {
    /// Pick the surface to inject into: the keyboard-focused surface if known,
    /// otherwise the most recently committed one.
    pub fn target_surface(&self) -> (target: Option<u64>)
        ensures
            self@.is_target(target),
    {
        if self.input.focused_surface.is_some() {
            return self.input.focused_surface;
        }
        let keys: Vec<u64> = keys_of(&self.surfaces);
        let mut best: Option<(u64, u64)> = None;
        let mut i: usize = 0;
        while i < keys.len()
            invariant
                i <= keys.len(),
                forall|k: u64| self.surfaces@.contains_key(k) <==> #[trigger] keys@.contains(k),
                match best {
                    Some((id, commits)) => {
                        &&& self.surfaces@.contains_key(id)
                        &&& self.surfaces@[id].last_commit == commits
                        &&& forall|j: int|
                            0 <= j < i ==> self.surfaces@[#[trigger] keys@[j]].last_commit
                                <= commits
                    },
                    None => i == 0,
                },
            decreases keys.len() - i,
        {
            let id: u64 = keys[i];
            assert(keys@.contains(keys@[i as int]));
            match self.surfaces.get(&id) {
                Some(state) => {
                    let replace: bool = match best {
                        Some((_, commits)) => state.last_commit >= commits,
                        None => true,
                    };
                    if replace {
                        best = Some((id, state.last_commit));
                    }
                },
                None => {},
            }
            i = i + 1;
        }
        proof {
            assert forall|k: u64| #[trigger] self.surfaces@.contains_key(k) implies exists|j: int|
                0 <= j < keys@.len() && #[trigger] keys@[j] == k by {
                assert(keys@.contains(k));
            }
            if best is None {
                assert(self@.surfaces.dom() =~= Set::empty());
            }
        }
        match best {
            Some((id, _)) => Some(id),
            None => None,
        }
    }
}

// ---------------------------------------------------------------------------
// Pointer
// ---------------------------------------------------------------------------

impl PlannerView {
    /// The pointer and the surface of a pointer action, or the end of the
    /// plan where one of them is missing.
    pub open spec fn aimed(self, no_surface: Seq<char>) -> Self {
        if self.surface is None {
            self.fail(no_surface)
        } else if self.input.pointer is None {
            self.fail("the app has not created a wl_pointer yet"@)
        } else {
            self
        }
    }

    /// Aim at a point before clicking: keyboard input follows the click.
    pub open spec fn click_lead(self, x: i32, y: i32) -> Self {
        let aimed = self.aimed("the app has no surface to click in yet"@);
        if aimed.failed {
            aimed
        } else {
            let pointer = self.input.pointer.unwrap();
            let surface = self.surface.unwrap();
            self.pointer_on(pointer, surface, x, y).step(StepView::SurfaceFocused(surface)).motion(
                pointer,
                x,
                y,
            ).frame(pointer)
        }
    }

    /// One click: press, hold, release, pause.
    pub open spec fn click_once(self, pointer: u64, button: u32) -> Self {
        self.button(pointer, button, KEY_PRESSED).sleep(45).button(
            pointer,
            button,
            KEY_RELEASED,
        ).sleep(30)
    }

    /// Scroll along one axis by a number of notches.
    pub open spec fn axis(self, pointer: u64, axis: u32, notches: i32) -> Self {
        if notches == 0 {
            self
        } else {
            self.send(
                pointer,
                PTR_AXIS,
                seq![
                    EventArg::Noted,
                    EventArg::Uint(axis),
                    EventArg::Fixed(notches_fixed(notches)),
                ],
            ).send(
                pointer,
                PTR_AXIS_DISCRETE,
                seq![EventArg::Uint(axis), EventArg::Int(notches)],
            )
        }
    }

    /// Scroll at a point, vertically and then horizontally.
    pub open spec fn scrolled(self, x: i32, y: i32, dx: i32, dy: i32) -> Self {
        let aimed = self.aimed("the app has no surface to scroll in yet"@);
        if aimed.failed {
            aimed
        } else {
            let pointer = self.input.pointer.unwrap();
            let surface = self.surface.unwrap();
            self.pointer_on(pointer, surface, x, y).step(StepView::NoteTime).axis(
                pointer,
                0,
                dy,
            ).axis(pointer, 1, dx).frame(pointer)
        }
    }

    /// Scroll along one axis by a number of pixels.
    pub open spec fn pixel_axis(self, pointer: u64, axis: u32, pixels: i32) -> Self {
        if pixels == 0 {
            self
        } else {
            self.send(
                pointer,
                PTR_AXIS,
                seq![
                    EventArg::Noted,
                    EventArg::Uint(axis),
                    EventArg::Fixed(pixels_fixed(pixels)),
                ],
            )
        }
    }

    /// Scroll at a point by pixels, vertically and then horizontally.
    pub open spec fn pixels_scrolled(self, x: i32, y: i32, dx: i32, dy: i32) -> Self {
        let aimed = self.aimed("the app has no surface to scroll in yet"@);
        if aimed.failed {
            aimed
        } else {
            let pointer = self.input.pointer.unwrap();
            let surface = self.surface.unwrap();
            self.pointer_on(pointer, surface, x, y).step(StepView::NoteTime).pixel_axis(
                pointer,
                0,
                dy,
            ).pixel_axis(pointer, 1, dx).frame(pointer)
        }
    }

    /// Move along a path, pausing at each point.
    pub open spec fn moved_along(self, pointer: u64, path: Seq<(i32, i32)>) -> Self
        decreases path.len(),
    {
        if path.len() == 0 {
            self
        } else {
            self.moved_along(pointer, path.drop_last()).motion(
                pointer,
                path.last().0,
                path.last().1,
            ).frame(pointer).sleep(8)
        }
    }

    /// Press at a point, move along a path, release.
    pub open spec fn dragged(self, x: i32, y: i32, path: Seq<(i32, i32)>) -> Self {
        let aimed = self.aimed("the app has no surface to drag in yet"@);
        if aimed.failed {
            aimed
        } else {
            let pointer = self.input.pointer.unwrap();
            let surface = self.surface.unwrap();
            self.pointer_on(pointer, surface, x, y).motion(pointer, x, y).button(
                pointer,
                BTN_LEFT,
                KEY_PRESSED,
            ).moved_along(pointer, path).button(pointer, BTN_LEFT, KEY_RELEASED)
        }
    }
}

/// A number as far as it fits in 32 bits.
pub open spec fn saturated(value: int) -> i32 {
    if value > i32::MAX {
        i32::MAX
    } else if value < i32::MIN {
        i32::MIN
    } else {
        value as i32
    }
}

/// The axis value of a number of notches: ten units each, in 24.8 fixed
/// point, as far as that fits.
pub open spec fn notches_fixed(notches: i32) -> i32 {
    saturated(notches * 2560)
}

/// The axis value of a number of pixels, in 24.8 fixed point, as far as that
/// fits.
pub open spec fn pixels_fixed(pixels: i32) -> i32 {
    saturated(pixels * 256)
}

fn saturate(value: i64) -> (fitting: i32)
    ensures
        fitting == saturated(value as int),
{
    if value > i32::MAX as i64 {
        i32::MAX
    } else if value < i32::MIN as i64 {
        i32::MIN
    } else {
        value as i32
    }
}

/// The plan of a click, behind and in front of other parts.
pub open spec fn click_between(
    open: Seq<StepView>,
    lead: PlannerView,
    button: u32,
    count: u32,
    close: Seq<StepView>,
) -> PlanView {
    if lead.failed {
        PlanView { open, lead: lead.steps, cycle: Seq::empty(), cycles: 0, close }
    } else {
        PlanView {
            open,
            lead: lead.steps,
            cycle: PlannerView::start(lead.input, lead.surface).click_once(
                lead.input.pointer.unwrap(),
                button,
            ).steps,
            cycles: count,
            close,
        }
    }
}

/// The plan of a click.
pub open spec fn click_plan(
    input: InputState,
    surface: Option<u64>,
    x: i32,
    y: i32,
    button: u32,
    count: u32,
) -> PlanView {
    click_between(
        Seq::empty(),
        PlannerView::start(input, surface).click_lead(x, y),
        button,
        count,
        Seq::empty(),
    )
}

proof fn lemma_pointer_kept(v: PlannerView, x: i32, y: i32)
    requires
        !v.failed,
    ensures
        v.click_lead(x, y).input.pointer == v.input.pointer,
        v.click_lead(x, y).surface == v.surface,
        !v.click_lead(x, y).failed ==> v.input.pointer is Some && v.surface is Some,
{
}

impl Planner {
    fn click_lead(&mut self, x: i32, y: i32)
        requires
            !old(self)@.failed,
        ensures
            final(self)@ == old(self)@.click_lead(x, y),
    {
        let surface: u64 = match self.surface {
            Some(surface) => surface,
            None => {
                self.fail("the app has no surface to click in yet".to_owned());
                return;
            },
        };
        let pointer: u64 = match self.input.pointer {
            Some(pointer) => pointer,
            None => {
                self.fail("the app has not created a wl_pointer yet".to_owned());
                return;
            },
        };
        self.ensure_pointer_focus(pointer, surface, x, y);
        self.step(Step::SurfaceFocused(surface));
        self.motion(pointer, x, y);
        self.frame(pointer);
    }

    fn click_once(&mut self, pointer: u64, button: u32)
        ensures
            final(self)@ == old(self)@.click_once(pointer, button),
    {
        self.button(pointer, button, KEY_PRESSED);
        self.sleep(45);
        self.button(pointer, button, KEY_RELEASED);
        self.sleep(30);
    }

    fn axis(&mut self, pointer: u64, axis: u32, notches: i32)
        ensures
            final(self)@ == old(self)@.axis(pointer, axis, notches),
    {
        if notches == 0 {
            return;
        }
        let value: i32 = saturate(notches as i64 * 2560);
        let scroll: Vec<EventArg> = vec![
            EventArg::Noted,
            EventArg::Uint(axis),
            EventArg::Fixed(value),
        ];
        assert(scroll@ =~= seq![
            EventArg::Noted,
            EventArg::Uint(axis),
            EventArg::Fixed(notches_fixed(notches)),
        ]);
        self.send(pointer, PTR_AXIS, scroll);
        let discrete: Vec<EventArg> = vec![EventArg::Uint(axis), EventArg::Int(notches)];
        assert(discrete@ =~= seq![EventArg::Uint(axis), EventArg::Int(notches)]);
        self.send(pointer, PTR_AXIS_DISCRETE, discrete);
    }

    fn pixel_axis(&mut self, pointer: u64, axis: u32, pixels: i32)
        ensures
            final(self)@ == old(self)@.pixel_axis(pointer, axis, pixels),
    {
        if pixels == 0 {
            return;
        }
        let value: i32 = saturate(pixels as i64 * 256);
        let scroll: Vec<EventArg> = vec![
            EventArg::Noted,
            EventArg::Uint(axis),
            EventArg::Fixed(value),
        ];
        assert(scroll@ =~= seq![
            EventArg::Noted,
            EventArg::Uint(axis),
            EventArg::Fixed(pixels_fixed(pixels)),
        ]);
        self.send(pointer, PTR_AXIS, scroll);
    }

    fn move_along(&mut self, pointer: u64, path: &Vec<(i32, i32)>)
        ensures
            final(self)@ == old(self)@.moved_along(pointer, path@),
    {
        let mut i: usize = 0;
        assert(self@ == old(self)@.moved_along(pointer, path@.take(0)));
        while i < path.len()
            invariant
                i <= path.len(),
                self@ == old(self)@.moved_along(pointer, path@.take(i as int)),
            decreases path.len() - i,
        {
            proof {
                assert(path@.take(i + 1).drop_last() =~= path@.take(i as int));
                assert(path@.take(i + 1).last() == path@[i as int]);
            }
            let (x, y) = path[i];
            self.motion(pointer, x, y);
            self.frame(pointer);
            self.sleep(8);
            i = i + 1;
        }
        assert(path@.take(path@.len() as int) =~= path@);
    }
}

pub(crate) fn click_after(
    open: Vec<Step>,
    input: InputState,
    surface: Option<u64>,
    x: i32,
    y: i32,
    button: u32,
    count: u32,
    close: Vec<Step>,
) -> (plan: Plan)
    ensures
        plan@ == click_between(
            crate::plan::step_views(open@),
            PlannerView::start(input, surface).click_lead(x, y),
            button,
            count,
            crate::plan::step_views(close@),
        ),
{
    let mut lead: Planner = Planner::start(input, surface);
    lead.click_lead(x, y);
    proof {
        lemma_pointer_kept(PlannerView::start(input, surface), x, y);
    }
    let plan: Plan = if lead.failed {
        Plan { open, lead: lead.steps, cycle: Vec::new(), cycles: 0, close }
    } else {
        let mut cycle: Planner = Planner::start(lead.input, lead.surface);
        match lead.input.pointer {
            Some(pointer) => cycle.click_once(pointer, button),
            None => {},
        }
        Plan { open, lead: lead.steps, cycle: cycle.steps, cycles: count, close }
    };
    assert(plan@ =~= click_between(
        crate::plan::step_views(open@),
        PlannerView::start(input, surface).click_lead(x, y),
        button,
        count,
        crate::plan::step_views(close@),
    ));
    plan
}

/// Plan a click at a point. `button` is a Linux input code and `count` the
/// number of clicks.
pub fn plan_click(
    input: InputState,
    surface: Option<u64>,
    x: i32,
    y: i32,
    button: u32,
    count: u32,
) -> (plan: Plan)
    ensures
        plan@ == click_plan(input, surface, x, y, button, count),
{
    let open: Vec<Step> = Vec::new();
    let close: Vec<Step> = Vec::new();
    assert(crate::plan::step_views(open@) =~= Seq::empty());
    click_after(open, input, surface, x, y, button, count, close)
}

/// Plan a scroll at a point by notches (positive: right and down).
pub fn plan_scroll(input: InputState, surface: Option<u64>, x: i32, y: i32, dx: i32, dy: i32) -> (plan:
    Plan)
    ensures
        plan@ == PlanView::only_lead(
            PlannerView::start(input, surface).scrolled(x, y, dx, dy).steps,
        ),
{
    let mut lead: Planner = Planner::start(input, surface);
    match (surface, input.pointer) {
        (None, _) => {
            lead.fail("the app has no surface to scroll in yet".to_owned());
        },
        (Some(_), None) => {
            lead.fail("the app has not created a wl_pointer yet".to_owned());
        },
        (Some(surface), Some(pointer)) => {
            lead.ensure_pointer_focus(pointer, surface, x, y);
            lead.step(Step::NoteTime);
            lead.axis(pointer, 0, dy);
            lead.axis(pointer, 1, dx);
            lead.frame(pointer);
        },
    }
    Plan::only_lead(lead.steps)
}

/// Plan a scroll at a point by pixels (positive: right and down).
pub fn plan_pixel_scroll(
    input: InputState,
    surface: Option<u64>,
    x: i32,
    y: i32,
    dx: i32,
    dy: i32,
) -> (plan: Plan)
    ensures
        plan@ == PlanView::only_lead(
            PlannerView::start(input, surface).pixels_scrolled(x, y, dx, dy).steps,
        ),
{
    let mut lead: Planner = Planner::start(input, surface);
    match (surface, input.pointer) {
        (None, _) => {
            lead.fail("the app has no surface to scroll in yet".to_owned());
        },
        (Some(_), None) => {
            lead.fail("the app has not created a wl_pointer yet".to_owned());
        },
        (Some(surface), Some(pointer)) => {
            lead.ensure_pointer_focus(pointer, surface, x, y);
            lead.step(Step::NoteTime);
            lead.pixel_axis(pointer, 0, dy);
            lead.pixel_axis(pointer, 1, dx);
            lead.frame(pointer);
        },
    }
    Plan::only_lead(lead.steps)
}

/// Plan a drag with the primary button, along the points of a path.
pub fn plan_drag(
    input: InputState,
    surface: Option<u64>,
    x: i32,
    y: i32,
    path: &Vec<(i32, i32)>,
) -> (plan: Plan)
    ensures
        plan@ == PlanView::only_lead(PlannerView::start(input, surface).dragged(x, y, path@).steps),
{
    let mut lead: Planner = Planner::start(input, surface);
    match (surface, input.pointer) {
        (None, _) => {
            lead.fail("the app has no surface to drag in yet".to_owned());
        },
        (Some(_), None) => {
            lead.fail("the app has not created a wl_pointer yet".to_owned());
        },
        (Some(surface), Some(pointer)) => {
            lead.ensure_pointer_focus(pointer, surface, x, y);
            lead.motion(pointer, x, y);
            lead.button(pointer, BTN_LEFT, KEY_PRESSED);
            lead.move_along(pointer, path);
            lead.button(pointer, BTN_LEFT, KEY_RELEASED);
        },
    }
    Plan::only_lead(lead.steps)
}

/// Plan the press or release of one key.
pub fn plan_key_raw(input: InputState, surface: Option<u64>, keycode: u32, pressed: bool) -> (plan:
    Plan)
    ensures
        plan@ == PlanView::only_lead(PlannerView::start(input, surface).key(keycode, pressed).steps),
{
    let mut lead: Planner = Planner::start(input, surface);
    lead.key(keycode, pressed);
    Plan::only_lead(lead.steps)
}

} // verus!
