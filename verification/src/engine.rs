//! The state machine that paces the animation and gates the user's input:
//! whether the simulation runs, which frame of the current generation is
//! shown, which command waits to be carried out, and which cell a paint
//! gesture touched last.

use vstd::prelude::*;

use crate::support::attributes;
use crate::support::update_dynamic_attributes;
use crate::support::CellAttr;
use crate::universe::Grid;
use crate::universe::Universe;
use rand::rngs::StdRng;

verus! {

/// The fewest frames that one generation may span.
pub const SHORTEST_LIFECYCLE: u32 = 2;

/// The most frames that one generation may span.
pub const LONGEST_LIFECYCLE: u32 = 60;

/// Where the pointer is, in pixels from the top left corner of the window.
#[derive(Clone, Copy, Debug, PartialEq, Eq, Structural)]
pub struct Mouse {
    x: u16,
    y: u16,
}

impl View for Mouse {
    type V = (int, int);

    closed spec fn view(&self) -> (int, int) {
        (self.x as int, self.y as int)
    }
}

impl Mouse {
    /// Pixels from the left edge.
    pub fn x(&self) -> (x: u16)
        ensures
            x == self@.0,
    {
        self.x
    }

    /// Pixels from the top edge.
    pub fn y(&self) -> (y: u16)
        ensures
            y == self@.1,
    {
        self.y
    }
}

/// Whether generations follow one another or the simulation is paused.
#[derive(Clone, Copy, Debug, PartialEq, Eq, Structural)]
pub enum EngineState {
    Running,
    Stopped,
}

/// Whether a paint gesture is under way.
#[derive(Clone, Copy, Debug, PartialEq, Eq, Structural)]
pub enum EngineDrawState {
    Drawing,
    Idle,
}

/// A command that waits to be carried out at the next step.
#[derive(Clone, Copy, Debug, PartialEq, Eq, Structural)]
pub enum EngineEvent {
    Randomize,
    Clear,
    Nothing,
}

/// The paint gesture: whether one is under way, and column and row of the
/// cell it touched last, if it has touched one.
#[derive(Clone, Copy)]
struct Draw {
    last: Option<(i32, i32)>,
    state: EngineDrawState,
}

/// The mathematical content of an engine.
pub struct EngineView {
    /// Whether generations follow one another.
    pub running: bool,
    /// Whether a paint gesture is under way.
    pub drawing: bool,
    /// Column and row of the cell painted last, if there is one.
    pub drawn: Option<(int, int)>,
    /// The command that waits to be carried out.
    pub event: EngineEvent,
    /// Where the pointer is.
    pub mouse: (int, int),
    /// The frame of the current generation that is shown.
    pub frame: nat,
    /// The number of frames that one generation spans.
    pub lifecycle: nat,
}

impl EngineView {
    /// A lifecycle lies within its bounds and the frame within the lifecycle.
    pub open spec fn wf(self) -> bool {
        &&& SHORTEST_LIFECYCLE <= self.lifecycle <= LONGEST_LIFECYCLE
        &&& self.frame < self.lifecycle
    }

    /// The lifecycle nearest to `wanted` that lies within the bounds.
    pub open spec fn clamp(wanted: int) -> nat {
        if wanted < SHORTEST_LIFECYCLE {
            SHORTEST_LIFECYCLE as nat
        } else if wanted > LONGEST_LIFECYCLE {
            LONGEST_LIFECYCLE as nat
        } else {
            wanted as nat
        }
    }

    /// A fresh engine: running, at the first frame, with no command waiting,
    /// no gesture under way, no cell painted, and the pointer in the corner.
    pub open spec fn initial(lifecycle: int) -> EngineView {
        EngineView {
            running: true,
            drawing: false,
            drawn: None,
            event: EngineEvent::Nothing,
            mouse: (0, 0),
            frame: 0,
            lifecycle: Self::clamp(lifecycle),
        }
    }

    /// The pointer moved.
    pub open spec fn set_mouse(self, x: int, y: int) -> EngineView {
        EngineView { mouse: (x, y), ..self }
    }

    /// A paint gesture began.
    pub open spec fn start_drawing(self) -> EngineView {
        EngineView { drawing: true, ..self }
    }

    /// The paint gesture ended, and the cell it painted last is forgotten.
    pub open spec fn stop_drawing(self) -> EngineView {
        EngineView { drawing: false, drawn: None, ..self }
    }

    /// Whether the cell in column `cx` of row `cy` is the one painted last.
    /// While no cell is remembered, none is.
    pub open spec fn just_drawn(self, cx: int, cy: int) -> bool {
        self.drawn == Some((cx, cy))
    }

    /// The cell in column `cx` of row `cy` was painted.
    pub open spec fn draw(self, cx: int, cy: int) -> EngineView {
        EngineView { drawn: Some((cx, cy)), ..self }
    }

    /// Running became paused, or paused running.
    pub open spec fn startstop(self) -> EngineView {
        EngineView { running: !self.running, ..self }
    }

    /// The waiting command was taken.
    pub open spec fn poll(self) -> EngineView {
        EngineView { event: EngineEvent::Nothing, ..self }
    }

    /// `event` took the place of the waiting command.
    pub open spec fn trigger(self, event: EngineEvent) -> EngineView {
        EngineView { event, ..self }
    }

    /// The next frame is shown, the first one after the last.
    pub open spec fn next_frame(self) -> EngineView {
        EngineView {
            frame: if self.frame + 1 == self.lifecycle {
                0
            } else {
                self.frame + 1
            },
            ..self
        }
    }

    /// The current generation begins anew.
    pub open spec fn reset(self) -> EngineView {
        EngineView { frame: 0, ..self }
    }

    /// Whether the last frame of the generation is shown.
    pub open spec fn is_last_frame(self) -> bool {
        self.frame == self.lifecycle - 1
    }

    /// The pacing rule. A running engine always moves on to the next frame. A
    /// paused one moves on until the generation has played to its last frame,
    /// and holds there.
    pub open spec fn advance_frame(self) -> EngineView {
        if self.running || !self.is_last_frame() {
            self.next_frame()
        } else {
            self
        }
    }

    /// A generation spans the number of frames within the bounds that is
    /// nearest to `wanted`; a frame beyond the new last frame becomes that
    /// last frame.
    pub open spec fn set_lifecycle(self, wanted: int) -> EngineView {
        let lifecycle = Self::clamp(wanted);
        EngineView {
            lifecycle,
            frame: if self.frame < lifecycle {
                self.frame
            } else {
                (lifecycle - 1) as nat
            },
            ..self
        }
    }

    /// The pacing rule applied `count` times over.
    pub open spec fn advance_frames(self, count: nat) -> EngineView
        decreases count,
    {
        if count == 0 {
            self
        } else {
            self.advance_frame().advance_frames((count - 1) as nat)
        }
    }

    /// Whether a step paints the cell `picked` under the pointer: a gesture
    /// is under way, the pointer is over a cell, and that cell is not the one
    /// painted last. Cells are remembered by the 32 low bits of their column
    /// and row.
    pub open spec fn paints(self, picked: Option<(usize, usize)>) -> bool {
        &&& self.drawing
        &&& picked matches Some(cell)
        &&& !self.just_drawn(cell.0 as i32 as int, cell.1 as i32 as int)
    }

    /// The first part of a step: the cell under the pointer is painted and
    /// remembered, if `paints` says so.
    pub open spec fn paint(self, picked: Option<(usize, usize)>) -> EngineView {
        if self.paints(picked) {
            let cell = picked->Some_0;
            self.draw(cell.0 as i32 as int, cell.1 as i32 as int)
        } else {
            self
        }
    }

    /// The second part of a step: the waiting command is taken, and if there
    /// was one the generation begins anew.
    pub open spec fn command(self) -> EngineView {
        if self.event == EngineEvent::Nothing {
            self
        } else {
            self.poll().reset()
        }
    }

    /// One step of the engine while `picked` is under the pointer: paint,
    /// carry out the waiting command, advance the frame.
    pub open spec fn step(self, picked: Option<(usize, usize)>) -> EngineView {
        self.paint(picked).command().advance_frame()
    }
}

/// The universe after the first part of a step of `engine`: the cell under
/// the pointer is toggled if the step paints.
pub open spec fn painted(engine: EngineView, grid: Grid, picked: Option<(usize, usize)>) -> Grid {
    if engine.paints(picked) {
        let cell = picked->Some_0;
        grid.toggle(grid.index(cell.0 as int, cell.1 as int))
    } else {
        grid
    }
}

/// The universe after the second part of a step of `engine`: the waiting
/// command is carried out on the painted universe, a randomization with
/// `coins` deciding cell by cell.
pub open spec fn commanded(
    engine: EngineView,
    grid: Grid,
    picked: Option<(usize, usize)>,
    coins: Seq<bool>,
) -> Grid {
    match engine.event {
        EngineEvent::Randomize => painted(engine, grid, picked).populate(coins),
        EngineEvent::Clear => painted(engine, grid, picked).clear(),
        EngineEvent::Nothing => painted(engine, grid, picked),
    }
}

/// The universe after a whole step of `engine`: painted, commanded, and
/// advanced by one generation if the step ends on the first frame.
pub open spec fn stepped(
    engine: EngineView,
    grid: Grid,
    picked: Option<(usize, usize)>,
    coins: Seq<bool>,
) -> Grid {
    if engine.step(picked).frame == 0 {
        commanded(engine, grid, picked, coins).step()
    } else {
        commanded(engine, grid, picked, coins)
    }
}

/// The pacing and interaction state of the animation.
pub struct Engine {
    state: EngineState,
    draw: Draw,
    event: EngineEvent,
    mouse: Mouse,
    frame: u32,
    lifecycle: u32,
}

impl View for Engine {
    type V = EngineView;

    closed spec fn view(&self) -> EngineView {
        EngineView {
            running: self.state == EngineState::Running,
            drawing: self.draw.state == EngineDrawState::Drawing,
            drawn: match self.draw.last {
                Some(cell) => Some((cell.0 as int, cell.1 as int)),
                None => None,
            },
            event: self.event,
            mouse: self.mouse@,
            frame: self.frame as nat,
            lifecycle: self.lifecycle as nat,
        }
    }
}

impl Engine {
    /// What holds of every engine: the lifecycle lies within its bounds and
    /// the frame within the lifecycle.
    #[verifier::type_invariant]
    pub open spec fn wf(&self) -> bool {
        self@.wf()
    }

    /// A fresh engine whose generations span `lifecycle` frames, or as near
    /// to that as the bounds allow.
    pub fn new(lifecycle: u32) -> (engine: Engine)
        ensures
            engine.wf(),
            engine@ == EngineView::initial(lifecycle as int),
    {
        Engine {
            state: EngineState::Running,
            draw: Draw { last: None, state: EngineDrawState::Idle },
            event: EngineEvent::Nothing,
            mouse: Mouse { x: 0, y: 0 },
            frame: 0,
            lifecycle: clamp(lifecycle as i64),
        }
    }

    /// The number of frames that one generation spans.
    pub fn lifecycle(&self) -> (lifecycle: u32)
        ensures
            lifecycle == self@.lifecycle,
    {
        self.lifecycle
    }

    /// Records where the pointer is.
    pub fn set_mouse(&mut self, mx: u16, my: u16)
        ensures
            final(self)@ == old(self)@.set_mouse(mx as int, my as int),
    {
        proof {
            use_type_invariant(&*self);
        }
        self.mouse = Mouse { x: mx, y: my };
    }

    /// Whether a paint gesture is under way.
    pub fn is_drawing(&self) -> (drawing: bool)
        ensures
            drawing == self@.drawing,
    {
        self.draw.state == EngineDrawState::Drawing
    }

    /// Begins a paint gesture.
    pub fn start_drawing(&mut self)
        ensures
            final(self)@ == old(self)@.start_drawing(),
    {
        proof {
            use_type_invariant(&*self);
        }
        self.draw.state = EngineDrawState::Drawing;
    }

    /// Ends the paint gesture and forgets the cell it painted last, so that
    /// the next gesture may paint that cell again.
    pub fn stop_drawing(&mut self)
        ensures
            final(self)@ == old(self)@.stop_drawing(),
    {
        proof {
            use_type_invariant(&*self);
        }
        self.draw.last = None;
        self.draw.state = EngineDrawState::Idle;
    }

    /// Whether the cell in column `cx` of row `cy` is the one painted last.
    /// Only that one cell is remembered; on a fresh engine and after a
    /// gesture has ended, none is.
    pub fn just_drawn(&self, cx: i32, cy: i32) -> (just_drawn: bool)
        ensures
            just_drawn == self@.just_drawn(cx as int, cy as int),
            just_drawn == (self@.drawn == Some((cx as int, cy as int))),
    {
        match self.draw.last {
            Some((column, row)) => column == cx && row == cy,
            None => false,
        }
    }

    /// Remembers the cell in column `cx` of row `cy` as the one painted last.
    pub fn draw(&mut self, cx: i32, cy: i32)
        ensures
            final(self)@ == old(self)@.draw(cx as int, cy as int),
    {
        proof {
            use_type_invariant(&*self);
        }
        self.draw.last = Some((cx, cy));
    }

    /// Pauses a running engine and resumes a paused one.
    pub fn startstop(&mut self)
        ensures
            final(self)@ == old(self)@.startstop(),
    {
        proof {
            use_type_invariant(&*self);
        }
        self.state = match self.state {
            EngineState::Running => EngineState::Stopped,
            EngineState::Stopped => EngineState::Running,
        };
    }

    /// Whether generations follow one another.
    pub fn is_running(&self) -> (running: bool)
        ensures
            running == self@.running,
    {
        self.state == EngineState::Running
    }

    /// Whether the last frame of the generation is shown.
    pub fn is_last_frame(&self) -> (last: bool)
        ensures
            last == self@.is_last_frame(),
    {
        proof {
            use_type_invariant(&*self);
        }
        self.frame == self.lifecycle - 1
    }

    /// Whether the first frame of a generation is shown: after an advance,
    /// the sign that the universe is due its next generation.
    pub fn is_first_frame(&self) -> (first: bool)
        ensures
            first == (self@.frame == 0),
    {
        self.frame == 0
    }

    /// The frame of the current generation that is shown.
    pub fn frame(&self) -> (frame: u32)
        ensures
            frame == self@.frame,
    {
        self.frame
    }

    /// Takes the waiting command: returns it, and leaves none waiting.
    pub fn poll(&mut self) -> (event: EngineEvent)
        ensures
            event == old(self)@.event,
            final(self)@ == old(self)@.poll(),
    {
        proof {
            use_type_invariant(&*self);
        }
        let event = self.event;
        self.event = EngineEvent::Nothing;
        event
    }

    /// Leaves `event` waiting. A command that was still waiting is dropped:
    /// there is room for one.
    pub fn trigger(&mut self, event: EngineEvent)
        ensures
            final(self)@ == old(self)@.trigger(event),
    {
        proof {
            use_type_invariant(&*self);
        }
        self.event = event;
    }

    /// Shows the next frame, the first one after the last.
    pub fn next_frame(&mut self)
        ensures
            final(self)@ == old(self)@.next_frame(),
    {
        proof {
            use_type_invariant(&*self);
            lemma_frames_go_round(self@);
        }
        self.frame = (self.frame + 1) % self.lifecycle;
    }

    /// Applies the pacing rule: a running engine shows the next frame; a
    /// paused one does so until the last frame of the generation is shown,
    /// and then holds.
    pub fn advance_frame(&mut self)
        ensures
            final(self)@ == old(self)@.advance_frame(),
    {
        proof {
            use_type_invariant(&*self);
        }
        if self.is_running() || !self.is_last_frame() {
            self.next_frame();
        }
    }

    /// Makes a generation span `lifecycle` frames, or as near to that as the
    /// bounds allow. A frame beyond the new last frame becomes that last
    /// frame.
    pub fn set_lifecycle(&mut self, lifecycle: u32)
        ensures
            final(self)@ == old(self)@.set_lifecycle(lifecycle as int),
    {
        proof {
            use_type_invariant(&*self);
        }
        let lifecycle = clamp(lifecycle as i64);
        if self.frame >= lifecycle {
            self.frame = lifecycle - 1;
        }
        self.lifecycle = lifecycle;
    }

    /// Lengthens or shortens the generation by `delta` frames, within the
    /// bounds. A frame beyond the new last frame becomes that last frame.
    pub fn change_lifecycle(&mut self, delta: i32)
        ensures
            final(self)@ == old(self)@.set_lifecycle(old(self)@.lifecycle + delta),
    {
        proof {
            use_type_invariant(&*self);
        }
        let lifecycle = clamp(self.lifecycle as i64 + delta as i64);
        if self.frame >= lifecycle {
            self.frame = lifecycle - 1;
        }
        self.lifecycle = lifecycle;
    }

    /// Plays one visual frame. `picked` is the cell under the pointer, if
    /// there is one. In this order: a paint gesture under way toggles that
    /// cell, unless it is the cell painted last; the attributes of all cells
    /// are written to `per_instance`; the waiting command is carried out, and
    /// the generation then begins anew; the frame advances by the pacing
    /// rule; and if that has led to the first frame, the universe moves on to
    /// its next generation.
    ///
    /// A randomization draws its coins from `rng`, so the universe that comes
    /// out of it is known only up to those coins.
    pub fn step(
        &mut self,
        universe: &mut Universe,
        picked: Option<(usize, usize)>,
        per_instance: &mut Vec<CellAttr>,
        rng: &mut StdRng,
    )
        requires
            old(per_instance).len() >= old(universe)@.size(),
            picked matches Some(cell) ==> (old(self)@.paints(picked) ==> old(universe)@.index(
                cell.0 as int,
                cell.1 as int,
            ) < old(universe)@.size()),
        ensures
            final(self)@ == old(self)@.step(picked),
            final(per_instance)@ == attributes(
                old(per_instance)@,
                painted(old(self)@, old(universe)@, picked),
                old(self)@.paint(picked),
            ),
            exists|coins: Seq<bool>|
                coins.len() == old(universe)@.size() && final(universe)@ == #[trigger] stepped(
                    old(self)@,
                    old(universe)@,
                    picked,
                    coins,
                ),
    {
        proof {
            use_type_invariant(&*self);
            use_type_invariant(&*universe);
        }
        if self.is_drawing() {
            if let Some((cx, cy)) = picked {
                let column = #[verifier::truncate] (cx as i32);
                let row = #[verifier::truncate] (cy as i32);
                if !self.just_drawn(column, row) {
                    universe.toggle(cx, cy);
                    self.draw(column, row);
                }
            }
        }

        update_dynamic_attributes(per_instance, universe, self);

        let ghost coins = Seq::new(universe@.size(), |i: int| false);
        match self.poll() {
            EngineEvent::Randomize => {
                universe.rand(rng);
                proof {
                    use_type_invariant(&*universe);
                    coins = universe@.alive;
                }
                self.reset();
            },
            EngineEvent::Clear => {
                universe.clear();
                self.reset();
            },
            EngineEvent::Nothing => {},
        }

        self.advance_frame();

        if self.is_first_frame() {
            universe.step();
        }
        assert(universe@ == stepped(old(self)@, old(universe)@, picked, coins));
    }

    /// Begins the current generation anew.
    pub fn reset(&mut self)
        ensures
            final(self)@ == old(self)@.reset(),
    {
        proof {
            use_type_invariant(&*self);
        }
        self.frame = 0;
    }

    /// Where the pointer is.
    pub fn mouse(&self) -> (mouse: &Mouse)
        ensures
            mouse@ == self@.mouse,
    {
        &self.mouse
    }
}

/// Whatever lifecycle is asked for, the one that is set lies within the
/// bounds, and the frame shown lies within the lifecycle.
pub proof fn lemma_lifecycle_stays_in_bounds(engine: EngineView, wanted: int)
    ensures
        SHORTEST_LIFECYCLE <= engine.set_lifecycle(wanted).lifecycle <= LONGEST_LIFECYCLE,
        engine.set_lifecycle(wanted).frame < engine.set_lifecycle(wanted).lifecycle,
        engine.set_lifecycle(wanted).wf(),
        SHORTEST_LIFECYCLE <= wanted <= LONGEST_LIFECYCLE ==> {
            engine.set_lifecycle(wanted).lifecycle == wanted
        },
        EngineView::initial(wanted).wf(),
{
}

/// The memory of a paint gesture is empty on a fresh engine and after the
/// gesture has ended: no cell counts as painted last, so the next gesture
/// paints whichever cell it touches first. Ending a gesture changes nothing
/// else of the engine.
pub proof fn lemma_ended_gesture_is_forgotten(
    engine: EngineView,
    lifecycle: int,
    cx: int,
    cy: int,
    cell: (usize, usize),
)
    ensures
        !EngineView::initial(lifecycle).just_drawn(cx, cy),
        !engine.stop_drawing().just_drawn(cx, cy),
        !engine.stop_drawing().drawing,
        engine.stop_drawing().start_drawing().paints(Some(cell)),
        EngineView::initial(lifecycle).start_drawing().paints(Some(cell)),
        engine.stop_drawing() == (EngineView { drawing: false, drawn: None, ..engine }),
        engine.draw(cx, cy).just_drawn(cx, cy),
{
}

/// The frames of a generation go round: the next frame is the one after the
/// current one, counted modulo the lifecycle.
pub proof fn lemma_frames_go_round(engine: EngineView)
    requires
        engine.wf(),
    ensures
        engine.next_frame().frame == (engine.frame + 1) % engine.lifecycle,
        engine.next_frame().wf(),
{
    if engine.frame + 1 == engine.lifecycle {
        vstd::arithmetic::div_mod::lemma_mod_self_0(engine.lifecycle as int);
    } else {
        vstd::arithmetic::div_mod::lemma_small_mod(engine.frame + 1, engine.lifecycle);
    }
}

/// The mailbox holds one command, and the newest wins: of two commands
/// triggered one after the other, the first poll returns the second, and a
/// second poll finds nothing.
pub proof fn lemma_mailbox_keeps_the_newest(
    engine: EngineView,
    first: EngineEvent,
    second: EngineEvent,
)
    ensures
        engine.trigger(first).trigger(second).event == second,
        engine.trigger(first).trigger(second) == engine.trigger(second),
        engine.trigger(first).trigger(second).poll().event == EngineEvent::Nothing,
        engine.trigger(first).trigger(second).poll() == engine.poll(),
{
}

/// A paused engine plays the current generation to its end and holds there:
/// after `count` advances it shows the frame `count` frames on, or the last
/// frame of the generation if that comes first. Nothing else changes.
pub proof fn lemma_pause_finishes_the_generation(engine: EngineView, count: nat)
    requires
        engine.wf(),
        !engine.running,
    ensures
        engine.advance_frames(count) == (EngineView {
            frame: if engine.frame + count < engine.lifecycle {
                engine.frame + count
            } else {
                (engine.lifecycle - 1) as nat
            },
            ..engine
        }),
    decreases count,
{
    if count > 0 {
        lemma_pause_finishes_the_generation(engine.advance_frame(), (count - 1) as nat);
    }
}

/// A running engine shows the frames of a generation in turn and begins the
/// next generation after the last: the frame shown is first exactly after an
/// advance from the last frame.
pub proof fn lemma_generation_begins_after_the_last_frame(engine: EngineView)
    requires
        engine.wf(),
        engine.running,
    ensures
        engine.advance_frame().wf(),
        engine.advance_frame().frame == 0 <==> engine.is_last_frame(),
        !engine.is_last_frame() ==> engine.advance_frame().frame == engine.frame + 1,
{
}

/// A step that carries out a command restarts the generation and does not
/// move the universe on: after the step the second frame of the fresh
/// generation is due, and the universe is as the command left it.
pub proof fn lemma_command_restarts_the_generation(
    engine: EngineView,
    grid: Grid,
    picked: Option<(usize, usize)>,
    coins: Seq<bool>,
)
    requires
        engine.wf(),
        engine.event != EngineEvent::Nothing,
    ensures
        engine.step(picked).frame == 1,
        engine.step(picked).event == EngineEvent::Nothing,
        stepped(engine, grid, picked, coins) == commanded(engine, grid, picked, coins),
{
}

/// The lifecycle nearest to `wanted` that lies within the bounds.
fn clamp(wanted: i64) -> (lifecycle: u32)
    ensures
        lifecycle == EngineView::clamp(wanted as int),
{
    if wanted < SHORTEST_LIFECYCLE as i64 {
        SHORTEST_LIFECYCLE
    } else if wanted > LONGEST_LIFECYCLE as i64 {
        LONGEST_LIFECYCLE
    } else {
        wanted as u32
    }
}

} // verus!
