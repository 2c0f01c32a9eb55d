//! What a renderer needs from the simulation: for every cell the attributes
//! that drive its drawing, and the cell that lies under a point of the plane.

use vstd::prelude::*;

use crate::engine::Engine;
use crate::engine::EngineView;
use crate::universe::lemma_index_in_range;
use crate::universe::Grid;
use crate::universe::Universe;

verus! {

/// A part of a whole, from nothing (`part == 0`) to all of it
/// (`part == whole`).
#[derive(Clone, Copy, Debug, PartialEq, Eq, Structural)]
pub struct Fraction {
    pub part: u32,
    pub whole: u32,
}

impl Fraction {
    /// A fraction has something to be a part of, and is no more than that.
    pub open spec fn wf(self) -> bool {
        0 < self.whole && self.part <= self.whole
    }

    /// All of the whole.
    pub open spec fn full() -> Fraction {
        (Fraction { part: 1, whole: 1 })
    }
}

/// How one cell is drawn: alive or dead, and how far its transition from the
/// previous state has come.
#[derive(Clone, Copy, Debug, PartialEq, Eq, Structural)]
pub struct CellAttr {
    pub alive: bool,
    pub tick: Fraction,
}

/// How every cell is drawn before the first step: alive, its transition
/// complete.
pub open spec fn initial_attributes(grid: Grid) -> Seq<CellAttr> {
    Seq::new(grid.size(), |i: int| (CellAttr { alive: true, tick: Fraction::full() }))
}

/// How the cell at row-major position `i` of `grid` is drawn while `engine`
/// paces the animation. A cell that changed in the current generation is as
/// far into its transition as the generation is into its frames; any other
/// cell has completed its transition.
pub open spec fn attribute(grid: Grid, engine: EngineView, i: int) -> CellAttr {
    CellAttr {
        alive: grid.alive[i],
        tick: if grid.changed[i] {
            (Fraction { part: engine.frame as u32, whole: (engine.lifecycle - 1) as u32 })
        } else {
            Fraction::full()
        },
    }
}

/// `before` with the attributes of the cells of `grid` written over its
/// beginning.
pub open spec fn attributes(before: Seq<CellAttr>, grid: Grid, engine: EngineView) -> Seq<
    CellAttr,
> {
    Seq::new(
        before.len(),
        |i: int|
            if i < grid.size() {
                attribute(grid, engine, i)
            } else {
                before[i]
            },
    )
}

/// The cell with the plane coordinates `gx` and `gy`, if the grid has one
/// there.
pub open spec fn cell_at(grid: Grid, gx: int, gy: int) -> Option<(usize, usize)> {
    if 0 <= gx < grid.width && 0 <= gy < grid.height {
        Some((gx as usize, gy as usize))
    } else {
        None
    }
}

/// The attributes that every cell of `universe` is drawn with before the
/// first step.
pub fn init_dynamic_attributes(universe: &Universe) -> (data: Vec<CellAttr>)
    ensures
        data@ == initial_attributes(universe@),
{
    let size = universe.size();
    let mut data: Vec<CellAttr> = Vec::new();
    while data.len() < size
        invariant
            size == universe@.size(),
            data.len() <= size,
            forall|k: int|
                0 <= k < data.len() ==> #[trigger] data@[k] == (CellAttr {
                    alive: true,
                    tick: Fraction::full(),
                }),
        decreases size - data.len(),
    {
        data.push(CellAttr { alive: true, tick: Fraction { part: 1, whole: 1 } });
    }
    assert(data@ =~= initial_attributes(universe@));
    data
}

/// Writes the attributes of every cell of `universe` over the beginning of
/// `per_instance`, one cell after the other in row-major order.
pub fn update_dynamic_attributes(
    per_instance: &mut Vec<CellAttr>,
    universe: &Universe,
    engine: &Engine,
)
    requires
        old(per_instance).len() >= universe@.size(),
    ensures
        final(per_instance)@ == attributes(old(per_instance)@, universe@, engine@),
        forall|i: int| 0 <= i < universe@.size() ==> (#[trigger] final(per_instance)@[i]).tick.wf(),
{
    proof {
        use_type_invariant(universe);
        use_type_invariant(engine);
    }
    let size = universe.size();
    let frame = engine.frame();
    let last = engine.lifecycle() - 1;
    let mut id: usize = 0;
    while id < size
        invariant
            universe.wf(),
            size == universe@.size(),
            frame == engine@.frame,
            last == engine@.lifecycle - 1,
            0 < last,
            frame <= last,
            id <= size,
            per_instance.len() == old(per_instance).len(),
            per_instance.len() >= size,
            forall|k: int|
                0 <= k < id ==> #[trigger] per_instance@[k] == attribute(universe@, engine@, k),
            forall|k: int|
                id <= k < per_instance.len() ==> #[trigger] per_instance@[k] == old(
                    per_instance,
                )@[k],
        decreases size - id,
    {
        let tick = if universe.has_changed(id) {
            Fraction { part: frame, whole: last }
        } else {
            Fraction { part: 1, whole: 1 }
        };
        per_instance.set(id, CellAttr { alive: universe.is_alive(id), tick });
        id += 1;
    }
    assert(per_instance@ =~= attributes(old(per_instance)@, universe@, engine@));
}

/// The cell of `universe` with the plane coordinates `gx` and `gy`, if there
/// is one: a point beside the grid is over no cell.
pub fn pick_cell(gx: i64, gy: i64, universe: &Universe) -> (picked: Option<(usize, usize)>)
    ensures
        picked == cell_at(universe@, gx as int, gy as int),
        picked matches Some(cell) ==> universe@.index(cell.0 as int, cell.1 as int)
            < universe@.size(),
{
    proof {
        use_type_invariant(universe);
        if 0 <= gx < universe@.width && 0 <= gy < universe@.height {
            lemma_index_in_range(universe@, gx as int, gy as int);
        }
    }
    let (width, height) = universe.dimensions();
    if gx >= 0 && gy >= 0 && (gx as u64) < width as u64 && (gy as u64) < height as u64 {
        Some((gx as usize, gy as usize))
    } else {
        None
    }
}

} // verus!
