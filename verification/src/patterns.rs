//! Well-known patterns of the game, and what the rule makes of them.

use vstd::arithmetic::div_mod::lemma_fundamental_div_mod_converse;
use vstd::arithmetic::div_mod::lemma_small_mod;
use vstd::prelude::*;

use crate::universe::lemma_index_in_range;
use crate::universe::lemma_index_inverse;
use crate::universe::lemma_still_life;
use crate::universe::Grid;

verus! {

/// Whether the cell in column `x` of row `y` belongs to the blinker that lies
/// across: the three cells of row 2 in columns 1 to 3.
pub open spec fn blinker_across(x: int, y: int) -> bool {
    y == 2 && 1 <= x <= 3
}

/// Whether the cell in column `x` of row `y` belongs to the blinker that
/// stands upright: the three cells of column 2 in rows 1 to 3.
pub open spec fn blinker_upright(x: int, y: int) -> bool {
    x == 2 && 1 <= y <= 3
}

/// Whether the cell in column `x` of row `y` belongs to the block: the four
/// cells of columns 1 and 2 in rows 1 and 2.
pub open spec fn block(x: int, y: int) -> bool {
    1 <= x <= 2 && 1 <= y <= 2
}

/// Whether exactly the cells of `grid` that `pattern` names are alive.
pub open spec fn shows(grid: Grid, pattern: spec_fn(int, int) -> bool) -> bool {
    forall|x: int, y: int|
        #![trigger grid.cell(x, y)]
        0 <= x < grid.width && 0 <= y < grid.height ==> grid.cell(x, y) == pattern(x, y)
}

/// The column or row reached from `coord` by the `k`-th offset on an axis of
/// `extent` cells: the one before, the same, the one after, the axis joining
/// its end to its beginning.
pub open spec fn shifted(coord: int, k: int, extent: nat) -> int {
    if k == 0 {
        if coord == 0 {
            extent - 1
        } else {
            coord - 1
        }
    } else if k == 1 {
        coord
    } else {
        if coord == extent - 1 {
            0
        } else {
            coord + 1
        }
    }
}

/// Adding an offset and reducing by the extent leads to the cell before, the
/// same cell or the cell after.
proof fn lemma_shifted(coord: int, k: int, extent: nat)
    requires
        0 <= coord < extent,
        0 <= k < 3,
    ensures
        (coord + Grid::offset(k, extent)) % (extent as int) == shifted(coord, k, extent),
        0 <= shifted(coord, k, extent) < extent,
{
    let e = extent as int;
    if k == 0 {
        if coord == 0 {
            lemma_small_mod((e - 1) as nat, extent);
        } else {
            lemma_fundamental_div_mod_converse(coord + e - 1, e, 1, coord - 1);
        }
    } else if k == 1 {
        lemma_small_mod(coord as nat, extent);
    } else {
        if coord == e - 1 {
            lemma_fundamental_div_mod_converse(coord + 1, e, 1, 0);
        } else {
            lemma_small_mod((coord + 1) as nat, extent);
        }
    }
}

/// In a grid that shows a pattern, what a neighbour adds to the count is read
/// off the pattern at the neighbour's column and row.
proof fn lemma_neighbour_of_shown(
    grid: Grid,
    pattern: spec_fn(int, int) -> bool,
    x: int,
    y: int,
    i: int,
    j: int,
)
    requires
        grid.wf(),
        shows(grid, pattern),
        0 <= x < grid.width,
        0 <= y < grid.height,
        0 <= i < 3,
        0 <= j < 3,
    ensures
        grid.neighbour(x, y, i, j) == if Grid::offset(i, grid.width) == 0
            && Grid::offset(j, grid.height) == 0 {
            0
        } else {
            named(grid, pattern, x, y, i, j)
        },
{
    let cx = shifted(x, i, grid.width);
    let cy = shifted(y, j, grid.height);
    lemma_shifted(x, i, grid.width);
    lemma_shifted(y, j, grid.height);
    assert(grid.cell(cx, cy) == pattern(cx, cy));
}

/// One if `pattern` names the cell reached from column `x` of row `y` by the
/// `i`-th offset across and the `j`-th offset down, zero if not.
spec fn named(grid: Grid, pattern: spec_fn(int, int) -> bool, x: int, y: int, i: int, j: int) -> nat {
    if pattern(shifted(x, i, grid.width), shifted(y, j, grid.height)) {
        1
    } else {
        0
    }
}

/// In a grid that shows a pattern and is two or more cells wide and high, the
/// neighbour count of a cell is read off the pattern at the eight cells
/// around it.
proof fn lemma_neighbours_of_shown(grid: Grid, pattern: spec_fn(int, int) -> bool, x: int, y: int)
    requires
        grid.wf(),
        grid.width >= 2,
        grid.height >= 2,
        shows(grid, pattern),
        0 <= x < grid.width,
        0 <= y < grid.height,
    ensures
        grid.neighbours(x, y) == named(grid, pattern, x, y, 0, 0) + named(grid, pattern, x, y, 0, 1)
            + named(grid, pattern, x, y, 0, 2) + named(grid, pattern, x, y, 1, 0)
            + named(grid, pattern, x, y, 1, 2) + named(grid, pattern, x, y, 2, 0)
            + named(grid, pattern, x, y, 2, 1) + named(grid, pattern, x, y, 2, 2),
{
    lemma_neighbour_of_shown(grid, pattern, x, y, 0, 0);
    lemma_neighbour_of_shown(grid, pattern, x, y, 0, 1);
    lemma_neighbour_of_shown(grid, pattern, x, y, 0, 2);
    lemma_neighbour_of_shown(grid, pattern, x, y, 1, 0);
    lemma_neighbour_of_shown(grid, pattern, x, y, 1, 1);
    lemma_neighbour_of_shown(grid, pattern, x, y, 1, 2);
    lemma_neighbour_of_shown(grid, pattern, x, y, 2, 0);
    lemma_neighbour_of_shown(grid, pattern, x, y, 2, 1);
    lemma_neighbour_of_shown(grid, pattern, x, y, 2, 2);
}

/// The next generation of a grid that shows `before` shows `after`, if the
/// rule makes of every cell of `before` and its neighbours what `after` says.
proof fn lemma_step_of_shown(
    grid: Grid,
    before: spec_fn(int, int) -> bool,
    after: spec_fn(int, int) -> bool,
)
    requires
        grid.wf(),
        shows(grid, before),
        forall|x: int, y: int|
            #![trigger grid.neighbours(x, y)]
            0 <= x < grid.width && 0 <= y < grid.height ==> Grid::fate(
                before(x, y),
                grid.neighbours(x, y),
            ) == after(x, y),
    ensures
        shows(grid.step(), after),
{
    let next = grid.step();
    assert forall|x: int, y: int|
        #![trigger next.cell(x, y)]
        0 <= x < grid.width && 0 <= y < grid.height implies next.cell(x, y) == after(x, y) by {
        lemma_index_in_range(grid, x, y);
        lemma_fundamental_div_mod_converse(grid.index(x, y), grid.width as int, y, x);
        assert(grid.cell(x, y) == before(x, y));
        assert(next.cell(x, y) == grid.next_alive(grid.index(x, y)));
    }
}

/// Two grids of the same dimensions that show the same pattern have the same
/// cells alive.
proof fn lemma_shown_alike(first: Grid, second: Grid, pattern: spec_fn(int, int) -> bool)
    requires
        first.wf(),
        second.wf(),
        first.width == second.width,
        first.height == second.height,
        shows(first, pattern),
        shows(second, pattern),
    ensures
        first.alive == second.alive,
{
    assert forall|i: int| 0 <= i < first.size() implies first.alive[i] == second.alive[i] by {
        lemma_index_inverse(first, i);
        let x = i % (first.width as int);
        let y = i / (first.width as int);
        assert(first.cell(x, y) == pattern(x, y));
        assert(second.cell(x, y) == pattern(x, y));
    }
    assert(first.alive =~= second.alive);
}

/// The blinker has period two. On a grid at least five cells wide and five
/// cells high, the three live cells of row 2 in columns 1 to 3 become the
/// three live cells of column 2 in rows 1 to 3 in the next generation, and
/// are back in the generation after that.
pub proof fn lemma_blinker_oscillates(grid: Grid)
    requires
        grid.wf(),
        grid.width >= 5,
        grid.height >= 5,
        forall|x: int, y: int|
            0 <= x < grid.width && 0 <= y < grid.height ==> #[trigger] grid.cell(x, y)
                == blinker_across(x, y),
    ensures
        forall|x: int, y: int|
            0 <= x < grid.width && 0 <= y < grid.height ==> #[trigger] grid.step().cell(x, y)
                == blinker_upright(x, y),
        grid.step().step().alive == grid.alive,
{
    let across = |x: int, y: int| blinker_across(x, y);
    let upright = |x: int, y: int| blinker_upright(x, y);
    assert(shows(grid, across));

    assert forall|x: int, y: int|
        #![trigger grid.neighbours(x, y)]
        0 <= x < grid.width && 0 <= y < grid.height implies Grid::fate(
        across(x, y),
        grid.neighbours(x, y),
    ) == upright(x, y) by {
        lemma_neighbours_of_shown(grid, across, x, y);
    }
    lemma_step_of_shown(grid, across, upright);

    let next = grid.step();
    assert forall|x: int, y: int|
        #![trigger next.neighbours(x, y)]
        0 <= x < next.width && 0 <= y < next.height implies Grid::fate(
        upright(x, y),
        next.neighbours(x, y),
    ) == across(x, y) by {
        lemma_neighbours_of_shown(next, upright, x, y);
    }
    lemma_step_of_shown(next, upright, across);
    lemma_shown_alike(next.step(), grid, across);

    assert forall|x: int, y: int|
        #![trigger grid.step().cell(x, y)]
        0 <= x < grid.width && 0 <= y < grid.height implies grid.step().cell(x, y)
        == blinker_upright(x, y) by {
        assert(next.cell(x, y) == upright(x, y));
    }
}

/// The block is a still life. On a grid at least four cells wide and four
/// cells high, the four live cells of columns 1 and 2 in rows 1 and 2 are
/// the live cells of the next generation too, and none is flagged as changed.
pub proof fn lemma_block_is_still(grid: Grid)
    requires
        grid.wf(),
        grid.width >= 4,
        grid.height >= 4,
        forall|x: int, y: int|
            #![trigger grid.cell(x, y)]
            0 <= x < grid.width && 0 <= y < grid.height ==> grid.cell(x, y) == block(x, y),
    ensures
        grid.step().alive == grid.alive,
        forall|i: int| 0 <= i < grid.size() ==> !#[trigger] grid.step().changed[i],
{
    let pattern = |x: int, y: int| block(x, y);
    assert(shows(grid, pattern));
    assert forall|x: int, y: int| 0 <= x < grid.width && 0 <= y < grid.height implies {
        &&& grid.cell(x, y) ==> 2 <= #[trigger] grid.neighbours(x, y) <= 3
        &&& !grid.cell(x, y) ==> grid.neighbours(x, y) != 3
    } by {
        lemma_neighbours_of_shown(grid, pattern, x, y);
        assert(grid.cell(x, y) == pattern(x, y));
    }
    lemma_still_life(grid);
}

} // verus!
