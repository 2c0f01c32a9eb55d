//! The cell grid and the rule that advances it by one generation.

use vstd::arithmetic::div_mod::lemma_fundamental_div_mod_converse;
use vstd::arithmetic::div_mod::lemma_small_mod;
use vstd::prelude::*;

use crate::chance::gen_ratio;
use rand::rngs::StdRng;

verus! {

/// Whether a cell is populated.
#[derive(Clone, Copy, Debug, PartialEq, Eq, Structural)]
pub enum CellState {
    Dead,
    Alive,
}

/// One cell of a universe: its state, and whether that state differs from the
/// one it had before the most recent operation that changed the universe.
#[derive(Clone, Copy, Debug)]
pub struct Cell {
    state: CellState,
    changed: bool,
}

/// Why a universe could not be built.
#[derive(Clone, Copy, Debug, PartialEq, Eq, Structural)]
pub enum UniverseError {
    /// The width or the height is zero.
    Empty,
    /// The number of cells does not fit in a `usize`.
    TooLarge,
}

/// The mathematical content of a universe: its dimensions and, cell by cell in
/// row-major order, whether the cell is alive and whether it has just changed.
pub struct Grid {
    pub width: nat,
    pub height: nat,
    pub alive: Seq<bool>,
    pub changed: Seq<bool>,
}

impl Grid {
    /// A grid has at least one cell, and one entry per cell in both sequences.
    pub open spec fn wf(self) -> bool {
        &&& self.width > 0
        &&& self.height > 0
        &&& self.alive.len() == self.width * self.height
        &&& self.changed.len() == self.width * self.height
    }

    /// The number of cells.
    pub open spec fn size(self) -> nat {
        self.width * self.height
    }

    /// Row-major position of the cell in column `x` of row `y`.
    pub open spec fn index(self, x: int, y: int) -> int {
        y * self.width + x
    }

    /// Whether the cell in column `x` of row `y` is alive.
    pub open spec fn cell(self, x: int, y: int) -> bool {
        self.alive[self.index(x, y)]
    }

    /// The grid in which every cell is dead and flagged as changed.
    pub open spec fn blank(width: nat, height: nat) -> Grid {
        Grid {
            width,
            height,
            alive: Seq::new(width * height, |i: int| false),
            changed: Seq::new(width * height, |i: int| true),
        }
    }

    /// The `k`-th of the three offsets along an axis of `extent` cells: one
    /// step back, which on a torus is `extent - 1` steps forward; no step; one
    /// step forward.
    pub open spec fn offset(k: int, extent: nat) -> int {
        if k == 0 {
            extent - 1
        } else if k == 1 {
            0
        } else {
            1
        }
    }

    /// What the cell reached from column `x` of row `y` by the `i`-th offset
    /// across and the `j`-th offset down adds to the neighbour count: one if
    /// it is alive, and nothing if it is dead or if both offsets are zero.
    pub open spec fn neighbour(self, x: int, y: int, i: int, j: int) -> nat {
        let dx = Self::offset(i, self.width);
        let dy = Self::offset(j, self.height);
        if dx == 0 && dy == 0 {
            0
        } else if self.cell((x + dx) % (self.width as int), (y + dy) % (self.height as int)) {
            1
        } else {
            0
        }
    }

    /// The number of live cells around column `x` of row `y`, the grid
    /// wrapping around at its edges: the sum over the three offsets across
    /// and the three offsets down. On a grid two or more cells wide and high
    /// these are the eight cells that touch the cell; on a narrower grid an
    /// offset may lead back to the cell's own column or row.
    pub open spec fn neighbours(self, x: int, y: int) -> nat {
        self.neighbour(x, y, 0, 0) + self.neighbour(x, y, 0, 1) + self.neighbour(x, y, 0, 2)
            + self.neighbour(x, y, 1, 0) + self.neighbour(x, y, 1, 1) + self.neighbour(x, y, 1, 2)
            + self.neighbour(x, y, 2, 0) + self.neighbour(x, y, 2, 1) + self.neighbour(x, y, 2, 2)
    }

    /// One if the cell `dx` columns and `dy` rows away from column `x` of row
    /// `y` is alive, the grid wrapping around at its edges; zero if not.
    pub open spec fn around(self, x: int, y: int, dx: int, dy: int) -> nat {
        if self.cell((x + dx) % (self.width as int), (y + dy) % (self.height as int)) {
            1
        } else {
            0
        }
    }

    /// The rule of the game: a live cell stays alive with two or three live
    /// neighbours, a dead cell comes alive with exactly three.
    pub open spec fn fate(alive: bool, neighbours: nat) -> bool {
        if alive {
            neighbours == 2 || neighbours == 3
        } else {
            neighbours == 3
        }
    }

    /// Whether the cell at row-major position `i` is alive in the next
    /// generation.
    pub open spec fn next_alive(self, i: int) -> bool {
        Self::fate(
            self.alive[i],
            self.neighbours(i % (self.width as int), i / (self.width as int)),
        )
    }

    /// The next generation: every cell meets its fate at once, and is flagged
    /// as changed exactly if its state is no longer what it was.
    pub open spec fn step(self) -> Grid {
        Grid {
            width: self.width,
            height: self.height,
            alive: Seq::new(self.alive.len(), |i: int| self.next_alive(i)),
            changed: Seq::new(self.alive.len(), |i: int| self.next_alive(i) != self.alive[i]),
        }
    }

    /// The grid with the cell at row-major position `i` flipped and flagged as
    /// changed.
    pub open spec fn toggle(self, i: int) -> Grid {
        Grid {
            width: self.width,
            height: self.height,
            alive: self.alive.update(i, !self.alive[i]),
            changed: self.changed.update(i, true),
        }
    }

    /// The grid with every cell dead, the cells that were alive flagged as
    /// changed.
    pub open spec fn clear(self) -> Grid {
        Grid {
            width: self.width,
            height: self.height,
            alive: Seq::new(self.alive.len(), |i: int| false),
            changed: self.alive,
        }
    }

    /// The grid whose cells are alive as `alive` says, each flagged as changed
    /// exactly if that is not what it was.
    pub open spec fn populate(self, alive: Seq<bool>) -> Grid {
        Grid {
            width: self.width,
            height: self.height,
            alive,
            changed: Seq::new(alive.len(), |i: int| alive[i] != self.alive[i]),
        }
    }

    /// How a cell is drawn in text.
    pub open spec fn glyph(alive: bool) -> char {
        if alive {
            '\u{25FC}'
        } else {
            ' '
        }
    }

    /// The glyphs of the first `columns` cells of row `y`.
    pub open spec fn row(self, y: int, columns: nat) -> Seq<char> {
        Seq::new(columns, |x: int| Self::glyph(self.cell(x, y)))
    }

    /// The first `rows` rows as text, each row closed by a line feed.
    pub open spec fn rows(self, rows: nat) -> Seq<char>
        decreases rows,
    {
        if rows == 0 {
            Seq::empty()
        } else {
            self.rows((rows - 1) as nat) + self.row(rows - 1, self.width).push('\n')
        }
    }

    /// The whole grid as text: one line per row, one glyph per cell.
    pub open spec fn render(self) -> Seq<char> {
        self.rows(self.height)
    }

    /// The first `k` of the nine terms of `neighbours`, summed.
    spec fn counted(self, x: int, y: int, k: int) -> nat {
        (if k > 0 { self.neighbour(x, y, 0, 0) } else { 0 })
            + (if k > 1 { self.neighbour(x, y, 0, 1) } else { 0 })
            + (if k > 2 { self.neighbour(x, y, 0, 2) } else { 0 })
            + (if k > 3 { self.neighbour(x, y, 1, 0) } else { 0 })
            + (if k > 4 { self.neighbour(x, y, 1, 1) } else { 0 })
            + (if k > 5 { self.neighbour(x, y, 1, 2) } else { 0 })
            + (if k > 6 { self.neighbour(x, y, 2, 0) } else { 0 })
            + (if k > 7 { self.neighbour(x, y, 2, 1) } else { 0 })
            + (if k > 8 { self.neighbour(x, y, 2, 2) } else { 0 })
    }
}

/// A toroidal grid of cells.
pub struct Universe {
    width: usize,
    height: usize,
    cells: Vec<Cell>,
}

impl View for Universe {
    type V = Grid;

    closed spec fn view(&self) -> Grid {
        Grid {
            width: self.width as nat,
            height: self.height as nat,
            alive: Seq::new(self.cells@.len(), |i: int| self.cells@[i].state == CellState::Alive),
            changed: Seq::new(self.cells@.len(), |i: int| self.cells@[i].changed),
        }
    }
}

impl Universe {
    /// What holds of every universe: the grid is well-formed and its cells
    /// can be counted.
    #[verifier::type_invariant]
    pub open spec fn wf(&self) -> bool {
        &&& self@.wf()
        &&& self@.size() <= usize::MAX
    }

    /// Builds a universe of `width` by `height` dead cells, each flagged as
    /// changed. A universe without cells is refused, and so is one with more
    /// cells than can be counted.
    pub fn new(width: usize, height: usize) -> (result: Result<Universe, UniverseError>)
        ensures
            match result {
                Ok(universe) => {
                    universe@ == Grid::blank(width as nat, height as nat)
                },
                Err(UniverseError::Empty) => width == 0 || height == 0,
                Err(UniverseError::TooLarge) => {
                    &&& width > 0
                    &&& height > 0
                    &&& width * height > usize::MAX
                },
            },
            result is Ok <==> width > 0 && height > 0 && width * height <= usize::MAX,
    {
        if width == 0 || height == 0 {
            return Err(UniverseError::Empty);
        }
        match width.checked_mul(height) {
            None => Err(UniverseError::TooLarge),
            Some(size) => {
                let cells = vec![Cell { state: CellState::Dead, changed: true }; size];
                let universe = Universe { width, height, cells };
                assert(universe@.alive =~= Grid::blank(width as nat, height as nat).alive);
                assert(universe@.changed =~= Grid::blank(width as nat, height as nat).changed);
                Ok(universe)
            },
        }
    }

    /// The number of columns.
    pub fn width(&self) -> (width: usize)
        ensures
            width == self@.width,
    {
        self.width
    }

    /// The number of rows.
    pub fn height(&self) -> (height: usize)
        ensures
            height == self@.height,
    {
        self.height
    }

    /// The number of cells.
    pub fn size(&self) -> (size: usize)
        ensures
            size == self@.size(),
    {
        proof {
            use_type_invariant(&*self);
        }
        self.width * self.height
    }

    /// Row-major position of the cell in column `cx` of row `cy`. A cell
    /// inside the grid has a position below the number of cells.
    pub fn index(&self, cx: usize, cy: usize) -> (index: usize)
        requires
            self@.index(cx as int, cy as int) <= usize::MAX,
        ensures
            index == self@.index(cx as int, cy as int),
            cx < self@.width && cy < self@.height ==> index < self@.size(),
    {
        proof {
            use_type_invariant(&*self);
            if cx < self.width && cy < self.height {
                lemma_index_in_range(self@, cx as int, cy as int);
            }
        }
        assert(cy * self.width <= cy * self.width + cx);
        cy * self.width + cx
    }

    /// Whether the cell at `index` is alive.
    pub fn is_alive(&self, index: usize) -> (alive: bool)
        requires
            index < self@.size(),
        ensures
            alive == self@.alive[index as int],
    {
        proof {
            use_type_invariant(&*self);
        }
        if let CellState::Alive = self.cells[index].state {
            return true;
        }
        false
    }

    /// Whether the most recent change to the universe changed the cell at
    /// `index`.
    pub fn has_changed(&self, index: usize) -> (changed: bool)
        requires
            index < self@.size(),
        ensures
            changed == self@.changed[index as int],
    {
        proof {
            use_type_invariant(&*self);
        }
        self.cells[index].changed
    }

    /// The number of live cells around column `x` of row `y`, the grid
    /// wrapping around at its edges.
    pub fn neighbours(&self, x: usize, y: usize) -> (count: u8)
        requires
            x < self@.width,
            y < self@.height,
        ensures
            count == self@.neighbours(x as int, y as int),
    {
        proof {
            use_type_invariant(&*self);
        }
        let mut count: u8 = 0;
        let mut i: usize = 0;
        while i < 3
            invariant
                self.wf(),
                x < self@.width,
                y < self@.height,
                i <= 3,
                count <= 3 * i,
                count == self@.counted(x as int, y as int, 3 * i),
            decreases 3 - i,
        {
            let nx = offset(i, self.width);
            let mut j: usize = 0;
            while j < 3
                invariant
                    self.wf(),
                    x < self@.width,
                    y < self@.height,
                    i < 3,
                    j <= 3,
                    nx == Grid::offset(i as int, self@.width),
                    count <= 3 * i + j,
                    count == self@.counted(x as int, y as int, 3 * i + j),
                decreases 3 - j,
            {
                let ny = offset(j, self.height);
                if !(nx == 0 && ny == 0) {
                    let cx = wrap(x, nx, self.width);
                    let cy = wrap(y, ny, self.height);
                    proof {
                        lemma_index_in_range(self@, cx as int, cy as int);
                    }
                    if self.is_alive(self.index(cx, cy)) {
                        count += 1;
                    }
                }
                j += 1;
            }
            i += 1;
        }
        count
    }

    /// Advances the universe by one generation. Every cell is judged by the
    /// generation that is replaced, never by a neighbour's new state.
    pub fn step(&mut self)
        ensures
            final(self)@ == old(self)@.step(),
    {
        proof {
            use_type_invariant(&*self);
        }
        let mut next = self.cells.clone();
        let mut y: usize = 0;
        while y < self.height
            invariant
                *self == *old(self),
                self.wf(),
                y <= self.height,
                next.len() == self.cells.len(),
                forall|k: int|
                    0 <= k < y * self.width ==> {
                        &&& (#[trigger] next@[k]).state == CellState::Alive <==> self@.next_alive(k)
                        &&& next@[k].changed == (self@.next_alive(k) != self@.alive[k])
                    },
            decreases self.height - y,
        {
            let mut x: usize = 0;
            while x < self.width
                invariant
                    *self == *old(self),
                    self.wf(),
                    y < self.height,
                    x <= self.width,
                    next.len() == self.cells.len(),
                    forall|k: int|
                        0 <= k < y * self.width + x ==> {
                            &&& (#[trigger] next@[k]).state == CellState::Alive
                                <==> self@.next_alive(k)
                            &&& next@[k].changed == (self@.next_alive(k) != self@.alive[k])
                        },
                decreases self.width - x,
            {
                proof {
                    lemma_index_in_range(self@, x as int, y as int);
                    lemma_fundamental_div_mod_converse(
                        y * self.width + x,
                        self.width as int,
                        y as int,
                        x as int,
                    );
                }
                let idx = self.index(x, y);
                let actual = self.cells[idx];
                let around = self.neighbours(x, y);
                let cellstate = match actual.state {
                    CellState::Alive => {
                        if around == 2 || around == 3 {
                            CellState::Alive
                        } else {
                            CellState::Dead
                        }
                    },
                    CellState::Dead => {
                        if around == 3 {
                            CellState::Alive
                        } else {
                            CellState::Dead
                        }
                    },
                };
                next.set(idx, Cell { state: cellstate, changed: actual.state != cellstate });
                x += 1;
            }
            assert(y * self.width + self.width == (y + 1) * self.width) by (nonlinear_arith);
            y += 1;
        }
        assert(y * self.width == self.width * y) by (nonlinear_arith);
        self.cells = next;
        assert(self@.alive =~= old(self)@.step().alive);
        assert(self@.changed =~= old(self)@.step().changed);
    }

    /// Flips the cell in column `x` of row `y` and flags it as changed.
    pub fn toggle(&mut self, x: usize, y: usize)
        requires
            old(self)@.index(x as int, y as int) < old(self)@.size(),
        ensures
            final(self)@ == old(self)@.toggle(old(self)@.index(x as int, y as int)),
    {
        proof {
            use_type_invariant(&*self);
        }
        let index = self.index(x, y);
        let state = match self.cells[index].state {
            CellState::Dead => CellState::Alive,
            CellState::Alive => CellState::Dead,
        };
        self.cells[index] = Cell { state, changed: true };
        assert(self@.alive =~= old(self)@.toggle(index as int).alive);
        assert(self@.changed =~= old(self)@.toggle(index as int).changed);
    }

    /// Repopulates the universe: the cell at each position is alive exactly if
    /// `alive` says so at that position, and flagged as changed exactly if
    /// that is new.
    pub fn populate(&mut self, alive: &[bool])
        requires
            alive@.len() == old(self)@.size(),
        ensures
            final(self)@ == old(self)@.populate(alive@),
    {
        proof {
            use_type_invariant(&*self);
        }
        let mut cells: Vec<Cell> = Vec::new();
        let mut i: usize = 0;
        while i < alive.len()
            invariant
                *self == *old(self),
                self.wf(),
                alive@.len() == self.cells.len(),
                i <= alive@.len(),
                cells.len() == i,
                forall|k: int|
                    0 <= k < i ==> {
                        &&& (#[trigger] cells@[k]).state == CellState::Alive <==> alive@[k]
                        &&& cells@[k].changed == (alive@[k] != self@.alive[k])
                    },
            decreases alive@.len() - i,
        {
            let state = if alive[i] {
                CellState::Alive
            } else {
                CellState::Dead
            };
            cells.push(Cell { state, changed: self.cells[i].state != state });
            i += 1;
        }
        self.cells = cells;
        assert(self@.alive =~= old(self)@.populate(alive@).alive);
        assert(self@.changed =~= old(self)@.populate(alive@).changed);
    }

    /// Repopulates the universe at random: every cell is alive or dead by a
    /// coin drawn from `rng` with one chance in two, and flagged as changed
    /// exactly if the coin changed it.
    pub fn rand(&mut self, rng: &mut StdRng)
        ensures
            final(self)@.width == old(self)@.width,
            final(self)@.height == old(self)@.height,
            forall|i: int|
                #![trigger final(self)@.changed[i]]
                0 <= i < old(self)@.size() ==> {
                    final(self)@.changed[i] == (final(self)@.alive[i] != old(self)@.alive[i])
                },
            final(self)@ == old(self)@.populate(final(self)@.alive),
    {
        let size = self.size();
        let mut coins: Vec<bool> = Vec::new();
        while coins.len() < size
            invariant
                coins.len() <= size,
            decreases size - coins.len(),
        {
            coins.push(gen_ratio(rng, 1, 2));
        }
        self.populate(coins.as_slice());
    }

    /// Kills every cell, and flags as changed those that were alive.
    pub fn clear(&mut self)
        ensures
            final(self)@ == old(self)@.clear(),
    {
        proof {
            use_type_invariant(&*self);
        }
        let mut cells: Vec<Cell> = Vec::new();
        let mut i: usize = 0;
        while i < self.cells.len()
            invariant
                *self == *old(self),
                i <= self.cells.len(),
                cells.len() == i,
                forall|k: int|
                    0 <= k < i ==> {
                        &&& (#[trigger] cells@[k]).state == CellState::Dead
                        &&& cells@[k].changed == self@.alive[k]
                    },
            decreases self.cells.len() - i,
        {
            cells.push(
                Cell {
                    state: CellState::Dead,
                    changed: self.cells[i].state == CellState::Alive,
                },
            );
            i += 1;
        }
        self.cells = cells;
        assert(self@.alive =~= old(self)@.clear().alive);
        assert(self@.changed =~= old(self)@.clear().changed);
    }

    /// The universe as text: one line per row, a filled square for a live
    /// cell and a blank for a dead one.
    pub fn to_string(&self) -> (text: String)
        ensures
            text@ == self@.render(),
    {
        proof {
            use_type_invariant(&*self);
        }
        let mut text = String::new();
        let mut y: usize = 0;
        while y < self.height
            invariant
                self.wf(),
                y <= self.height,
                text@ == self@.rows(y as nat),
            decreases self.height - y,
        {
            let mut x: usize = 0;
            while x < self.width
                invariant
                    self.wf(),
                    y < self.height,
                    x <= self.width,
                    text@ == self@.rows(y as nat) + self@.row(y as int, x as nat),
                decreases self.width - x,
            {
                proof {
                    lemma_index_in_range(self@, x as int, y as int);
                    reveal_strlit("\u{25FC}");
                    reveal_strlit(" ");
                }
                if self.is_alive(self.index(x, y)) {
                    text.append("\u{25FC}");
                } else {
                    text.append(" ");
                }
                assert(text@ =~= self@.rows(y as nat) + self@.row(y as int, (x + 1) as nat));
                x += 1;
            }
            proof {
                reveal_strlit("\n");
            }
            text.append("\n");
            assert(text@ =~= self@.rows((y + 1) as nat));
            y += 1;
        }
        text
    }

    /// Width and height, in this order.
    pub fn dimensions(&self) -> (dimensions: (usize, usize))
        ensures
            dimensions.0 == self@.width,
            dimensions.1 == self@.height,
    {
        (self.width, self.height)
    }
}

/// The `k`-th of the three offsets along an axis of `extent` cells.
fn offset(k: usize, extent: usize) -> (offset: usize)
    requires
        extent > 0,
    ensures
        offset == Grid::offset(k as int, extent as nat),
{
    if k == 0 {
        extent - 1
    } else if k == 1 {
        0
    } else {
        1
    }
}

/// Moves `coord` forward by `offset` on an axis of `extent` cells whose end
/// joins its beginning. The sum is never formed, so it cannot overflow.
fn wrap(coord: usize, offset: usize, extent: usize) -> (wrapped: usize)
    requires
        coord < extent,
        offset <= extent,
    ensures
        wrapped == (coord + offset) % (extent as int),
        wrapped < extent,
{
    let room = extent - offset;
    if coord >= room {
        proof {
            lemma_fundamental_div_mod_converse(
                coord + offset,
                extent as int,
                1,
                coord + offset - extent,
            );
        }
        coord - room
    } else {
        proof {
            lemma_small_mod((coord + offset) as nat, extent as nat);
        }
        coord + offset
    }
}

/// A cell inside the grid has a row-major position inside the grid.
pub proof fn lemma_index_in_range(grid: Grid, x: int, y: int)
    requires
        grid.wf(),
        0 <= x < grid.width,
        0 <= y < grid.height,
    ensures
        0 <= grid.index(x, y) < grid.size(),
{
    assert(0 <= y * grid.width && (y + 1) * grid.width <= grid.height * grid.width)
        by (nonlinear_arith)
        requires
            0 <= y < grid.height,
            grid.width > 0,
    ;
    assert((y + 1) * grid.width == y * grid.width + grid.width) by (nonlinear_arith);
    assert(grid.height * grid.width == grid.width * grid.height) by (nonlinear_arith);
}

/// A cell is found again from its row-major position: the column is the
/// remainder by the width, the row the quotient.
pub proof fn lemma_index_inverse(grid: Grid, i: int)
    requires
        grid.wf(),
        0 <= i < grid.size(),
    ensures
        0 <= i % (grid.width as int) < grid.width,
        0 <= i / (grid.width as int) < grid.height,
        grid.index(i % (grid.width as int), i / (grid.width as int)) == i,
{
    let w = grid.width as int;
    let h = grid.height as int;
    vstd::arithmetic::div_mod::lemma_fundamental_div_mod(i, w);
    vstd::arithmetic::div_mod::lemma_mod_bound(i, w);
    assert(0 <= i / w < h) by (nonlinear_arith)
        requires
            0 <= i < w * h,
            w > 0,
            i == w * (i / w) + (i % w),
            0 <= i % w < w,
    ;
    assert(w * (i / w) == (i / w) * w) by (nonlinear_arith);
}

/// Every operation on a well-formed grid gives a well-formed grid of the
/// same dimensions.
pub proof fn lemma_operations_keep_wf(grid: Grid, i: int, alive: Seq<bool>)
    requires
        grid.wf(),
    ensures
        grid.step().wf(),
        grid.clear().wf(),
        0 <= i < grid.size() ==> grid.toggle(i).wf(),
        alive.len() == grid.size() ==> grid.populate(alive).wf(),
        Grid::blank(grid.width, grid.height).wf(),
{
}

/// On a grid at least two cells wide and two cells high, the neighbours of a
/// cell are the eight cells one step away from it in any direction, the grid
/// wrapping around at its edges.
pub proof fn lemma_neighbours_are_the_eight_around(grid: Grid, x: int, y: int)
    requires
        grid.wf(),
        grid.width >= 2,
        grid.height >= 2,
        0 <= x < grid.width,
        0 <= y < grid.height,
    ensures
        grid.neighbours(x, y) == grid.around(x, y, -1, -1) + grid.around(x, y, 0, -1)
            + grid.around(x, y, 1, -1) + grid.around(x, y, -1, 0) + grid.around(x, y, 1, 0)
            + grid.around(x, y, -1, 1) + grid.around(x, y, 0, 1) + grid.around(x, y, 1, 1),
        grid.neighbours(x, y) <= 8,
{
    let w = grid.width as int;
    let h = grid.height as int;
    vstd::arithmetic::div_mod::lemma_mod_add_multiples_vanish(x - 1, w);
    vstd::arithmetic::div_mod::lemma_mod_add_multiples_vanish(y - 1, h);
    assert(x + (w - 1) == w + (x - 1));
    assert(y + (h - 1) == h + (y - 1));
}

/// A still life stays as it is. If every live cell of a grid has two or three
/// live neighbours and no dead cell has exactly three, then in the next
/// generation the same cells are alive and no cell is flagged as changed.
pub proof fn lemma_still_life(grid: Grid)
    requires
        grid.wf(),
        forall|x: int, y: int|
            0 <= x < grid.width && 0 <= y < grid.height ==> {
                &&& grid.cell(x, y) ==> 2 <= #[trigger] grid.neighbours(x, y) <= 3
                &&& !grid.cell(x, y) ==> grid.neighbours(x, y) != 3
            },
    ensures
        grid.step().alive == grid.alive,
        forall|i: int| 0 <= i < grid.size() ==> !#[trigger] grid.step().changed[i],
        grid.step().step() == grid.step(),
{
    assert forall|i: int| 0 <= i < grid.size() implies grid.next_alive(i) == grid.alive[i] by {
        lemma_index_inverse(grid, i);
        let x = i % (grid.width as int);
        let y = i / (grid.width as int);
        assert(grid.cell(x, y) == grid.alive[i]);
        assert(grid.cell(x, y) ==> 2 <= grid.neighbours(x, y) <= 3);
    }
    assert(grid.step().alive =~= grid.alive);
    let next = grid.step();
    assert forall|i: int| 0 <= i < grid.size() implies next.next_alive(i) == next.alive[i] by {
        assert(next.neighbours(i % (next.width as int), i / (next.width as int))
            == grid.neighbours(i % (grid.width as int), i / (grid.width as int)));
    }
    assert(next.step().alive =~= next.alive);
    assert(next.step().changed =~= next.changed);
}

/// Toggling a cell twice restores its state, and each of the two toggles
/// flags the cell as changed. No other cell is touched.
pub proof fn lemma_toggle_twice(grid: Grid, i: int)
    requires
        grid.wf(),
        0 <= i < grid.size(),
    ensures
        grid.toggle(i).alive[i] == !grid.alive[i],
        grid.toggle(i).changed[i],
        grid.toggle(i).toggle(i).alive == grid.alive,
        grid.toggle(i).toggle(i).changed[i],
        grid.toggle(i).toggle(i).changed == grid.toggle(i).changed,
{
    assert(grid.toggle(i).toggle(i).alive =~= grid.alive);
    assert(grid.toggle(i).toggle(i).changed =~= grid.toggle(i).changed);
}

/// However a grid is repopulated, a cell is flagged as changed exactly if
/// its state is no longer what it was, and the grid keeps its dimensions.
pub proof fn lemma_populate_flags_changes(grid: Grid, alive: Seq<bool>)
    requires
        grid.wf(),
        alive.len() == grid.size(),
    ensures
        grid.populate(alive).size() == grid.size(),
        grid.populate(alive).alive == alive,
        forall|i: int|
            0 <= i < grid.size() ==> #[trigger] grid.populate(alive).changed[i] == (alive[i]
                != grid.alive[i]),
        grid.populate(alive).populate(alive).alive == alive,
        forall|i: int|
            0 <= i < grid.size() ==> !#[trigger] grid.populate(alive).populate(alive).changed[i],
{
}

} // verus!
