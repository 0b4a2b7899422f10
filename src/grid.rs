use vstd::prelude::*;

use vstd::arithmetic::div_mod::{lemma_div_pos_is_pos, lemma_fundamental_div_mod};

use crate::cell::{all_walls, opposite_of, Cell, Direction};

verus! {

/// What a grid is, seen as mathematics: its size and the walls of each cell,
/// row by row from the top-left corner.
pub struct GridView {
    pub width: nat,
    pub height: nat,
    pub cells: Seq<Set<Direction>>,
}

/// The coordinates one step from `(x, y)` towards side `d`; `y` grows downwards.
pub open spec fn step(x: int, y: int, d: Direction) -> (int, int) {
    match d {
        Direction::North => (x, y - 1),
        Direction::South => (x, y + 1),
        Direction::East => (x + 1, y),
        Direction::West => (x - 1, y),
    }
}

impl GridView {
    /// One cell for each coordinate pair.
    pub open spec fn wf(self) -> bool {
        self.cells.len() == self.width * self.height
    }

    pub open spec fn in_bounds(self, x: int, y: int) -> bool {
        0 <= x < self.width && 0 <= y < self.height
    }

    /// Where cell `(x, y)` stands in the row-major order.
    pub open spec fn index(self, x: int, y: int) -> int {
        y * self.width + x
    }

    /// The walls of cell `(x, y)`.
    pub open spec fn walls(self, x: int, y: int) -> Set<Direction> {
        self.cells[self.index(x, y)]
    }

    /// The cell next to `(x, y)` on side `d`, where there is one.
    pub open spec fn neighbor(self, x: int, y: int, d: Direction) -> Option<(int, int)> {
        let n = step(x, y, d);
        if self.in_bounds(n.0, n.1) {
            Some(n)
        } else {
            None
        }
    }

    /// The grid with the wall on side `d` of `(x, y)` cleared, together with
    /// the facing wall of the neighbour on that side, where there is one.
    pub open spec fn carve(self, x: int, y: int, d: Direction) -> GridView {
        let here = self.cells.update(self.index(x, y), self.walls(x, y).remove(d));
        match self.neighbor(x, y, d) {
            Some(n) => GridView {
                cells: here.update(
                    self.index(n.0, n.1),
                    here[self.index(n.0, n.1)].remove(opposite_of(d)),
                ),
                ..self
            },
            None => GridView { cells: here, ..self },
        }
    }

    /// The grid with a wall put on side `d` of `(x, y)` alone.
    pub open spec fn add_wall(self, x: int, y: int, d: Direction) -> GridView {
        GridView { cells: self.cells.update(self.index(x, y), self.walls(x, y).insert(d)), ..self }
    }

    /// No cell is open on all four sides.
    pub open spec fn is_valid(self) -> bool {
        forall|i: int| 0 <= i < self.cells.len() ==> self.cells[i] != Set::<Direction>::empty()
    }
}

/// Why a grid operation was refused.
#[derive(Clone, Copy, Debug, PartialEq, Eq, Structural)]
pub enum GridError {
    /// The coordinates lie outside the grid.
    OutOfBounds { x: usize, y: usize },
}

/// A rectangle of cells addressed by column and row.
pub struct Grid {
    width: usize,
    height: usize,
    cells: Vec<Cell>,
}

/// Cell `(x, y)` of a `w` by `h` grid lies inside the cells, and no other
/// cell of the grid shares its place.
pub proof fn lemma_index(w: nat, h: nat, x: int, y: int)
    requires
        0 <= x < w,
        0 <= y < h,
    ensures
        0 <= y * w + x < w * h,
        forall|x2: int, y2: int|
            0 <= x2 < w && 0 <= y2 < h && (x2 != x || y2 != y) ==> #[trigger] (y2 * w + x2) != y * w
                + x,
{
    assert(0 <= y * w + x < w * h) by (nonlinear_arith)
        requires
            0 <= x < w,
            0 <= y < h,
    ;
    assert forall|x2: int, y2: int|
        0 <= x2 < w && 0 <= y2 < h && (x2 != x || y2 != y) implies #[trigger] (y2 * w + x2) != y * w
            + x by {
        if y2 < y {
            assert(y2 * w + x2 < y * w + x) by (nonlinear_arith)
                requires
                    y2 < y,
                    0 <= x2 < w,
                    0 <= x,
            ;
        } else if y2 > y {
            assert(y2 * w + x2 > y * w + x) by (nonlinear_arith)
                requires
                    y2 > y,
                    0 <= x < w,
                    0 <= x2,
            ;
        }
    }
}

/// Every place `i` among the cells of a `w` by `h` grid is the place of the
/// cell `(i % w, i / w)`.
pub proof fn lemma_coords(w: nat, h: nat, i: int)
    requires
        0 <= i < w * h,
    ensures
        0 <= i % (w as int) < w,
        0 <= i / (w as int) < h,
        (i / (w as int)) * w + i % (w as int) == i,
{
    let wi = w as int;
    assert(wi > 0) by (nonlinear_arith)
        requires
            0 <= i < w * h,
            wi == w,
            h >= 0,
    ;
    lemma_fundamental_div_mod(i, wi);
    lemma_div_pos_is_pos(i, wi);
    let y = i / wi;
    let x = i % wi;
    assert(wi * y == y * wi) by (nonlinear_arith);
    if y >= h {
        assert(y * wi >= h * wi) by (nonlinear_arith)
            requires
                y >= h,
                wi > 0,
        ;
        assert(false);
    }
}

impl View for Grid {
    type V = GridView;

    closed spec fn view(&self) -> GridView {
        GridView {
            width: self.width as nat,
            height: self.height as nat,
            cells: self.cells@.map_values(|c: Cell| c@),
        }
    }
}

impl Grid {
    /// A `width` by `height` grid whose cells are all fully walled. A zero
    /// width or height is accepted and gives a grid without cells.
    pub fn new(width: usize, height: usize) -> (r: Grid)
        requires
            width * height <= usize::MAX,
        ensures
            r@.wf(),
            r@.width == width,
            r@.height == height,
            forall|i: int| 0 <= i < r@.cells.len() ==> #[trigger] r@.cells[i] == all_walls(),
    {
        let n: usize = width * height;
        let mut cells: Vec<Cell> = Vec::new();
        let mut i: usize = 0;
        while i < n
            invariant
                i <= n,
                cells@.len() == i,
                forall|k: int| 0 <= k < i ==> #[trigger] cells@[k]@ == all_walls(),
            decreases n - i,
        {
            cells.push(Cell::new());
            i = i + 1;
        }
        Grid { width, height, cells }
    }

    pub fn width(&self) -> (r: usize)
        ensures
            r == self@.width,
    {
        self.width
    }

    pub fn height(&self) -> (r: usize)
        ensures
            r == self@.height,
    {
        self.height
    }

    /// Every cell, row by row from the top-left corner.
    pub fn cells(&self) -> (r: &[Cell])
        ensures
            r@.map_values(|c: Cell| c@) == self@.cells,
    {
        self.cells.as_slice()
    }

    /// Where in-bounds cell `(x, y)` stands in the cells.
    fn index_of(&self, x: usize, y: usize) -> (i: usize)
        requires
            self@.wf(),
            self@.in_bounds(x as int, y as int),
        ensures
            i == self@.index(x as int, y as int),
            i < self.cells@.len(),
    {
        let n = self.cells.len();
        proof {
            lemma_index(self.width as nat, self.height as nat, x as int, y as int);
        }
        let i = y * self.width + x;
        assert(i < n);
        i
    }

    /// The cell at `(x, y)`, which must lie in the grid.
    pub fn cell(&self, x: usize, y: usize) -> (r: Cell)
        requires
            self@.wf(),
            self@.in_bounds(x as int, y as int),
        ensures
            r@ == self@.walls(x as int, y as int),
    {
        self.cells[self.index_of(x, y)]
    }

    /// The neighbour of in-bounds `(x, y)` on side `d`, where there is one.
    fn neighbor(&self, x: usize, y: usize, d: Direction) -> (r: Option<(usize, usize)>)
        requires
            self@.wf(),
            self@.in_bounds(x as int, y as int),
        ensures
            match r {
                Some(n) => self@.neighbor(x as int, y as int, d) == Some((n.0 as int, n.1 as int)),
                None => self@.neighbor(x as int, y as int, d) is None,
            },
    {
        match d {
            Direction::North => if y > 0 {
                Some((x, y - 1))
            } else {
                None
            },
            Direction::South => if y + 1 < self.height {
                Some((x, y + 1))
            } else {
                None
            },
            Direction::East => if x + 1 < self.width {
                Some((x + 1, y))
            } else {
                None
            },
            Direction::West => if x > 0 {
                Some((x - 1, y))
            } else {
                None
            },
        }
    }

    /// Clears the wall on side `d` of in-bounds cell `(x, y)`.
    fn clear_wall(&mut self, x: usize, y: usize, d: Direction)
        requires
            old(self)@.wf(),
            old(self)@.in_bounds(x as int, y as int),
        ensures
            final(self)@.wf(),
            final(self)@ == (GridView {
                cells: old(self)@.cells.update(
                    old(self)@.index(x as int, y as int),
                    old(self)@.walls(x as int, y as int).remove(d),
                ),
                ..old(self)@
            }),
    {
        let i = self.index_of(x, y);
        let mut c = self.cells[i];
        c.remove(d);
        self.cells.set(i, c);
        assert(self@.cells =~= old(self)@.cells.update(i as int, old(self)@.cells[i as int].remove(d)));
    }

    /// Opens side `d` of cell `pos`, and the facing side of its neighbour there
    /// if it has one. Out of bounds, the grid is left as it was.
    pub fn carve_passage(&mut self, pos: (usize, usize), d: Direction) -> (r: Result<(), GridError>)
        requires
            old(self)@.wf(),
        ensures
            final(self)@.wf(),
            old(self)@.in_bounds(pos.0 as int, pos.1 as int) ==> r == Ok::<(), GridError>(())
                && final(self)@ == old(self)@.carve(pos.0 as int, pos.1 as int, d),
            !old(self)@.in_bounds(pos.0 as int, pos.1 as int) ==> r == Err::<(), GridError>(
                GridError::OutOfBounds { x: pos.0, y: pos.1 },
            ) && final(self)@ == old(self)@,
    {
        let (x, y) = pos;
        if x >= self.width || y >= self.height {
            return Err(GridError::OutOfBounds { x, y });
        }
        let n = self.neighbor(x, y, d);
        self.clear_wall(x, y, d);
        match n {
            Some((nx, ny)) => {
                self.clear_wall(nx, ny, d.opposite());
            },
            None => {},
        }
        Ok(())
    }

    /// Puts a wall on side `d` of cell `pos` alone, without touching its
    /// neighbour. Out of bounds, the grid is left as it was.
    pub fn add_wall(&mut self, pos: (usize, usize), d: Direction) -> (r: Result<(), GridError>)
        requires
            old(self)@.wf(),
        ensures
            final(self)@.wf(),
            old(self)@.in_bounds(pos.0 as int, pos.1 as int) ==> r == Ok::<(), GridError>(())
                && final(self)@ == old(self)@.add_wall(pos.0 as int, pos.1 as int, d),
            !old(self)@.in_bounds(pos.0 as int, pos.1 as int) ==> r == Err::<(), GridError>(
                GridError::OutOfBounds { x: pos.0, y: pos.1 },
            ) && final(self)@ == old(self)@,
    {
        let (x, y) = pos;
        if x >= self.width || y >= self.height {
            return Err(GridError::OutOfBounds { x, y });
        }
        let i = self.index_of(x, y);
        let mut c = self.cells[i];
        c.insert(d);
        self.cells.set(i, c);
        assert(self@.cells =~= old(self)@.cells.update(i as int, old(self)@.cells[i as int].insert(d)));
        Ok(())
    }
}

} // verus!
