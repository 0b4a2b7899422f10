use vstd::prelude::*;

use crate::cell::{all_walls, lemma_all_walls_len, opposite_of, Cell, Direction};
use crate::grid::{lemma_coords, lemma_index, Grid, GridView};
use crate::render::rendering;

verus! {

/// Why saving a maze failed.
#[derive(Debug, PartialEq, Eq)]
pub enum MazeSaveError {
    /// The destination cannot be written to.
    InvalidPath(String),
    /// Writing failed on the way.
    Io(String),
}

/// Turns a grid into some representation `T`.
pub trait Formatter<T> {
    fn format(&self, grid: &Grid) -> T;
}

/// A representation that can be written to a destination.
pub trait Saveable {
    /// Writes the value to `path`; hands the path back on success.
    fn save(&self, path: &str) -> (r: Result<String, MazeSaveError>)
        ensures
            r matches Ok(p) ==> p@ == path@,
    ;
}

/// An orthogonal maze: square cells, each walled on some of its four sides.
pub struct OrthogonalMaze {
    grid: Grid,
}

impl View for OrthogonalMaze {
    type V = GridView;

    closed spec fn view(&self) -> GridView {
        self.grid@
    }
}

impl OrthogonalMaze {
    /// A `width` by `height` maze whose cells are all fully walled.
    pub fn new(width: usize, height: usize) -> (r: OrthogonalMaze)
        requires
            width * height <= usize::MAX,
        ensures
            r@.wf(),
            r@.width == width,
            r@.height == height,
            forall|i: int|
                0 <= i < r@.cells.len() ==> #[trigger] r@.cells[i] == all_walls()
                    && r@.cells[i].len() == 4,
            r@.is_valid(),
    {
        let r = OrthogonalMaze { grid: Grid::new(width, height) };
        proof {
            lemma_all_walls_len();
            assert forall|i: int| 0 <= i < r@.cells.len() implies #[trigger] r@.cells[i]
                != Set::<Direction>::empty() by {
                assert(r@.cells[i].contains(Direction::North));
            }
        }
        r
    }

    /// The maze's grid, for a carving algorithm to work on.
    pub fn get_grid_mut(&mut self) -> (r: &mut Grid)
        ensures
            r@ == old(self)@,
            final(self)@ == final(r)@,
    {
        &mut self.grid
    }

    /// Whether no cell of the maze is open on all four sides.
    pub fn is_valid(&self) -> (r: bool)
        ensures
            r == self@.is_valid(),
    {
        let cells = self.grid.cells();
        let ghost g = self@;
        let mut i: usize = 0;
        while i < cells.len()
            invariant
                g == self@,
                cells@.map_values(|c: Cell| c@) == g.cells,
                i <= cells@.len(),
                forall|k: int| 0 <= k < i ==> #[trigger] g.cells[k] != Set::<Direction>::empty(),
            decreases cells@.len() - i,
        {
            if cells[i].is_open() {
                assert(g.cells[i as int] == Set::<Direction>::empty());
                return false;
            }
            assert(g.cells[i as int] == cells@[i as int]@);
            i = i + 1;
        }
        true
    }

    /// Hands the grid to `formatter`, then writes what it made to `path`;
    /// gives the path back on success.
    pub fn save<F, T>(&self, path: &str, formatter: F) -> (r: Result<String, MazeSaveError>)
        where
            F: Formatter<T>,
            T: Saveable,
        ensures
            r matches Ok(p) ==> p@ == path@,
    {
        let data = formatter.format(&self.grid);
        data.save(path)
    }

    /// The maze drawn in ASCII, as `Grid::render` draws it.
    pub fn to_string(&self) -> (r: String)
        requires
            self@.wf(),
        ensures
            r@ == rendering(self@),
    {
        self.grid.render()
    }
}

/// Carving from an in-bounds cell towards a neighbour opens the wall on that
/// side and the facing wall of the neighbour, and changes no other wall.
pub proof fn lemma_carve_opens_both_sides(g: GridView, x: int, y: int, d: Direction)
    requires
        g.wf(),
        g.in_bounds(x, y),
        g.neighbor(x, y, d) is Some,
    ensures
        ({
            let c = g.carve(x, y, d);
            let n = g.neighbor(x, y, d)->Some_0;
            &&& c.wf()
            &&& c.width == g.width
            &&& c.height == g.height
            &&& c.walls(x, y) == g.walls(x, y).remove(d)
            &&& c.walls(n.0, n.1) == g.walls(n.0, n.1).remove(opposite_of(d))
            &&& !c.walls(x, y).contains(d)
            &&& !c.walls(n.0, n.1).contains(opposite_of(d))
            &&& forall|x2: int, y2: int|
                g.in_bounds(x2, y2) && (x2, y2) != (x, y) && (x2, y2) != n ==> #[trigger] c.walls(
                    x2,
                    y2,
                ) == g.walls(x2, y2)
        }),
{
    let n = g.neighbor(x, y, d)->Some_0;
    lemma_index(g.width, g.height, x, y);
    lemma_index(g.width, g.height, n.0, n.1);
    assert(g.index(x, y) != g.index(n.0, n.1));
    assert forall|x2: int, y2: int|
        g.in_bounds(x2, y2) && (x2, y2) != (x, y) && (x2, y2) != n implies #[trigger] g.carve(
        x,
        y,
        d,
    ).walls(x2, y2) == g.walls(x2, y2) by {
        lemma_index(g.width, g.height, x2, y2);
        assert(g.index(x2, y2) != g.index(x, y));
        assert(g.index(x2, y2) != g.index(n.0, n.1));
    }
}

/// A grid in which one cell alone is open on all four sides is invalid, and
/// putting back any one wall of that cell makes it valid again.
pub proof fn lemma_one_wall_restores_validity(g: GridView, x: int, y: int, d: Direction)
    requires
        g.wf(),
        g.in_bounds(x, y),
        g.walls(x, y) == Set::<Direction>::empty(),
        forall|x2: int, y2: int|
            g.in_bounds(x2, y2) && (x2, y2) != (x, y) ==> #[trigger] g.walls(x2, y2) != Set::<
                Direction,
            >::empty(),
    ensures
        !g.is_valid(),
        g.add_wall(x, y, d).is_valid(),
{
    lemma_index(g.width, g.height, x, y);
    let a = g.add_wall(x, y, d);
    assert forall|i: int| 0 <= i < a.cells.len() implies a.cells[i] != Set::<Direction>::empty() by {
        lemma_coords(g.width, g.height, i);
        let x2 = i % (g.width as int);
        let y2 = i / (g.width as int);
        assert(g.index(x2, y2) == i);
        if (x2, y2) == (x, y) {
            assert(a.cells[i].contains(d));
        } else {
            assert(g.walls(x2, y2) != Set::<Direction>::empty());
        }
    }
}

} // verus!
