use vstd::prelude::*;

use crate::cell::Direction;
use crate::grid::{Grid, GridView};

verus! {

/// Character `k` of the top border's rule for a grid `w` cells wide: a run of
/// underscores over every cell, and a blank above the right edge.
pub open spec fn top_char(w: nat, k: int) -> char {
    if k == 2 * w - 1 {
        ' '
    } else {
        '_'
    }
}

/// The top border, newline included.
pub open spec fn top_line(w: nat) -> Seq<char> {
    seq![' '] + Seq::new(2 * w, |k: int| top_char(w, k)) + seq!['\n']
}

/// The left edge of row `y`: a bar where its first cell has a west wall.
pub open spec fn west_char(g: GridView, y: int) -> char {
    if g.width > 0 && g.walls(0, y).contains(Direction::West) {
        '|'
    } else {
        ' '
    }
}

/// The floor of cell `(x, y)`: an underscore where it has a south wall.
pub open spec fn floor_char(g: GridView, x: int, y: int) -> char {
    if g.walls(x, y).contains(Direction::South) {
        '_'
    } else {
        ' '
    }
}

/// What stands right of cell `(x, y)`: a bar where it has an east wall; else
/// an underscore where it and its east neighbour both have a south wall.
pub open spec fn side_char(g: GridView, x: int, y: int) -> char {
    if g.walls(x, y).contains(Direction::East) {
        '|'
    } else if x + 1 < g.width && g.walls(x, y).contains(Direction::South) && g.walls(
        x + 1,
        y,
    ).contains(Direction::South) {
        '_'
    } else {
        ' '
    }
}

/// Character `k` after the left edge of row `y`: floor and side of each cell
/// in turn.
pub open spec fn cell_char(g: GridView, y: int, k: int) -> char {
    if k % 2 == 0 {
        floor_char(g, k / 2, y)
    } else {
        side_char(g, k / 2, y)
    }
}

/// The line drawn for row `y`, newline included.
pub open spec fn row_line(g: GridView, y: int) -> Seq<char> {
    seq![west_char(g, y)] + Seq::new(2 * g.width, |k: int| cell_char(g, y, k)) + seq!['\n']
}

/// The lines of the first `n` rows.
pub open spec fn rows(g: GridView, n: nat) -> Seq<char>
    decreases n,
{
    if n == 0 {
        Seq::empty()
    } else {
        rows(g, (n - 1) as nat) + row_line(g, n - 1)
    }
}

/// The picture of a grid: the top border, then one line for each row.
pub open spec fn rendering(g: GridView) -> Seq<char> {
    top_line(g.width) + rows(g, g.height)
}

/// Rendering reads nothing but the grid's walls: two grids with the same
/// walls draw the same picture, however often they are drawn.
pub proof fn lemma_rendering_depends_on_walls_alone(a: &Grid, b: &Grid)
    requires
        a@ == b@,
    ensures
        rendering(a@) == rendering(b@),
{
}

/// The picture is a rectangle: one line for the top border and one for each
/// row, every line `2 * width + 2` characters long, newline included.
pub proof fn lemma_rendering_is_rectangular(g: GridView)
    ensures
        top_line(g.width).len() == 2 * g.width + 2,
        forall|y: int| #[trigger] row_line(g, y).len() == 2 * g.width + 2,
        rendering(g).len() == (g.height + 1) * (2 * g.width + 2),
{
    lemma_rows_len(g, g.height);
    assert((g.height + 1) * (2 * g.width + 2) == (2 * g.width + 2) + g.height * (2 * g.width + 2))
        by (nonlinear_arith);
}

proof fn lemma_rows_len(g: GridView, n: nat)
    ensures
        rows(g, n).len() == n * (2 * g.width + 2),
    decreases n,
{
    if n == 0 {
        assert(rows(g, n).len() == 0);
    } else {
        lemma_rows_len(g, (n - 1) as nat);
        assert(rows(g, n) == rows(g, (n - 1) as nat) + row_line(g, n - 1));
        assert(n * (2 * g.width + 2) == (n - 1) * (2 * g.width + 2) + (2 * g.width + 2))
            by (nonlinear_arith);
    }
}

/// Appends one of the characters that a picture is made of.
fn append_char(s: &mut String, c: char)
    requires
        c == ' ' || c == '_' || c == '|' || c == '\n',
    ensures
        final(s)@ == old(s)@.push(c),
{
    proof {
        reveal_strlit(" ");
        reveal_strlit("_");
        reveal_strlit("|");
        reveal_strlit("\n");
    }
    if c == '_' {
        s.append("_");
    } else if c == '|' {
        s.append("|");
    } else if c == '\n' {
        s.append("\n");
    } else {
        s.append(" ");
    }
}

impl Grid {
    fn west_char(&self, y: usize) -> (r: char)
        requires
            self@.wf(),
            y < self@.height,
        ensures
            r == west_char(self@, y as int),
    {
        if self.width() > 0 && self.cell(0, y).contains(Direction::West) {
            '|'
        } else {
            ' '
        }
    }

    fn floor_char(&self, x: usize, y: usize) -> (r: char)
        requires
            self@.wf(),
            self@.in_bounds(x as int, y as int),
        ensures
            r == floor_char(self@, x as int, y as int),
    {
        if self.cell(x, y).contains(Direction::South) {
            '_'
        } else {
            ' '
        }
    }

    fn side_char(&self, x: usize, y: usize) -> (r: char)
        requires
            self@.wf(),
            self@.in_bounds(x as int, y as int),
        ensures
            r == side_char(self@, x as int, y as int),
    {
        let w = self.width();
        let c = self.cell(x, y);
        if c.contains(Direction::East) {
            '|'
        } else if x + 1 < w && c.contains(Direction::South) && self.cell(
            x + 1,
            y,
        ).contains(Direction::South) {
            '_'
        } else {
            ' '
        }
    }

    /// Draws the grid in ASCII: underscores for floors, bars for side walls,
    /// blanks where a wall is open.
    pub fn render(&self) -> (r: String)
        requires
            self@.wf(),
        ensures
            r@ == rendering(self@),
    {
        let w = self.width();
        let h = self.height();
        let ghost g = self@;
        let mut s = String::new();
        append_char(&mut s, ' ');
        let mut i: usize = 0;
        while i < w
            invariant
                g == self@,
                w == g.width,
                i <= w,
                s@ == seq![' '] + Seq::new(2 * i as nat, |k: int| top_char(g.width, k)),
            decreases w - i,
        {
            let ghost before = s@;
            append_char(&mut s, '_');
            if i + 1 < w {
                append_char(&mut s, '_');
            } else {
                append_char(&mut s, ' ');
            }
            assert(Seq::new(2 * (i + 1) as nat, |k: int| top_char(g.width, k)) =~= Seq::new(
                2 * i as nat,
                |k: int| top_char(g.width, k),
            ).push(top_char(g.width, 2 * i)).push(top_char(g.width, 2 * i + 1)));
            i = i + 1;
        }
        append_char(&mut s, '\n');
        assert(s@ =~= top_line(g.width));
        let mut y: usize = 0;
        while y < h
            invariant
                g == self@,
                g.wf(),
                w == g.width,
                h == g.height,
                y <= h,
                s@ == top_line(g.width) + rows(g, y as nat),
            decreases h - y,
        {
            let mut line = String::new();
            append_char(&mut line, self.west_char(y));
            let mut x: usize = 0;
            while x < w
                invariant
                    g == self@,
                    g.wf(),
                    w == g.width,
                    h == g.height,
                    y < h,
                    x <= w,
                    line@ == seq![west_char(g, y as int)] + Seq::new(
                        2 * x as nat,
                        |k: int| cell_char(g, y as int, k),
                    ),
                decreases w - x,
            {
                append_char(&mut line, self.floor_char(x, y));
                append_char(&mut line, self.side_char(x, y));
                assert(Seq::new(2 * (x + 1) as nat, |k: int| cell_char(g, y as int, k)) =~= Seq::new(
                    2 * x as nat,
                    |k: int| cell_char(g, y as int, k),
                ).push(cell_char(g, y as int, 2 * x)).push(cell_char(g, y as int, 2 * x + 1)));
                x = x + 1;
            }
            append_char(&mut line, '\n');
            assert(line@ =~= row_line(g, y as int));
            s.append(line.as_str());
            assert(s@ =~= top_line(g.width) + rows(g, (y + 1) as nat));
            y = y + 1;
        }
        s
    }
}

} // verus!
