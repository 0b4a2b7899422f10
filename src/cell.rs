use vstd::prelude::*;

verus! {

/// One of the four sides of a cell.
#[derive(Clone, Copy, Debug, PartialEq, Eq, Structural)]
pub enum Direction {
    North,
    South,
    East,
    West,
}

/// The bit that stands for a side in a cell's flag set.
pub open spec fn mask_of(d: Direction) -> u8 {
    match d {
        Direction::North => 1,
        Direction::South => 2,
        Direction::East => 4,
        Direction::West => 8,
    }
}

/// The side that faces `d` across a shared edge.
pub open spec fn opposite_of(d: Direction) -> Direction {
    match d {
        Direction::North => Direction::South,
        Direction::South => Direction::North,
        Direction::East => Direction::West,
        Direction::West => Direction::East,
    }
}

/// All four sides.
pub open spec fn all_walls() -> Set<Direction> {
    set![Direction::North, Direction::South, Direction::East, Direction::West]
}

/// There are exactly four sides.
pub proof fn lemma_all_walls_len()
    ensures
        all_walls().finite(),
        all_walls().len() == 4,
{
    let s0 = Set::<Direction>::empty();
    let s1 = s0.insert(Direction::North);
    let s2 = s1.insert(Direction::South);
    let s3 = s2.insert(Direction::East);
    assert(!s1.contains(Direction::South));
    assert(!s2.contains(Direction::East));
    assert(!s3.contains(Direction::West));
    assert(all_walls() == s3.insert(Direction::West));
}

impl Direction {
    /// The bit of this side.
    pub fn mask(self) -> (r: u8)
        ensures
            r == mask_of(self),
    {
        match self {
            Direction::North => 1,
            Direction::South => 2,
            Direction::East => 4,
            Direction::West => 8,
        }
    }

    /// The side that faces this one across a shared edge.
    pub fn opposite(self) -> (r: Direction)
        ensures
            r == opposite_of(self),
    {
        match self {
            Direction::North => Direction::South,
            Direction::South => Direction::North,
            Direction::East => Direction::West,
            Direction::West => Direction::East,
        }
    }
}

/// The walls of one cell, held as a set of flag bits.
#[derive(Clone, Copy, Debug, PartialEq, Eq, Structural)]
pub struct Cell {
    bits: u8,
}

/// Setting, clearing and testing a single flag bit.
proof fn lemma_flag_bits(b: u8, m: u8, n: u8)
    by (bit_vector)
    requires
        m == 1 || m == 2 || m == 4 || m == 8,
        n == 1 || n == 2 || n == 4 || n == 8,
    ensures
        ((b | m) & n != 0) == ((b & n != 0) || m == n),
        ((b & !m) & n != 0) == ((b & n != 0) && m != n),
        (15u8 & n) != 0,
{
}

impl View for Cell {
    type V = Set<Direction>;

    /// The sides of the cell that carry a wall.
    closed spec fn view(&self) -> Set<Direction> {
        Set::new(|d: Direction| self.bits & mask_of(d) != 0)
    }
}

impl Cell {
    /// A fully enclosed cell: a wall on every side.
    pub fn new() -> (r: Cell)
        ensures
            r@ == all_walls(),
    {
        let r = Cell { bits: 15 };
        assert forall|d: Direction| r@.contains(d) == all_walls().contains(d) by {
            lemma_flag_bits(0, 1, mask_of(d));
        }
        assert(r@ =~= all_walls());
        r
    }

    /// Whether the cell has a wall on side `d`.
    pub fn contains(&self, d: Direction) -> (r: bool)
        ensures
            r == self@.contains(d),
    {
        self.bits & d.mask() != 0
    }

    /// Clears the wall on side `d`.
    pub fn remove(&mut self, d: Direction)
        ensures
            final(self)@ == old(self)@.remove(d),
    {
        let old_bits = self.bits;
        self.bits = self.bits & !d.mask();
        assert forall|e: Direction| #[trigger] self@.contains(e) == old(self)@.remove(d).contains(e) by {
            lemma_flag_bits(old_bits, mask_of(d), mask_of(e));
        }
        assert(self@ =~= old(self)@.remove(d));
    }

    /// Puts a wall on side `d`.
    pub fn insert(&mut self, d: Direction)
        ensures
            final(self)@ == old(self)@.insert(d),
    {
        let old_bits = self.bits;
        self.bits = self.bits | d.mask();
        assert forall|e: Direction| #[trigger] self@.contains(e) == old(self)@.insert(d).contains(e) by {
            lemma_flag_bits(old_bits, mask_of(d), mask_of(e));
        }
        assert(self@ =~= old(self)@.insert(d));
    }

    /// Whether the cell has no wall at all.
    pub fn is_open(&self) -> (r: bool)
        ensures
            r == (self@ == Set::<Direction>::empty()),
    {
        let r = !(self.contains(Direction::North) || self.contains(Direction::South)
            || self.contains(Direction::East) || self.contains(Direction::West));
        if !r {
            assert(self@ != Set::<Direction>::empty());
        } else {
            assert forall|d: Direction| !self@.contains(d) by {
                match d {
                    Direction::North => {},
                    Direction::South => {},
                    Direction::East => {},
                    Direction::West => {},
                }
            }
            assert(self@ =~= Set::<Direction>::empty());
        }
        r
    }
}

} // verus!
