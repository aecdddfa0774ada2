//! The play field: its bounds, the four headings and one step of movement.
use vstd::prelude::*;
use vstd::set_lib::{lemma_int_range, lemma_len_subset, set_int_range};

verus! {

/// Number of columns of the play field.
pub const WIDTH: i32 = 40;

/// Number of rows of the play field.
pub const HEIGHT: i32 = 30;

/// A cell of the play field: column first, then row. Row 0 is the top row.
pub type Cell = (i32, i32);

/// The cell lies on the play field.
pub open spec fn in_field(c: Cell) -> bool {
    0 <= c.0 < WIDTH && 0 <= c.1 < HEIGHT
}

/// Position of a cell in row-major order: row by row from the top, left to right.
pub open spec fn rank(c: Cell) -> int {
    c.1 * WIDTH + c.0
}

/// A direction of travel.
#[derive(Clone, Copy, PartialEq, Eq, Structural, Debug)]
pub enum Direction {
    Right,
    Left,
    Up,
    Down,
}

/// The heading that points the other way.
pub open spec fn reverse_of(d: Direction) -> Direction {
    match d {
        Direction::Right => Direction::Left,
        Direction::Left => Direction::Right,
        Direction::Up => Direction::Down,
        Direction::Down => Direction::Up,
    }
}

/// The cell one step away from `c` in direction `d`.
pub open spec fn step(c: Cell, d: Direction) -> Cell {
    match d {
        Direction::Right => ((c.0 + 1) as i32, c.1),
        Direction::Left => ((c.0 - 1) as i32, c.1),
        Direction::Up => (c.0, (c.1 - 1) as i32),
        Direction::Down => (c.0, (c.1 + 1) as i32),
    }
}

impl Direction {
    /// The heading that points the other way.
    pub fn reverse(self) -> (r: Direction)
        ensures
            r == reverse_of(self),
    {
        match self {
            Direction::Right => Direction::Left,
            Direction::Left => Direction::Right,
            Direction::Up => Direction::Down,
            Direction::Down => Direction::Up,
        }
    }
}

/// The cell one step away from a cell of the field.
pub fn next_cell(c: Cell, d: Direction) -> (r: Cell)
    requires
        in_field(c),
    ensures
        r == step(c, d),
{
    match d {
        Direction::Right => (c.0 + 1, c.1),
        Direction::Left => (c.0 - 1, c.1),
        Direction::Up => (c.0, c.1 - 1),
        Direction::Down => (c.0, c.1 + 1),
    }
}

/// The cell lies off the play field.
pub fn hits_wall(c: Cell) -> (r: bool)
    ensures
        r == !in_field(c),
{
    c.0 < 0 || c.0 >= WIDTH || c.1 < 0 || c.1 >= HEIGHT
}

/// Distinct cells of the field number at most `WIDTH * HEIGHT`.
pub proof fn lemma_distinct_cells_fit(cells: Seq<Cell>)
    requires
        cells.no_duplicates(),
        forall|i: int| 0 <= i < cells.len() ==> in_field(#[trigger] cells[i]),
    ensures
        cells.len() <= WIDTH * HEIGHT,
{
    let ranks = cells.map_values(|c: Cell| rank(c));
    assert forall|i: int, j: int|
        0 <= i < ranks.len() && 0 <= j < ranks.len() && i != j implies ranks[i] != ranks[j] by {
        assert(in_field(cells[i]) && in_field(cells[j]));
        assert(cells[i] != cells[j]);
    }
    let all = set_int_range(0, WIDTH * HEIGHT);
    lemma_int_range(0, WIDTH * HEIGHT);
    assert forall|r: int| ranks.to_set().contains(r) implies all.contains(r) by {
        let i = choose|i: int| 0 <= i < ranks.len() && ranks[i] == r;
        assert(in_field(cells[i]));
    }
    lemma_len_subset(ranks.to_set(), all);
    ranks.unique_seq_to_set();
}

} // verus!
