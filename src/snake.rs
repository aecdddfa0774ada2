//! The snake: its cells, head first, and its heading.
use std::collections::VecDeque;
use vstd::prelude::*;

use crate::grid::{hits_wall, in_field, next_cell, rank, step, Cell, Direction, HEIGHT, WIDTH};

verus! {

/// The cells that stay after a move: all of them on a growth tick, all but the tail otherwise.
pub open spec fn kept_cells(body: Seq<Cell>, grew: bool) -> Seq<Cell> {
    if grew {
        body
    } else {
        body.drop_last()
    }
}

/// The move ends the game: the new head leaves the field or lands on a cell that stays.
pub open spec fn collides(body: Seq<Cell>, dir: Direction, grew: bool) -> bool {
    let head = step(body[0], dir);
    !in_field(head) || kept_cells(body, grew).contains(head)
}

/// The cells after a move. On a collision the new head is not added.
pub open spec fn moved(body: Seq<Cell>, dir: Direction, grew: bool) -> Seq<Cell> {
    if collides(body, dir, grew) {
        kept_cells(body, grew)
    } else {
        seq![step(body[0], dir)] + kept_cells(body, grew)
    }
}

/// Some cell of the field is not covered by `body`.
pub open spec fn has_free_cell(body: Seq<Cell>) -> bool {
    exists|c: Cell| in_field(c) && !body.contains(c)
}

/// Applies moves in order; each step is a heading and whether the snake grew on that tick.
pub open spec fn moved_along(body: Seq<Cell>, steps: Seq<(Direction, bool)>) -> Seq<Cell>
    decreases steps.len(),
{
    if steps.len() == 0 {
        body
    } else {
        moved_along(moved(body, steps[0].0, steps[0].1), steps.drop_first())
    }
}

/// No move of the sequence collides.
pub open spec fn clear_along(body: Seq<Cell>, steps: Seq<(Direction, bool)>) -> bool
    decreases steps.len(),
{
    steps.len() == 0 || (!collides(body, steps[0].0, steps[0].1) && clear_along(
        moved(body, steps[0].0, steps[0].1),
        steps.drop_first(),
    ))
}

/// Number of growth ticks in a sequence of moves.
pub open spec fn growth_ticks(steps: Seq<(Direction, bool)>) -> nat
    decreases steps.len(),
{
    if steps.len() == 0 {
        0
    } else {
        (if steps[0].1 {
            1nat
        } else {
            0nat
        }) + growth_ticks(steps.drop_first())
    }
}

/// Cells that are distinct and on the field.
pub open spec fn distinct_on_field(body: Seq<Cell>) -> bool {
    &&& body.no_duplicates()
    &&& forall|i: int| 0 <= i < body.len() ==> in_field(#[trigger] body[i])
}

/// One move keeps the cells distinct and on the field; without a collision it adds
/// one cell on a growth tick and keeps the length otherwise.
pub proof fn lemma_move_keeps_cells_distinct(body: Seq<Cell>, dir: Direction, grew: bool)
    requires
        body.len() >= 1,
        distinct_on_field(body),
    ensures
        distinct_on_field(moved(body, dir, grew)),
        !collides(body, dir, grew) ==> moved(body, dir, grew).len() == body.len() + if grew {
            1int
        } else {
            0int
        },
{
    let kept = kept_cells(body, grew);
    let r = moved(body, dir, grew);
    assert forall|i: int| 0 <= i < kept.len() implies kept[i] == body[i] by {}
    if !collides(body, dir, grew) {
        let h = step(body[0], dir);
        assert forall|i: int, j: int| 0 <= i < r.len() && 0 <= j < r.len() && i != j implies r[i]
            != r[j] by {
            if i > 0 && j > 0 {
                assert(r[i] == body[i - 1] && r[j] == body[j - 1]);
            } else if i == 0 {
                assert(r[j] == kept[j - 1]);
            } else {
                assert(r[i] == kept[i - 1]);
            }
        }
        assert forall|i: int| 0 <= i < r.len() implies in_field(#[trigger] r[i]) by {
            if i > 0 {
                assert(r[i] == body[i - 1]);
            }
        }
    }
}

/// Over any sequence of moves without a collision, the cells stay distinct and on the
/// field, and the snake grows by exactly the number of growth ticks.
pub proof fn lemma_moves_keep_cells_distinct(body: Seq<Cell>, steps: Seq<(Direction, bool)>)
    requires
        body.len() >= 1,
        distinct_on_field(body),
        clear_along(body, steps),
    ensures
        distinct_on_field(moved_along(body, steps)),
        moved_along(body, steps).len() == body.len() + growth_ticks(steps),
    decreases steps.len(),
{
    if steps.len() > 0 {
        let next = moved(body, steps[0].0, steps[0].1);
        lemma_move_keeps_cells_distinct(body, steps[0].0, steps[0].1);
        lemma_moves_keep_cells_distinct(next, steps.drop_first());
    }
}

/// A snake on the play field.
pub struct Snake {
    body: VecDeque<Cell>,
    dir: Direction,
}

impl View for Snake {
    type V = Seq<Cell>;

    closed spec fn view(&self) -> Seq<Cell> {
        self.body@
    }
}

impl Snake {
    /// The current heading.
    pub closed spec fn heading(&self) -> Direction {
        self.dir
    }

    /// Every cell lies on the field and no two cells are equal.
    pub open spec fn wf(&self) -> bool {
        distinct_on_field(self@)
    }

    /// A snake with the given cells, head first, moving in direction `dir`.
    /// There is none unless the cells are at least one, all on the field and pairwise distinct.
    pub fn new(cells: Vec<Cell>, dir: Direction) -> (r: Option<Snake>)
        ensures
            r is Some <==> (cells@.len() >= 1 && cells@.no_duplicates() && forall|i: int|
                0 <= i < cells@.len() ==> in_field(#[trigger] cells@[i])),
            r matches Some(s) ==> s@ == cells@ && s.heading() == dir && s.wf(),
    {
        let mut snake = Snake { body: VecDeque::new(), dir };
        let mut i: usize = 0;
        while i < cells.len()
            invariant
                0 <= i <= cells@.len(),
                snake@ == cells@.subrange(0, i as int),
                snake.heading() == dir,
                snake.wf(),
            decreases cells@.len() - i,
        {
            let c = cells[i];
            if hits_wall(c) {
                return None;
            }
            if snake.occupies(c) {
                proof {
                    let j = choose|j: int| 0 <= j < snake@.len() && snake@[j] == c;
                    assert(cells@[j] == cells@[i as int]);
                }
                return None;
            }
            snake.body.push_back(c);
            i += 1;
            assert(snake@ =~= cells@.subrange(0, i as int));
        }
        assert(snake@ =~= cells@);
        if i == 0 {
            None
        } else {
            Some(snake)
        }
    }

    /// Some cell of the snake equals `c`.
    pub fn occupies(&self, c: Cell) -> (r: bool)
        ensures
            r == self@.contains(c),
    {
        let mut i: usize = 0;
        while i < self.body.len()
            invariant
                0 <= i <= self@.len(),
                forall|j: int| 0 <= j < i ==> self@[j] != c,
            decreases self@.len() - i,
        {
            let p = self.body[i];
            if p.0 == c.0 && p.1 == c.1 {
                return true;
            }
            i += 1;
        }
        false
    }

    /// Moves the snake one cell along its heading. On a growth tick the tail stays;
    /// otherwise it is dropped before the new head is tested. Returns whether the
    /// new head left the field or landed on the snake, in which case it is not added.
    pub fn advance(&mut self, grew: bool) -> (collided: bool)
        requires
            old(self).wf(),
            old(self)@.len() >= 1,
        ensures
            collided == collides(old(self)@, old(self).heading(), grew),
            final(self)@ == moved(old(self)@, old(self).heading(), grew),
            final(self).heading() == old(self).heading(),
            final(self).wf(),
            !collided ==> final(self)@[0] == step(old(self)@[0], old(self).heading()),
            !collided ==> final(self)@.len() == old(self)@.len() + if grew { 1int } else { 0int },
            !collided ==> final(self)@.no_duplicates(),
    {
        let head = self.body[0];
        assert(in_field(self@[0]));
        let new_head = next_cell(head, self.dir);
        if !grew {
            let _ = self.body.pop_back();
        }
        assert(self@ =~= kept_cells(old(self)@, grew));
        if self.occupies(new_head) {
            return true;
        }
        if hits_wall(new_head) {
            return true;
        }
        self.body.push_front(new_head);
        proof {
            lemma_move_keeps_cells_distinct(old(self)@, old(self).dir, grew);
            assert(self@ =~= moved(old(self)@, old(self).dir, grew));
        }
        false
    }

    /// The first cell of the field, in row-major order, that the snake does not cover.
    pub fn first_free_cell(&self) -> (r: Option<Cell>)
        ensures
            r is None <==> !has_free_cell(self@),
            r matches Some(c) ==> {
                &&& in_field(c)
                &&& !self@.contains(c)
                &&& forall|d: Cell| in_field(d) && rank(d) < rank(c) ==> self@.contains(d)
            },
    {
        let mut y: i32 = 0;
        while y < HEIGHT
            invariant
                0 <= y <= HEIGHT,
                forall|d: Cell| in_field(d) && d.1 < y ==> self@.contains(d),
            decreases HEIGHT - y,
        {
            let mut x: i32 = 0;
            while x < WIDTH
                invariant
                    0 <= x <= WIDTH,
                    0 <= y < HEIGHT,
                    forall|d: Cell|
                        in_field(d) && (d.1 < y || (d.1 == y && d.0 < x)) ==> self@.contains(d),
                decreases WIDTH - x,
            {
                if !self.occupies((x, y)) {
                    assert(in_field((x, y)));
                    return Some((x, y));
                }
                x += 1;
            }
            y += 1;
        }
        None
    }

    /// The head cell.
    pub fn head(&self) -> (r: Cell)
        requires
            self@.len() >= 1,
        ensures
            r == self@[0],
    {
        self.body[0]
    }

    /// The current heading.
    pub fn dir(&self) -> (r: Direction)
        ensures
            r == self.heading(),
    {
        self.dir
    }

    /// Number of cells.
    pub fn len(&self) -> (r: usize)
        ensures
            r == self@.len(),
    {
        self.body.len()
    }

    /// The cells, head first.
    pub fn cells(&self) -> (r: Vec<Cell>)
        ensures
            r@ == self@,
    {
        let mut r: Vec<Cell> = Vec::new();
        let mut i: usize = 0;
        while i < self.body.len()
            invariant
                0 <= i <= self@.len(),
                r@ == self@.subrange(0, i as int),
            decreases self@.len() - i,
        {
            r.push(self.body[i]);
            i += 1;
            assert(r@ =~= self@.subrange(0, i as int));
        }
        assert(r@ =~= self@);
        r
    }

    /// Sets the heading; the cells stay as they are.
    pub(crate) fn set_heading(&mut self, dir: Direction)
        ensures
            final(self)@ == old(self)@,
            final(self).heading() == dir,
    {
        self.dir = dir;
    }
}

} // verus!
