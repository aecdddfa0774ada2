//! The game controller: the per-tick update and the handling of key presses.
use vstd::prelude::*;

use crate::food::Food;
use crate::grid::{in_field, lemma_distinct_cells_fit, reverse_of, Cell, Direction};
use crate::snake::{collides, has_free_cell, moved, Snake};

verus! {

/// A game: the snake, the food, the score and whether the game has ended.
pub struct Game {
    snake: Snake,
    food: Food,
    score: u32,
    over: bool,
}

impl Game {
    /// The snake.
    pub closed spec fn spec_snake(&self) -> Snake {
        self.snake
    }

    /// The food.
    pub closed spec fn spec_food(&self) -> Food {
        self.food
    }

    /// Food eaten so far.
    pub closed spec fn spec_score(&self) -> u32 {
        self.score
    }

    /// A collision has ended the game.
    pub closed spec fn spec_over(&self) -> bool {
        self.over
    }

    /// The snake is well formed; while the game runs it has a head, and each point
    /// of the score is a cell that it grew.
    pub open spec fn wf(&self) -> bool {
        &&& self.spec_snake().wf()
        &&& !self.spec_over() ==> {
            &&& self.spec_snake()@.len() >= 1
            &&& self.spec_score() + 1 <= self.spec_snake()@.len()
        }
    }

    /// A running game with score 0, a snake with the given cells (head first) and
    /// heading, and food at `food`. There is none unless the cells are at least one,
    /// all on the field and pairwise distinct.
    pub fn start(cells: Vec<Cell>, dir: Direction, food: Cell) -> (r: Option<Game>)
        ensures
            r is Some <==> (cells@.len() >= 1 && cells@.no_duplicates() && forall|i: int|
                0 <= i < cells@.len() ==> in_field(#[trigger] cells@[i])),
            r matches Some(g) ==> {
                &&& g.wf()
                &&& g.spec_snake()@ == cells@
                &&& g.spec_snake().heading() == dir
                &&& g.spec_food()@ == food
                &&& g.spec_score() == 0
                &&& !g.spec_over()
            },
    {
        match Snake::new(cells, dir) {
            Some(snake) => Some(Game { snake, food: Food::new(food.0, food.1), score: 0, over: false }),
            None => None,
        }
    }

    /// The opening position: the snake on (0, 0) and (0, 1), heading down, food at (2, 2).
    pub fn new() -> (r: Game)
        ensures
            r.wf(),
            r.spec_snake()@ == seq![(0i32, 0i32), (0i32, 1i32)],
            r.spec_snake().heading() == Direction::Down,
            r.spec_food()@ == (2i32, 2i32),
            r.spec_score() == 0,
            !r.spec_over(),
    {
        let cells: Vec<Cell> = vec![(0, 0), (0, 1)];
        let r = Game::start(cells, Direction::Down, (2, 2));
        assert(cells@.no_duplicates());
        r.unwrap()
    }

    /// One tick. The food test looks at the snake as the last tick left it; the
    /// snake then moves, growing if it had eaten. A collision ends the game and
    /// nothing else happens in that tick. Otherwise, if the snake had eaten, the
    /// score goes up by one and the food moves to a cell off the snake.
    /// Returns whether the game has ended; an ended game no longer changes.
    pub fn update(&mut self) -> (ended: bool)
        requires
            old(self).wf(),
        ensures
            final(self).wf(),
            ended == final(self).spec_over(),
            old(self).spec_over() ==> *final(self) == *old(self),
            !old(self).spec_over() ==> {
                let body = old(self).spec_snake()@;
                let dir = old(self).spec_snake().heading();
                let eaten = body[0] == old(self).spec_food()@;
                let after = final(self).spec_snake()@;
                &&& ended == collides(body, dir, eaten)
                &&& after == moved(body, dir, eaten)
                &&& final(self).spec_snake().heading() == dir
                &&& final(self).spec_score() == if eaten && !ended {
                    old(self).spec_score() + 1
                } else {
                    old(self).spec_score() as int
                }
                &&& (ended || !eaten) ==> final(self).spec_food()@ == old(self).spec_food()@
                &&& (!ended && eaten && has_free_cell(after)) ==> {
                    &&& in_field(final(self).spec_food()@)
                    &&& !after.contains(final(self).spec_food()@)
                }
                &&& (!ended && eaten && !has_free_cell(after)) ==> final(self).spec_food()@
                    == old(self).spec_food()@
            },
    {
        if self.over {
            return true;
        }
        let eaten = self.food.check_consumed(&self.snake);
        proof {
            lemma_distinct_cells_fit(self.snake@);
        }
        if self.snake.advance(eaten) {
            self.over = true;
            return true;
        }
        if eaten {
            self.score = self.score + 1;
            let _ = self.food.relocate(&self.snake);
        }
        false
    }

    /// A key press asking for heading `requested`. The snake takes it unless it is
    /// the reverse of the current heading; it moves that way from the next tick.
    pub fn pressed(&mut self, requested: Direction)
        ensures
            final(self).spec_snake()@ == old(self).spec_snake()@,
            final(self).spec_snake().heading() == if requested == reverse_of(
                old(self).spec_snake().heading(),
            ) {
                old(self).spec_snake().heading()
            } else {
                requested
            },
            final(self).spec_food() == old(self).spec_food(),
            final(self).spec_score() == old(self).spec_score(),
            final(self).spec_over() == old(self).spec_over(),
            old(self).wf() ==> final(self).wf(),
    {
        let last = self.snake.dir();
        if requested != last.reverse() {
            self.snake.set_heading(requested);
        }
    }

    /// The snake.
    pub fn snake(&self) -> (r: &Snake)
        ensures
            *r == self.spec_snake(),
    {
        &self.snake
    }

    /// The food.
    pub fn food(&self) -> (r: &Food)
        ensures
            *r == self.spec_food(),
    {
        &self.food
    }

    /// Food eaten so far.
    pub fn score(&self) -> (r: u32)
        ensures
            r == self.spec_score(),
    {
        self.score
    }

    /// A collision has ended the game.
    pub fn is_over(&self) -> (r: bool)
        ensures
            r == self.spec_over(),
    {
        self.over
    }
}

} // verus!
