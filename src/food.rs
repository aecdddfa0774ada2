//! The food: one cell that the snake eats when its head reaches it.
use rand::Rng;
use vstd::prelude::*;

use crate::grid::{in_field, Cell, HEIGHT, WIDTH};
use crate::snake::{has_free_cell, Snake};

verus! {

/// Random draws that `Food::relocate` makes before it scans the field for a free cell.
pub const RANDOM_TRIES: u32 = 64;

/// Relies on rand's `thread_rng().gen_range(0, bound)`: a value in `[0, bound)`,
/// which panics unless `0 < bound`.
#[verifier::external_body]
fn random_below(bound: i32) -> (r: i32)
    requires
        0 < bound,
    ensures
        0 <= r < bound,
{
    rand::thread_rng().gen_range(0, bound)
}

/// The food cell.
pub struct Food {
    x: i32,
    y: i32,
}

impl View for Food {
    type V = Cell;

    closed spec fn view(&self) -> Cell {
        (self.x, self.y)
    }
}

impl Food {
    /// Food at column `x`, row `y`.
    pub fn new(x: i32, y: i32) -> (r: Food)
        ensures
            r@ == (x, y),
    {
        Food { x, y }
    }

    /// The food's cell.
    pub fn cell(&self) -> (r: Cell)
        ensures
            r == self@,
    {
        (self.x, self.y)
    }

    /// The snake's head is on the food.
    pub fn check_consumed(&self, snake: &Snake) -> (r: bool)
        requires
            snake@.len() >= 1,
        ensures
            r == (snake@[0] == self@),
    {
        let head = snake.head();
        head.0 == self.x && head.1 == self.y
    }

    /// Moves the food to `c` if `c` is on the field and off the snake; otherwise leaves it.
    pub fn try_place(&mut self, snake: &Snake, c: Cell) -> (placed: bool)
        ensures
            placed == (in_field(c) && !snake@.contains(c)),
            placed ==> final(self)@ == c,
            !placed ==> final(self)@ == old(self)@,
    {
        if c.0 < 0 || c.0 >= WIDTH || c.1 < 0 || c.1 >= HEIGHT || snake.occupies(c) {
            false
        } else {
            self.x = c.0;
            self.y = c.1;
            true
        }
    }

    /// Moves the food to a random cell of the field that the snake does not cover.
    /// After `RANDOM_TRIES` draws that all hit the snake, takes the first free cell in
    /// row-major order instead. Where the snake covers the whole field, the food stays
    /// and the result is `false`.
    pub fn relocate(&mut self, snake: &Snake) -> (placed: bool)
        ensures
            placed == has_free_cell(snake@),
            placed ==> in_field(final(self)@) && !snake@.contains(final(self)@),
            !placed ==> final(self)@ == old(self)@,
    {
        let mut tries: u32 = 0;
        while tries < RANDOM_TRIES
            invariant
                self@ == old(self)@,
            decreases RANDOM_TRIES - tries,
        {
            let c = (random_below(WIDTH), random_below(HEIGHT));
            if self.try_place(snake, c) {
                return true;
            }
            tries += 1;
        }
        match snake.first_free_cell() {
            Some(c) => {
                self.x = c.0;
                self.y = c.1;
                true
            },
            None => false,
        }
    }
}

} // verus!
