use vstd::prelude::*;

verus! {

/// One grid position: a polarity (`Alive` or `Dead`) together with an age
/// counter. The age means "alive for n generations" or "dead since n
/// generations", so it is kept inside the variant rather than beside it.
#[derive(Copy, Clone, PartialEq, Eq, Structural, Debug)]
pub enum Cell {
    Alive(u32),
    Dead(u32),
}

/// Age arithmetic: adding one saturates at `u32::MAX`, never wrapping.
pub open spec fn sat_inc(age: u32) -> u32 {
    if age == u32::MAX {
        age
    } else {
        (age + 1) as u32
    }
}

/// The age carried by either variant.
pub open spec fn age_of(c: Cell) -> u32 {
    match c {
        Cell::Alive(age) => age,
        Cell::Dead(age) => age,
    }
}

/// A polarity flip: the new variant starts over with age zero.
pub open spec fn toggled_spec(c: Cell) -> Cell {
    match c {
        Cell::Alive(_) => Cell::Dead(0),
        Cell::Dead(_) => Cell::Alive(0),
    }
}

/// The Game-of-Life rule for one cell, given its live-neighbor count:
/// a dead cell with exactly three live neighbors is born with age zero;
/// a live cell with two or three live neighbors survives, one generation
/// older; every other cell is (or stays) dead, a newly dead cell at age
/// zero, a still-dead cell one generation older.
pub open spec fn next_cell(c: Cell, live_neighbors: int) -> Cell {
    match c {
        Cell::Dead(age) => {
            if live_neighbors == 3 {
                Cell::Alive(0)
            } else {
                Cell::Dead(sat_inc(age))
            }
        }
        Cell::Alive(age) => {
            if live_neighbors == 2 || live_neighbors == 3 {
                Cell::Alive(sat_inc(age))
            } else {
                Cell::Dead(0)
            }
        }
    }
}

impl Cell {
    pub fn is_alive(&self) -> (alive: bool)
        ensures
            alive == (*self is Alive),
    {
        match *self {
            Cell::Alive(_) => true,
            Cell::Dead(_) => false,
        }
    }

    /// Flip the polarity, resetting the new variant's age to zero.
    pub fn toggled(self) -> (flipped: Cell)
        ensures
            flipped == toggled_spec(self),
    {
        match self {
            Cell::Alive(_) => Cell::Dead(0),
            Cell::Dead(_) => Cell::Alive(0),
        }
    }
}

impl Default for Cell {
    /// A fresh cell: dead, with the age at its maximum ("never been alive").
    fn default() -> (c: Cell)
        ensures
            c == Cell::Dead(u32::MAX),
    {
        Cell::Dead(u32::MAX)
    }
}

/// Add one to an age, saturating at `u32::MAX`.
pub fn saturating_inc(age: u32) -> (bumped: u32)
    ensures
        bumped == sat_inc(age),
{
    if age == u32::MAX {
        age
    } else {
        age + 1
    }
}

/// One cell's transition, executable form of `next_cell`.
pub fn transition(c: Cell, live_neighbors: u8) -> (next: Cell)
    ensures
        next == next_cell(c, live_neighbors as int),
{
    match c {
        Cell::Dead(age) => {
            if live_neighbors == 3 {
                Cell::Alive(0)
            } else {
                Cell::Dead(saturating_inc(age))
            }
        }
        Cell::Alive(age) => {
            if live_neighbors == 2 || live_neighbors == 3 {
                Cell::Alive(saturating_inc(age))
            } else {
                Cell::Dead(0)
            }
        }
    }
}

} // verus!
