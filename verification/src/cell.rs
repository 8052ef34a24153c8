//! The two-valued cell state and the per-cell generation-transition rule.

use vstd::prelude::*;

verus! {

/// State of a single grid cell. `Dead` reads as byte 0, `Alive` as byte 1
/// (see [`Cell::as_byte`]).
#[derive(Clone, Copy, Debug, PartialEq, Eq, Structural)]
pub enum Cell {
    Dead,
    Alive,
}

/// The cell state a boolean stands for: `true` is `Alive`, `false` is `Dead`.
pub open spec fn cell_of_bool(v: bool) -> Cell {
    if v {
        Cell::Alive
    } else {
        Cell::Dead
    }
}

impl Cell {
    /// 1 for a live cell, 0 for a dead one.
    pub open spec fn alive_bit(self) -> int {
        if self is Alive {
            1
        } else {
            0
        }
    }

    /// The opposite state.
    pub open spec fn flipped(self) -> Cell {
        if self is Alive {
            Cell::Dead
        } else {
            Cell::Alive
        }
    }

    /// The state this cell takes in the next generation, given its live
    /// Moore-neighbor count `n`:
    /// a live cell survives exactly with two or three live neighbors
    /// (underpopulation below two, overpopulation above three), and a dead
    /// cell becomes alive exactly with three (reproduction); every other
    /// dead cell stays dead.
    pub open spec fn next_state_spec(self, n: int) -> Cell {
        if self is Alive {
            if n < 2 {
                Cell::Dead
            } else if n <= 3 {
                Cell::Alive
            } else {
                Cell::Dead
            }
        } else {
            if n == 3 {
                Cell::Alive
            } else {
                Cell::Dead
            }
        }
    }

    /// Flip this cell between `Dead` and `Alive`.
    pub fn toggle(&mut self)
        ensures
            *final(self) == old(self).flipped(),
    {
        *self = match *self {
            Cell::Dead => Cell::Alive,
            Cell::Alive => Cell::Dead,
        };
    }

    /// Force this cell `Alive`; report whether that changed its state,
    /// i.e. whether it was `Dead` before.
    pub fn set_alive(&mut self) -> (changed: bool)
        ensures
            *final(self) is Alive,
            changed == (*old(self) is Dead),
    {
        let was_dead = *self == Cell::Dead;
        *self = Cell::Alive;
        was_dead
    }

    /// The byte this cell reads as: 0 when `Dead`, 1 when `Alive`.
    pub fn as_byte(&self) -> (b: u8)
        ensures
            b == self.alive_bit(),
    {
        match *self {
            Cell::Dead => 0,
            Cell::Alive => 1,
        }
    }

    /// Compute the next generation's state from this cell's current state
    /// and its live-neighbor count, per [`Cell::next_state_spec`].
    pub fn next_state(self, live_neighbors: u8) -> (next: Cell)
        ensures
            next == self.next_state_spec(live_neighbors as int),
    {
        match (self, live_neighbors) {
            (Cell::Alive, n) if n < 2 => Cell::Dead,
            (Cell::Alive, 2) | (Cell::Alive, 3) => Cell::Alive,
            (Cell::Alive, n) if n > 3 => Cell::Dead,
            (Cell::Dead, 3) => Cell::Alive,
            (other, _) => other,
        }
    }
}

impl core::convert::From<bool> for Cell {
    /// `true` becomes `Alive`, `false` becomes `Dead`.
    fn from(v: bool) -> (c: Cell) {
        match v {
            true => Cell::Alive,
            false => Cell::Dead,
        }
    }
}

impl vstd::std_specs::convert::FromSpecImpl<bool> for Cell {
    open spec fn obeys_from_spec() -> bool {
        true
    }

    open spec fn from_spec(v: bool) -> Cell {
        cell_of_bool(v)
    }
}

/// The transition rule is complete over the whole input space: for every
/// live-neighbor count from 0 to 8 and both cell states, the next state is
/// exactly what the four classic rules prescribe — a live cell with fewer
/// than two live neighbors dies, one with two or three survives, one with
/// more than three dies, a dead cell with exactly three comes alive, and
/// any other dead cell is unchanged.
pub proof fn lemma_rule_completeness(c: Cell, n: int)
    requires
        0 <= n <= 8,
    ensures
        c is Alive && n < 2 ==> c.next_state_spec(n) is Dead,
        c is Alive && (n == 2 || n == 3) ==> c.next_state_spec(n) is Alive,
        c is Alive && n > 3 ==> c.next_state_spec(n) is Dead,
        c is Dead && n == 3 ==> c.next_state_spec(n) is Alive,
        c is Dead && n != 3 ==> c.next_state_spec(n) == c,
{
}

} // verus!
