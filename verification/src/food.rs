//! The food: at most one active cell, and a flag that a new one is wanted.

use vstd::prelude::*;
use rand::seq::IteratorRandom;
use crate::board::{Board, GameError};
use crate::components::Position;

verus! {

/// Draws an index below `n` at random: `rand::seq::IteratorRandom::choose`
/// on the range `0..n`, with the generator that `rand::thread_rng` hands out.
///
/// Believed, not proved: `choose` returns `None` if and only if the iterator
/// is empty, and otherwise one of the iterator's items, which for this range
/// is a number below `n`. Which number comes back is left open. The
/// generator is seeded from the operating system on first use in a thread,
/// and `thread_rng` panics if the operating system gives it no seed.
#[verifier::external_body]
fn choose_index(n: usize) -> (pick: Option<usize>)
    ensures
        pick is None <==> n == 0,
        pick is Some ==> pick->Some_0 < n,
{
    (0..n).choose(&mut rand::thread_rng())
}

#[derive(Copy, Clone, Debug)]
pub struct Food {
    position: Option<Position>,
    spawn_pending: bool,
}

impl Food {
    /// The active food cell, if there is one.
    pub closed spec fn cell(&self) -> Option<Position> {
        self.position
    }

    /// Whether a new food cell has been asked for and not yet placed.
    pub closed spec fn awaits_spawn(&self) -> bool {
        self.spawn_pending
    }

    /// No food, and none asked for.
    pub fn new() -> (f: Food)
        ensures
            f.cell() is None,
            !f.awaits_spawn(),
    {
        Food { position: None, spawn_pending: false }
    }

    /// Removes the active food, if any.
    pub fn clear(&mut self)
        ensures
            final(self).cell() is None,
            final(self).awaits_spawn() == old(self).awaits_spawn(),
    {
        self.position = None;
    }

    /// Asks for a new food cell. Asking twice is asking once.
    pub fn request_spawn(&mut self)
        ensures
            final(self).awaits_spawn(),
            final(self).cell() == old(self).cell(),
    {
        self.spawn_pending = true;
    }

    /// Settles a pending request with a drawn index into `free`: the cell at
    /// that index becomes the food and the request is cleared. Without a
    /// pending request nothing changes. With a pending request and no index,
    /// or one beyond the list, nothing changes either, the request stays
    /// pending, and the result is `NoFreeCell`.
    pub fn settle_spawn(&mut self, free: &Vec<Position>, pick: Option<usize>) -> (r: Result<
        (),
        GameError,
    >)
        ensures
            r is Err <==> old(self).awaits_spawn() && !(pick is Some && pick->Some_0 < free@.len()),
            r is Err ==> r->Err_0 == GameError::NoFreeCell,
            !old(self).awaits_spawn() || r is Err ==> {
                &&& final(self).cell() == old(self).cell()
                &&& final(self).awaits_spawn() == old(self).awaits_spawn()
            },
            old(self).awaits_spawn() && r is Ok ==> {
                &&& final(self).cell() == Some(free@[pick->Some_0 as int])
                &&& !final(self).awaits_spawn()
            },
    {
        if !self.spawn_pending {
            return Ok(());
        }
        match pick {
            Some(i) => {
                if i < free.len() {
                    self.position = Some(free[i]);
                    self.spawn_pending = false;
                    Ok(())
                } else {
                    Err(GameError::NoFreeCell)
                }
            },
            None => Err(GameError::NoFreeCell),
        }
    }

    /// If a request is pending, picks one cell at random among the cells of
    /// `board` that `occupied` does not hold and makes it the food. When
    /// there is no such cell the request stays pending and the result is
    /// `NoFreeCell`. Without a pending request nothing changes.
    pub fn resolve_spawn(&mut self, board: &Board, occupied: &Vec<Position>) -> (r: Result<
        (),
        GameError,
    >)
        ensures
            r is Err <==> old(self).awaits_spawn() && forall|p: Position|
                !board.is_free(occupied@, p),
            r is Err ==> r->Err_0 == GameError::NoFreeCell,
            !old(self).awaits_spawn() || r is Err ==> {
                &&& final(self).cell() == old(self).cell()
                &&& final(self).awaits_spawn() == old(self).awaits_spawn()
            },
            old(self).awaits_spawn() && r is Ok ==> {
                &&& final(self).cell() is Some
                &&& board.is_free(occupied@, final(self).cell()->Some_0)
                &&& !final(self).awaits_spawn()
            },
    {
        if !self.spawn_pending {
            return Ok(());
        }
        let free = board.free_cells(occupied);
        let pick = choose_index(free.len());
        proof {
            if free@.len() > 0 {
                assert(free@.contains(free@[0]));
                assert(board.is_free(occupied@, free@[0]));
                assert(free@.contains(free@[pick->Some_0 as int]));
            } else {
                assert forall|p: Position| !board.is_free(occupied@, p) by {
                    assert(!free@.contains(p));
                }
            }
        }
        self.settle_spawn(&free, pick)
    }

    /// Eats the food if it lies at `at`: the food is removed and the result
    /// is true. Otherwise nothing changes and the result is false.
    pub fn try_consume(&mut self, at: Position) -> (eaten: bool)
        ensures
            eaten == (old(self).cell() == Some(at)),
            eaten ==> final(self).cell() is None,
            !eaten ==> final(self).cell() == old(self).cell(),
            final(self).awaits_spawn() == old(self).awaits_spawn(),
    {
        match self.position {
            Some(p) => {
                if p == at {
                    self.position = None;
                    true
                } else {
                    false
                }
            },
            None => false,
        }
    }

    /// The active food cell, if there is one.
    pub fn position(&self) -> (p: Option<Position>)
        ensures
            p == self.cell(),
    {
        self.position
    }

    /// Whether a new food cell has been asked for and not yet placed.
    pub fn spawn_pending(&self) -> (b: bool)
        ensures
            b == self.awaits_spawn(),
    {
        self.spawn_pending
    }
}

} // verus!
