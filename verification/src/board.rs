//! The playing field: fixed dimensions and the cells that belong to it.

use vstd::prelude::*;
use crate::components::{contains_position, lemma_push_contains, Position};

verus! {

/// The usual board width.
pub const ARENA_WIDTH: i32 = 20;

/// The usual board height.
pub const ARENA_HEIGHT: i32 = 20;

/// The two ways in which the engine can refuse a request.
#[derive(PartialEq, Eq, Structural, Copy, Clone, Debug)]
pub enum GameError {
    /// The snake covers every cell of the board, so no food can be placed.
    NoFreeCell,
    /// A board dimension is at most 1, or the tick interval is zero.
    InvalidConfiguration,
}

/// A board of fixed width and height. Its cells are those with
/// `1 <= x < width` and `1 <= y < height`.
#[derive(Copy, Clone, Debug)]
pub struct Board {
    width: i32,
    height: i32,
}

impl Board {
    /// The width the board was built with.
    pub closed spec fn spec_width(&self) -> int {
        self.width as int
    }

    /// The height the board was built with.
    pub closed spec fn spec_height(&self) -> int {
        self.height as int
    }

    /// A board has at least one cell.
    pub open spec fn wf(&self) -> bool {
        &&& 1 < self.spec_width() <= i32::MAX
        &&& 1 < self.spec_height() <= i32::MAX
    }

    /// Whether `p` is a cell of the board.
    pub open spec fn spec_contains(&self, p: Position) -> bool {
        &&& 1 <= p.x < self.spec_width()
        &&& 1 <= p.y < self.spec_height()
    }

    /// Whether `p` is a cell of the board that `occupied` does not hold.
    pub open spec fn is_free(&self, occupied: Seq<Position>, p: Position) -> bool {
        self.spec_contains(p) && !occupied.contains(p)
    }

    /// Builds a board. Dimensions of 1 or less are refused.
    pub fn new(width: i32, height: i32) -> (r: Result<Board, GameError>)
        ensures
            (width > 1 && height > 1) <==> r is Ok,
            r is Ok ==> r->Ok_0.wf() && r->Ok_0.spec_width() == width && r->Ok_0.spec_height()
                == height,
            r is Err ==> r->Err_0 == GameError::InvalidConfiguration,
    {
        if width <= 1 || height <= 1 {
            Err(GameError::InvalidConfiguration)
        } else {
            Ok(Board { width, height })
        }
    }

    pub fn width(&self) -> (w: i32)
        ensures
            w == self.spec_width(),
    {
        self.width
    }

    pub fn height(&self) -> (h: i32)
        ensures
            h == self.spec_height(),
    {
        self.height
    }

    /// True exactly for the cells of the board.
    pub fn contains(&self, p: Position) -> (inside: bool)
        ensures
            inside == self.spec_contains(p),
    {
        1 <= p.x && p.x < self.width && 1 <= p.y && p.y < self.height
    }

    /// Every cell of the board that `occupied` does not hold, each once,
    /// column by column with `y` rising inside a column. The result is empty
    /// when `occupied` covers the board.
    pub fn free_cells(&self, occupied: &Vec<Position>) -> (free: Vec<Position>)
        ensures
            free@.no_duplicates(),
            forall|p: Position| #[trigger] free@.contains(p) <==> self.is_free(occupied@, p),
            forall|i: int, j: int|
                0 <= i < j < free@.len() ==> column_major_before(#[trigger] free@[i], #[trigger] free@[j]),
    {
        let mut free: Vec<Position> = Vec::new();
        let mut x: i32 = 1;
        while x < self.width
            invariant
                1 <= x,
                free@.no_duplicates(),
                forall|p: Position| #[trigger]
                    free@.contains(p) <==> (self.is_free(occupied@, p) && p.x < x),
                forall|i: int, j: int|
                    0 <= i < j < free@.len() ==> column_major_before(#[trigger] free@[i], #[trigger] free@[j]),
            decreases self.width - x,
        {
            let mut y: i32 = 1;
            while y < self.height
                invariant
                    1 <= x < self.width,
                    1 <= y,
                    free@.no_duplicates(),
                    forall|p: Position| #[trigger]
                        free@.contains(p) <==> (self.is_free(occupied@, p) && (p.x < x || (p.x
                            == x && p.y < y))),
                    forall|i: int, j: int|
                        0 <= i < j < free@.len() ==> column_major_before(#[trigger] free@[i], #[trigger] free@[j]),
                decreases self.height - y,
            {
                let p = Position { x, y };
                if !contains_position(occupied, p) {
                    proof {
                        lemma_push_contains(free@, p);
                        assert forall|i: int| 0 <= i < free@.len() implies column_major_before(
                            #[trigger] free@[i],
                            p,
                        ) by {
                            assert(free@.contains(free@[i]));
                        }
                    }
                    free.push(p);
                }
                y = y + 1;
            }
            x = x + 1;
        }
        free
    }
}

/// The order in which `free_cells` lists cells: by `x`, then by `y`.
pub open spec fn column_major_before(a: Position, b: Position) -> bool {
    a.x < b.x || (a.x == b.x && a.y < b.y)
}

} // verus!
