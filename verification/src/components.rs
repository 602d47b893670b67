//! Value types shared by every component: headings and grid cells.

use vstd::prelude::*;

verus! {

/// One of the four headings a snake can move in.
#[derive(PartialEq, Eq, Structural, Copy, Clone, Debug)]
pub enum Direction {
    Left,
    Up,
    Right,
    Down,
}

impl Direction {
    /// The heading that points the other way.
    pub open spec fn spec_opposite(self) -> Direction {
        match self {
            Direction::Left => Direction::Right,
            Direction::Right => Direction::Left,
            Direction::Up => Direction::Down,
            Direction::Down => Direction::Up,
        }
    }

    /// Horizontal offset of one step in this heading.
    pub open spec fn dx(self) -> int {
        match self {
            Direction::Left => -1,
            Direction::Right => 1,
            Direction::Up => 0,
            Direction::Down => 0,
        }
    }

    /// Vertical offset of one step in this heading.
    pub open spec fn dy(self) -> int {
        match self {
            Direction::Left => 0,
            Direction::Right => 0,
            Direction::Up => 1,
            Direction::Down => -1,
        }
    }

    /// The heading that a set of pressed keys asks for: left wins over down,
    /// down over up, up over right; no key asks for nothing.
    pub open spec fn spec_from_keys(left: bool, down: bool, up: bool, right: bool) -> Option<
        Direction,
    > {
        if left {
            Some(Direction::Left)
        } else if down {
            Some(Direction::Down)
        } else if up {
            Some(Direction::Up)
        } else if right {
            Some(Direction::Right)
        } else {
            None
        }
    }

    /// Reads the four direction keys into a requested heading.
    pub fn from_keys(left: bool, down: bool, up: bool, right: bool) -> (r: Option<Direction>)
        ensures
            r == Direction::spec_from_keys(left, down, up, right),
            r is None <==> !(left || down || up || right),
    {
        if left {
            Some(Direction::Left)
        } else if down {
            Some(Direction::Down)
        } else if up {
            Some(Direction::Up)
        } else if right {
            Some(Direction::Right)
        } else {
            None
        }
    }

    /// Maps Left to Right, Right to Left, Up to Down and Down to Up.
    pub fn opposite(self) -> (r: Self)
        ensures
            r == self.spec_opposite(),
    {
        match self {
            Self::Left => Self::Right,
            Self::Right => Self::Left,
            Self::Up => Self::Down,
            Self::Down => Self::Up,
        }
    }
}

/// Reversing a heading twice gives the heading back, and a heading is never
/// its own opposite.
pub proof fn lemma_opposite_involution(d: Direction)
    ensures
        d.spec_opposite().spec_opposite() == d,
        d.spec_opposite() != d,
        d.spec_opposite().dx() == -d.dx(),
        d.spec_opposite().dy() == -d.dy(),
{
}

/// A single grid cell.
#[derive(PartialEq, Eq, Structural, Copy, Clone, Debug, Hash)]
pub struct Position {
    pub x: i32,
    pub y: i32,
}

impl Default for Position {
    /// The origin cell `(0, 0)`.
    fn default() -> (r: Self)
        ensures
            r == (Position { x: 0, y: 0 }),
    {
        Position { x: 0, y: 0 }
    }
}

impl Position {
    /// Whether the neighbouring cell in heading `d` has representable
    /// coordinates.
    pub open spec fn can_step(self, d: Direction) -> bool {
        &&& i32::MIN <= self.x + d.dx() <= i32::MAX
        &&& i32::MIN <= self.y + d.dy() <= i32::MAX
    }

    /// The neighbouring cell in heading `d`.
    pub open spec fn spec_step(self, d: Direction) -> Position {
        Position { x: (self.x + d.dx()) as i32, y: (self.y + d.dy()) as i32 }
    }

    /// Whether every neighbour of this cell has representable coordinates.
    pub open spec fn is_inner(self) -> bool {
        &&& i32::MIN < self.x < i32::MAX
        &&& i32::MIN < self.y < i32::MAX
    }

    /// The cell one step away in heading `d`: Left lowers `x`, Right raises
    /// `x`, Up raises `y`, Down lowers `y`.
    pub fn step(self, d: Direction) -> (r: Position)
        requires
            self.can_step(d),
        ensures
            r == self.spec_step(d),
            r.x == self.x + d.dx(),
            r.y == self.y + d.dy(),
    {
        match d {
            Direction::Left => Position { x: self.x - 1, y: self.y },
            Direction::Right => Position { x: self.x + 1, y: self.y },
            Direction::Up => Position { x: self.x, y: self.y + 1 },
            Direction::Down => Position { x: self.x, y: self.y - 1 },
        }
    }
}

/// Looks for `p` in `cells`.
pub fn contains_position(cells: &Vec<Position>, p: Position) -> (found: bool)
    ensures
        found == cells@.contains(p),
{
    let mut i: usize = 0;
    while i < cells.len()
        invariant
            i <= cells.len(),
            forall|j: int| 0 <= j < i ==> cells@[j] != p,
        decreases cells.len() - i,
    {
        if cells[i] == p {
            return true;
        }
        i = i + 1;
    }
    false
}

/// What `contains` and `no_duplicates` say of a sequence after one `push`.
pub proof fn lemma_push_contains(s: Seq<Position>, v: Position)
    ensures
        forall|q: Position| #[trigger] s.push(v).contains(q) <==> (s.contains(q) || q == v),
        s.no_duplicates() && !s.contains(v) ==> s.push(v).no_duplicates(),
{
    let t = s.push(v);
    assert forall|q: Position| #[trigger] t.contains(q) <==> (s.contains(q) || q == v) by {
        if t.contains(q) {
            let i = choose|i: int| 0 <= i < t.len() && t[i] == q;
            if i < s.len() {
                assert(s[i] == q);
            }
        }
        if s.contains(q) {
            let i = choose|i: int| 0 <= i < s.len() && s[i] == q;
            assert(t[i] == q);
        }
        if q == v {
            assert(t[s.len() as int] == q);
        }
    }
}

} // verus!
