//! The snake: an ordered body, a committed heading and the latest requested
//! heading.

use vstd::prelude::*;
use crate::board::Board;
use crate::components::{Direction, Position};

verus! {

/// The head's committed heading.
#[derive(Copy, Clone, Debug)]
pub struct SnakeHead {
    pub direction: Direction,
}

/// The cell that the tail left in the most recent step, if a step was made.
#[derive(Copy, Clone, Debug)]
pub struct LastTailPosition(pub Option<Position>);

impl Default for LastTailPosition {
    fn default() -> (r: Self)
        ensures
            r.0 is None,
    {
        LastTailPosition(None)
    }
}

/// What one step of the snake did.
#[derive(Copy, Clone, Debug)]
pub struct AdvanceOutcome {
    /// The cell the head moved to.
    pub new_head: Position,
    /// The head left the board.
    pub out_of_bounds: bool,
    /// The head ran into a cell that the body still holds after the step.
    pub self_collision: bool,
    /// The cell that the tail held before the step.
    pub last_tail_position: Position,
}

/// The heading that a step commits: the requested one, unless it reverses
/// the current one.
pub open spec fn resolve_heading(current: Direction, pending: Direction) -> Direction {
    if pending != current.spec_opposite() {
        pending
    } else {
        current
    }
}

/// Follow-the-leader: the new head in front, every other segment on the cell
/// of the segment that was ahead of it, the old tail cell dropped.
pub open spec fn shifted(body: Seq<Position>, new_head: Position) -> Seq<Position> {
    seq![new_head] + body.drop_last()
}

/// The head cell of a fresh snake.
pub open spec fn spawn_head() -> Position {
    Position { x: 3, y: 3 }
}

/// The body of a fresh snake: the head and one segment below it.
pub open spec fn spawn_body() -> Seq<Position> {
    seq![Position { x: 3, y: 3 }, Position { x: 3, y: 2 }]
}

/// After a shift every segment but the head lies where the segment ahead of
/// it lay, and the new head lies on a kept cell of the old body exactly if
/// it lies on another segment of the new one.
pub proof fn lemma_shifted_body(body: Seq<Position>, new_head: Position)
    requires
        body.len() >= 1,
    ensures
        shifted(body, new_head).len() == body.len(),
        shifted(body, new_head)[0] == new_head,
        forall|i: int| 1 <= i < body.len() ==> #[trigger] shifted(body, new_head)[i] == body[i - 1],
        body.drop_last().contains(new_head) <==> (exists|i: int|
            1 <= i < shifted(body, new_head).len() && #[trigger] shifted(body, new_head)[i]
                == new_head),
{
    let kept = body.drop_last();
    let next = shifted(body, new_head);
    assert(next.len() == body.len());
    assert forall|i: int| 1 <= i < body.len() implies #[trigger] next[i] == body[i - 1] by {
        assert(next[i] == kept[i - 1]);
    }
    if kept.contains(new_head) {
        let k = choose|k: int| 0 <= k < kept.len() && kept[k] == new_head;
        assert(next[k + 1] == kept[k]);
        assert(1 <= k + 1 < next.len() && next[k + 1] == new_head);
    }
    if exists|i: int| 1 <= i < next.len() && #[trigger] next[i] == new_head {
        let k = choose|i: int| 1 <= i < next.len() && #[trigger] next[i] == new_head;
        assert(kept[k - 1] == next[k]);
        assert(kept.contains(new_head));
    }
}

/// Whether two cells share an edge.
pub open spec fn adjacent(a: Position, b: Position) -> bool {
    ||| a.x == b.x && (a.y - b.y == 1 || b.y - a.y == 1)
    ||| a.y == b.y && (a.x - b.x == 1 || b.x - a.x == 1)
}

/// Whether every segment shares an edge with the one behind it.
pub open spec fn is_chain(body: Seq<Position>) -> bool {
    forall|i: int| 0 <= i < body.len() - 1 ==> adjacent(#[trigger] body[i], body[i + 1])
}

/// A fresh snake is a chain of two distinct cells.
pub proof fn lemma_spawn_body_is_simple_chain()
    ensures
        is_chain(spawn_body()),
        spawn_body().no_duplicates(),
        spawn_body().len() == 2,
        spawn_body()[0] == spawn_head(),
{
}

/// Follow-the-leader keeps a chain a chain, with and without a segment
/// gained on the cell that the tail left.
pub proof fn lemma_step_keeps_chain(body: Seq<Position>, heading: Direction)
    requires
        body.len() >= 1,
        is_chain(body),
        body[0].can_step(heading),
    ensures
        is_chain(shifted(body, body[0].spec_step(heading))),
        is_chain(shifted(body, body[0].spec_step(heading)).push(body.last())),
{
    let head = body[0].spec_step(heading);
    let moved = shifted(body, head);
    assert(adjacent(head, body[0]));
    assert forall|i: int| 0 <= i < moved.len() - 1 implies adjacent(
        #[trigger] moved[i],
        moved[i + 1],
    ) by {
        assert(moved[i + 1] == body[i]);
        if i > 0 {
            assert(moved[i] == body[i - 1]);
            assert(adjacent(body[i - 1], body[i]));
        }
    }
    let grown = moved.push(body.last());
    assert forall|i: int| 0 <= i < grown.len() - 1 implies adjacent(
        #[trigger] grown[i],
        grown[i + 1],
    ) by {
        if i < moved.len() - 1 {
            assert(grown[i] == moved[i] && grown[i + 1] == moved[i + 1]);
            assert(adjacent(moved[i], moved[i + 1]));
        } else {
            assert(grown[i + 1] == body.last());
            if i == 0 {
                assert(grown[i] == head);
            } else {
                assert(grown[i] == body[i - 1]);
                assert(adjacent(body[i - 1], body[i]));
            }
        }
    }
}

/// A step onto a cell that the body does not keep leaves no two segments on
/// one cell; nor does a segment gained on the vacated tail cell, unless the
/// head has just moved onto that cell.
pub proof fn lemma_step_keeps_segments_apart(body: Seq<Position>, new_head: Position)
    requires
        body.len() >= 1,
        body.no_duplicates(),
        !body.drop_last().contains(new_head),
    ensures
        shifted(body, new_head).no_duplicates(),
        new_head != body.last() ==> shifted(body, new_head).push(body.last()).no_duplicates(),
{
    let kept = body.drop_last();
    let moved = shifted(body, new_head);
    assert forall|i: int, j: int| 0 <= i < moved.len() && 0 <= j < moved.len() && i != j implies moved[i]
        != moved[j] by {
        if i > 0 {
            assert(moved[i] == kept[i - 1]);
            assert(moved[i] == body[i - 1]);
        }
        if j > 0 {
            assert(moved[j] == kept[j - 1]);
            assert(moved[j] == body[j - 1]);
        }
    }
    if new_head != body.last() {
        let grown = moved.push(body.last());
        assert forall|i: int, j: int| 0 <= i < grown.len() && 0 <= j < grown.len() && i
            != j implies grown[i] != grown[j] by {
            if 0 < i < moved.len() {
                assert(grown[i] == body[i - 1]);
            }
            if 0 < j < moved.len() {
                assert(grown[j] == body[j - 1]);
            }
            if i == moved.len() {
                assert(grown[i] == body[body.len() - 1]);
            }
            if j == moved.len() {
                assert(grown[j] == body[body.len() - 1]);
            }
        }
    }
}

/// The body after a run of steps, each given by the heading it commits and
/// by whether the snake eats in it: every step shifts the body, and a step
/// in which the snake eats appends the cell that the tail held before that
/// step.
pub open spec fn body_after(start: Seq<Position>, steps: Seq<(Direction, bool)>) -> Seq<Position>
    decreases steps.len(),
{
    if steps.len() == 0 {
        start
    } else {
        let before = body_after(start, steps.drop_last());
        let moved = shifted(before, before[0].spec_step(steps.last().0));
        if steps.last().1 {
            moved.push(before.last())
        } else {
            moved
        }
    }
}

/// The number of steps of a run in which the snake eats.
pub open spec fn meals(steps: Seq<(Direction, bool)>) -> nat
    decreases steps.len(),
{
    if steps.len() == 0 {
        0
    } else {
        meals(steps.drop_last()) + if steps.last().1 {
            1nat
        } else {
            0nat
        }
    }
}

/// A snake grows by exactly one segment per meal and by nothing else: after
/// any run of steps its length is the length it started with plus the number
/// of meals. From a fresh snake that is 2 plus the number of meals.
pub proof fn lemma_length_counts_meals(start: Seq<Position>, steps: Seq<(Direction, bool)>)
    requires
        start.len() >= 1,
    ensures
        body_after(start, steps).len() == start.len() + meals(steps),
        start == spawn_body() ==> body_after(start, steps).len() == 2 + meals(steps),
    decreases steps.len(),
{
    if steps.len() > 0 {
        lemma_length_counts_meals(start, steps.drop_last());
    }
}

/// A segment gained by eating lies on the cell that the tail held before the
/// step, and the segments ahead of it are the shifted body: the old tail
/// segment now sits on the cell of the segment that was ahead of it, so the
/// new segment overlaps none that moved there in this step.
pub proof fn lemma_growth_lands_on_old_tail(body: Seq<Position>, heading: Direction)
    requires
        body.len() >= 1,
    ensures
        body_after(body, seq![(heading, true)]) == shifted(body, body[0].spec_step(heading)).push(
            body.last(),
        ),
        body_after(body, seq![(heading, true)]).len() == body.len() + 1,
        body_after(body, seq![(heading, true)]).last() == body.last(),
        body_after(body, seq![(heading, true)]).drop_last() == shifted(
            body,
            body[0].spec_step(heading),
        ),
        body_after(body, seq![(heading, false)]) == shifted(body, body[0].spec_step(heading)),
{
    let eat = seq![(heading, true)];
    let pass = seq![(heading, false)];
    assert(eat.drop_last() =~= Seq::<(Direction, bool)>::empty());
    assert(pass.drop_last() =~= Seq::<(Direction, bool)>::empty());
    reveal_with_fuel(body_after, 3);
    let moved = shifted(body, body[0].spec_step(heading));
    assert(moved.push(body.last()).drop_last() =~= moved);
}

#[derive(Debug)]
pub struct Snake {
    segments: Vec<Position>,
    head: SnakeHead,
    pending_direction: Direction,
    last_tail_position: LastTailPosition,
}

impl Snake {
    /// The body, head first.
    pub closed spec fn body(&self) -> Seq<Position> {
        self.segments@
    }

    /// The committed heading.
    pub closed spec fn heading(&self) -> Direction {
        self.head.direction
    }

    /// The heading requested since the last step.
    pub closed spec fn pending(&self) -> Direction {
        self.pending_direction
    }

    /// The cell the tail left in the last step.
    pub closed spec fn last_tail(&self) -> Option<Position> {
        self.last_tail_position.0
    }

    /// A snake always has a head.
    pub open spec fn wf(&self) -> bool {
        self.body().len() >= 1
    }

    /// The heading that the next step will commit.
    pub open spec fn next_heading(&self) -> Direction {
        resolve_heading(self.heading(), self.pending())
    }

    /// The cell that the next step moves the head to.
    pub open spec fn next_head(&self) -> Position {
        self.body()[0].spec_step(self.next_heading())
    }

    /// Whether the next step stays within representable coordinates.
    pub open spec fn can_advance(&self) -> bool {
        self.body()[0].can_step(self.next_heading())
    }

    /// Whether the head lies one step in the committed heading from the
    /// segment behind it, where there is one.
    pub open spec fn faces_forward(&self) -> bool {
        self.body().len() >= 2 ==> {
            &&& self.body()[0].x == self.body()[1].x + self.heading().dx()
            &&& self.body()[0].y == self.body()[1].y + self.heading().dy()
        }
    }

    /// Whether the snake is exactly as a reset leaves it.
    pub open spec fn is_fresh(&self) -> bool {
        &&& self.body() == spawn_body()
        &&& self.heading() == Direction::Up
        &&& self.pending() == Direction::Up
        &&& self.last_tail() is None
    }

    /// A two-segment snake at `(3, 3)` and `(3, 2)`, heading Up.
    pub fn new() -> (s: Snake)
        ensures
            s.wf(),
            s.is_fresh(),
            s.faces_forward(),
    {
        let mut segments: Vec<Position> = Vec::new();
        segments.push(Position { x: 3, y: 3 });
        segments.push(Position { x: 3, y: 2 });
        assert(segments@ =~= spawn_body());
        Snake {
            segments,
            head: SnakeHead { direction: Direction::Up },
            pending_direction: Direction::Up,
            last_tail_position: LastTailPosition(None),
        }
    }

    /// A snake with the given body, head first, heading `direction`. There is
    /// no snake without a head: an empty body gives `None`.
    pub fn with_body(segments: Vec<Position>, direction: Direction) -> (r: Option<Snake>)
        ensures
            r is Some <==> segments@.len() >= 1,
            r is Some ==> {
                &&& r->Some_0.wf()
                &&& r->Some_0.body() == segments@
                &&& r->Some_0.heading() == direction
                &&& r->Some_0.pending() == direction
                &&& r->Some_0.last_tail() is None
            },
    {
        if segments.len() == 0 {
            None
        } else {
            Some(
                Snake {
                    segments,
                    head: SnakeHead { direction },
                    pending_direction: direction,
                    last_tail_position: LastTailPosition(None),
                },
            )
        }
    }

    /// Records the requested heading. The latest request before a step wins.
    pub fn set_pending_direction(&mut self, d: Direction)
        ensures
            final(self).pending() == d,
            final(self).body() == old(self).body(),
            final(self).heading() == old(self).heading(),
            final(self).last_tail() == old(self).last_tail(),
    {
        self.pending_direction = d;
    }

    /// One step. The requested heading is committed unless it reverses the
    /// current one; the head moves one cell in the committed heading and the
    /// body follows. The outcome reports the new head, whether it left the
    /// board, whether it hit the body, and the cell that the tail vacated.
    /// The cell that the tail vacates in this step is free to move onto.
    pub fn advance(&mut self, board: &Board) -> (out: AdvanceOutcome)
        requires
            old(self).wf(),
            old(self).can_advance(),
        ensures
            final(self).wf(),
            final(self).heading() == old(self).next_heading(),
            old(self).pending() == old(self).heading().spec_opposite() ==> final(self).heading()
                == old(self).heading(),
            old(self).pending() != old(self).heading().spec_opposite() ==> final(self).heading()
                == old(self).pending(),
            final(self).pending() == final(self).heading(),
            final(self).body() == shifted(old(self).body(), old(self).next_head()),
            final(self).body().len() == old(self).body().len(),
            final(self).body()[0].x == old(self).body()[0].x + final(self).heading().dx(),
            final(self).body()[0].y == old(self).body()[0].y + final(self).heading().dy(),
            forall|i: int|
                1 <= i < old(self).body().len() ==> #[trigger] final(self).body()[i] == old(self).body()[i - 1],
            final(self).last_tail() == Some(old(self).body().last()),
            is_chain(old(self).body()) ==> is_chain(final(self).body()),
            final(self).faces_forward(),
            out.new_head == final(self).body()[0],
            out.new_head == old(self).next_head(),
            out.out_of_bounds == !board.spec_contains(out.new_head),
            out.self_collision == old(self).body().drop_last().contains(out.new_head),
            out.self_collision == (exists|i: int|
                1 <= i < final(self).body().len() && #[trigger] final(self).body()[i]
                    == out.new_head),
            out.last_tail_position == old(self).body().last(),
    {
        let current = self.head.direction;
        let committed = if self.pending_direction != current.opposite() {
            self.pending_direction
        } else {
            current
        };
        let new_head = self.segments[0].step(committed);
        let n = self.segments.len();
        let tail = self.segments[n - 1];
        let mut moved: Vec<Position> = Vec::new();
        moved.push(new_head);
        let mut hit = false;
        let mut i: usize = 0;
        while i < n - 1
            invariant
                n == self.segments@.len(),
                n >= 1,
                i <= n - 1,
                moved@ == seq![new_head] + self.segments@.subrange(0, i as int),
                hit == self.segments@.subrange(0, i as int).contains(new_head),
            decreases n - i,
        {
            let cell = self.segments[i];
            proof {
                let before = self.segments@.subrange(0, i as int);
                let after = self.segments@.subrange(0, i + 1);
                assert(after =~= before.push(cell));
                crate::components::lemma_push_contains(before, cell);
                assert(seq![new_head] + after =~= (seq![new_head] + before).push(cell));
            }
            if cell == new_head {
                hit = true;
            }
            moved.push(cell);
            i = i + 1;
        }
        proof {
            let prev = self.segments@;
            assert(prev.subrange(0, n - 1) =~= prev.drop_last());
            assert(moved@ == shifted(prev, new_head));
            lemma_shifted_body(prev, new_head);
            if is_chain(prev) {
                lemma_step_keeps_chain(prev, committed);
            }
        }
        self.segments = moved;
        self.head = SnakeHead { direction: committed };
        self.pending_direction = committed;
        self.last_tail_position = LastTailPosition(Some(tail));
        AdvanceOutcome {
            new_head,
            out_of_bounds: !board.contains(new_head),
            self_collision: hit,
            last_tail_position: tail,
        }
    }

    /// Appends one tail segment at `p`.
    pub fn grow_at(&mut self, p: Position)
        ensures
            final(self).body() == old(self).body().push(p),
            old(self).body().len() >= 2 && old(self).faces_forward() ==> final(self).faces_forward(),
            final(self).body().len() == old(self).body().len() + 1,
            final(self).heading() == old(self).heading(),
            final(self).pending() == old(self).pending(),
            final(self).last_tail() == old(self).last_tail(),
    {
        self.segments.push(p);
    }

    /// Replaces the snake by a fresh one, whatever it was before.
    pub fn reset(&mut self)
        ensures
            final(self).wf(),
            final(self).is_fresh(),
            final(self).faces_forward(),
    {
        *self = Snake::new();
    }

    /// The body, head first.
    pub fn segments(&self) -> (cells: &Vec<Position>)
        ensures
            cells@ == self.body(),
    {
        &self.segments
    }

    /// The head cell.
    pub fn head_position(&self) -> (p: Position)
        requires
            self.wf(),
        ensures
            p == self.body()[0],
    {
        self.segments[0]
    }

    /// The number of segments.
    pub fn len(&self) -> (n: usize)
        ensures
            n == self.body().len(),
    {
        self.segments.len()
    }

    /// The committed heading.
    pub fn direction(&self) -> (d: Direction)
        ensures
            d == self.heading(),
    {
        self.head.direction
    }

    /// The heading requested since the last step.
    pub fn pending_direction(&self) -> (d: Direction)
        ensures
            d == self.pending(),
    {
        self.pending_direction
    }

    /// The cell that the tail left in the last step.
    pub fn last_tail_position(&self) -> (t: LastTailPosition)
        ensures
            t.0 == self.last_tail(),
    {
        self.last_tail_position
    }
}

/// Ignoring a reversal keeps the head off the segment right behind it: a
/// snake whose head faces away from that segment never steps onto it,
/// whatever heading was requested.
pub proof fn lemma_step_never_hits_neck(s: Snake)
    requires
        s.wf(),
        s.body().len() >= 2,
        s.faces_forward(),
        s.can_advance(),
    ensures
        s.next_heading() != s.heading().spec_opposite(),
        s.next_head() != s.body()[1],
{
}

} // verus!
