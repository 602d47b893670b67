//! The orchestrator: owns board, snake, food and clock, and plays one round
//! after another.

use vstd::prelude::*;
use crate::board::{Board, GameError};
use crate::clock::TickClock;
use crate::components::{Direction, Position};
use crate::food::Food;
use crate::snake::{
    body_after, is_chain, lemma_growth_lands_on_old_tail, lemma_spawn_body_is_simple_chain,
    lemma_step_keeps_chain, lemma_step_keeps_segments_apart, lemma_step_never_hits_neck, shifted,
    spawn_body, AdvanceOutcome, Snake,
};

verus! {

/// Whether a round is being played or has just been lost.
#[derive(PartialEq, Eq, Structural, Copy, Clone, Debug)]
pub enum RoundState {
    Playing,
    Ended,
}

/// The snake ate and grew by one segment.
#[derive(Copy, Clone, Debug)]
pub struct GrowthEvent;

/// A new food cell was asked for.
#[derive(Copy, Clone, Debug)]
pub struct FoodSpawnEvent;

/// The snake left the board or ran into itself; the round was restarted.
#[derive(Copy, Clone, Debug)]
pub struct GameOverEvent;

/// What one step did: the snake's move and the events that it raised.
#[derive(Copy, Clone, Debug)]
pub struct StepReport {
    pub outcome: AdvanceOutcome,
    pub game_over: Option<GameOverEvent>,
    pub growth: Option<GrowthEvent>,
    pub food_spawn: Option<FoodSpawnEvent>,
}

#[derive(Debug)]
pub struct Game {
    board: Board,
    snake: Snake,
    food: Food,
    clock: TickClock,
    state: RoundState,
}

/// How a pending food request comes out, given the food before it was
/// looked at and the cells that the snake holds: without a request nothing
/// changes; with one, the food lands on a free cell, or, where no cell is
/// free, nothing changes and the request stays.
pub open spec fn spawn_settled(
    cell_before: Option<Position>,
    awaited: bool,
    board: Board,
    body: Seq<Position>,
    after: Food,
) -> bool {
    if !awaited {
        after.cell() == cell_before && !after.awaits_spawn()
    } else if forall|p: Position| !board.is_free(body, p) {
        after.cell() == cell_before && after.awaits_spawn()
    } else {
        &&& after.cell() is Some
        &&& board.is_free(body, after.cell()->Some_0)
        &&& !after.awaits_spawn()
    }
}

impl Game {
    pub closed spec fn board(&self) -> Board {
        self.board
    }

    pub closed spec fn snake(&self) -> Snake {
        self.snake
    }

    pub closed spec fn food(&self) -> Food {
        self.food
    }

    pub closed spec fn clock(&self) -> TickClock {
        self.clock
    }

    pub closed spec fn state(&self) -> RoundState {
        self.state
    }

    /// Board and clock are as their constructors leave them.
    pub open spec fn configured(&self) -> bool {
        self.board().wf() && self.clock().wf()
    }

    /// Between two calls a round is being played, the snake has at least two
    /// segments and a head that can move in any heading and faces away from
    /// the segment behind it, its segments form a chain and no two of them
    /// share a cell, and the food, if any, lies on a cell of the board that
    /// the snake does not hold.
    pub open spec fn wf(&self) -> bool {
        &&& self.configured()
        &&& self.state() == RoundState::Playing
        &&& self.snake().wf()
        &&& self.snake().body()[0].is_inner()
        &&& self.snake().body().len() >= 2
        &&& self.snake().faces_forward()
        &&& is_chain(self.snake().body())
        &&& self.snake().body().no_duplicates()
        &&& self.food().cell() is Some ==> self.board().is_free(
            self.snake().body(),
            self.food().cell()->Some_0,
        )
    }

    /// The next step takes the head off the board.
    pub open spec fn next_out_of_bounds(&self) -> bool {
        !self.board().spec_contains(self.snake().next_head())
    }

    /// The next step takes the head onto a cell that the body keeps.
    pub open spec fn next_self_collision(&self) -> bool {
        self.snake().body().drop_last().contains(self.snake().next_head())
    }

    /// The next step ends the round.
    pub open spec fn next_fatal(&self) -> bool {
        self.next_out_of_bounds() || self.next_self_collision()
    }

    /// The next step takes the head onto the food.
    pub open spec fn next_eats(&self) -> bool {
        !self.next_fatal() && self.food().cell() == Some(self.snake().next_head())
    }

    /// The body after the next step: a fresh snake where the step is fatal;
    /// else the shifted body, with the vacated tail cell appended where the
    /// snake eats.
    pub open spec fn next_body(&self) -> Seq<Position> {
        let moved = shifted(self.snake().body(), self.snake().next_head());
        if self.next_fatal() {
            spawn_body()
        } else if self.next_eats() {
            moved.push(self.snake().body().last())
        } else {
            moved
        }
    }

    /// The food cell after the snake's part of the next step.
    pub open spec fn next_food_cell(&self) -> Option<Position> {
        if self.next_fatal() || self.next_eats() {
            None
        } else {
            self.food().cell()
        }
    }

    /// Whether a food request is pending after the snake's part of the next
    /// step.
    pub open spec fn next_awaits_spawn(&self) -> bool {
        self.food().awaits_spawn() || self.next_fatal() || self.next_eats()
    }

    /// What a step reports and what it does to the snake, the board and the
    /// round state, as a relation between the game before and after.
    pub open spec fn snake_stepped(pre: Game, post: Game, report: StepReport) -> bool {
        &&& post.board() == pre.board()
        &&& post.state() == RoundState::Playing
        &&& report.outcome.new_head == pre.snake().next_head()
        &&& report.outcome.out_of_bounds == pre.next_out_of_bounds()
        &&& report.outcome.self_collision == pre.next_self_collision()
        &&& report.outcome.last_tail_position == pre.snake().body().last()
        &&& report.game_over is Some <==> pre.next_fatal()
        &&& report.growth is Some <==> pre.next_eats()
        &&& report.food_spawn is Some <==> (pre.next_fatal() || pre.next_eats())
        &&& post.snake().body() == pre.next_body()
        &&& post.snake().heading() == (if pre.next_fatal() {
            Direction::Up
        } else {
            pre.snake().next_heading()
        })
        &&& post.snake().pending() == post.snake().heading()
        &&& post.snake().last_tail() == (if pre.next_fatal() {
            None
        } else {
            Some(pre.snake().body().last())
        })
    }

    /// A step without its food placement: the snake's part, and the food
    /// eaten or cleared, with a request left pending where one was raised.
    pub open spec fn round_played(pre: Game, post: Game, report: StepReport) -> bool {
        &&& Game::snake_stepped(pre, post, report)
        &&& post.food().cell() == pre.next_food_cell()
        &&& post.food().awaits_spawn() == pre.next_awaits_spawn()
    }

    /// A whole step: the snake's part, then the pending food request settled
    /// against the body as the step left it.
    pub open spec fn stepped(pre: Game, post: Game, report: StepReport) -> bool {
        &&& Game::snake_stepped(pre, post, report)
        &&& spawn_settled(
            pre.next_food_cell(),
            pre.next_awaits_spawn(),
            pre.board(),
            pre.next_body(),
            post.food(),
        )
    }

    /// A game at the start of its first round: a fresh snake, no food, a
    /// food request pending, nothing gathered on the clock. A board
    /// dimension of 1 or less, or a tick interval of zero, is refused, and
    /// then no game is made.
    pub fn new_game(width: i32, height: i32, tick_interval_ms: u64) -> (r: Result<Game, GameError>)
        ensures
            r is Ok <==> (width > 1 && height > 1 && tick_interval_ms > 0),
            r is Err ==> r->Err_0 == GameError::InvalidConfiguration,
            r is Ok ==> {
                let g = r->Ok_0;
                &&& g.wf()
                &&& g.board().spec_width() == width
                &&& g.board().spec_height() == height
                &&& g.clock().interval() == tick_interval_ms
                &&& g.clock().elapsed() == 0
                &&& g.snake().is_fresh()
                &&& g.food().cell() is None
                &&& g.food().awaits_spawn()
            },
    {
        let board = match Board::new(width, height) {
            Ok(b) => b,
            Err(e) => {
                return Err(e);
            },
        };
        let clock = match TickClock::new(tick_interval_ms) {
            Ok(c) => c,
            Err(e) => {
                return Err(e);
            },
        };
        let mut food = Food::new();
        food.request_spawn();
        proof {
            lemma_spawn_body_is_simple_chain();
        }
        Ok(Game { board, snake: Snake::new(), food, clock, state: RoundState::Playing })
    }

    /// Starts a round afresh, whatever the state was: a fresh snake, the
    /// food removed, a food request pending. Board and clock stay.
    pub fn reset_round(&mut self)
        requires
            old(self).configured(),
        ensures
            final(self).wf(),
            final(self).board() == old(self).board(),
            final(self).clock() == old(self).clock(),
            final(self).state() == RoundState::Playing,
            final(self).snake().is_fresh(),
            final(self).food().cell() is None,
            final(self).food().awaits_spawn(),
    {
        proof {
            lemma_spawn_body_is_simple_chain();
        }
        self.snake.reset();
        self.food.clear();
        self.food.request_spawn();
        self.state = RoundState::Playing;
    }

    /// Hands the requested heading to the snake. The latest request before a
    /// step wins.
    pub fn set_direction(&mut self, d: Direction)
        ensures
            final(self).snake().pending() == d,
            final(self).snake().body() == old(self).snake().body(),
            final(self).snake().heading() == old(self).snake().heading(),
            final(self).snake().last_tail() == old(self).snake().last_tail(),
            final(self).board() == old(self).board(),
            final(self).food() == old(self).food(),
            final(self).clock() == old(self).clock(),
            final(self).state() == old(self).state(),
            old(self).wf() ==> final(self).wf(),
    {
        self.snake.set_pending_direction(d);
    }

    /// The snake's part of a step: it moves; where it leaves the board or
    /// runs into itself the round ends and is restarted at once; else where
    /// its head reaches the food it eats, grows by one segment on the cell
    /// that its tail just left, and a new food cell is asked for.
    pub fn advance_round(&mut self) -> (report: StepReport)
        requires
            old(self).wf(),
        ensures
            final(self).wf(),
            final(self).clock() == old(self).clock(),
            Game::round_played(*old(self), *final(self), report),
    {
        let ghost pre = *self;
        let board = self.board;
        let out = self.snake.advance(&board);
        if out.out_of_bounds || out.self_collision {
            self.state = RoundState::Ended;
            self.reset_round();
            return StepReport {
                outcome: out,
                game_over: Some(GameOverEvent),
                growth: None,
                food_spawn: Some(FoodSpawnEvent),
            };
        }
        proof {
            let before = pre.snake().body();
            let moved = self.snake.body();
            lemma_step_keeps_chain(before, pre.snake().next_heading());
            lemma_step_keeps_segments_apart(before, out.new_head);
            if pre.food().cell() == Some(out.new_head) {
                assert(before.contains(before.last()));
            }
            assert forall|q: Position| moved.contains(q) implies q == out.new_head
                || before.contains(q) by {
                let k = choose|k: int| 0 <= k < moved.len() && moved[k] == q;
                if k > 0 {
                    assert(moved[k] == before[k - 1]);
                }
            }
        }
        let eaten = self.food.try_consume(out.new_head);
        if eaten {
            self.snake.grow_at(out.last_tail_position);
            self.food.request_spawn();
            StepReport {
                outcome: out,
                game_over: None,
                growth: Some(GrowthEvent),
                food_spawn: Some(FoodSpawnEvent),
            }
        } else {
            StepReport { outcome: out, game_over: None, growth: None, food_spawn: None }
        }
    }

    /// Places the food on `cell` where a request is pending and `cell` is a
    /// cell of the board that the snake does not hold; says whether it did.
    /// Otherwise nothing changes.
    pub fn spawn_food_at(&mut self, cell: Position) -> (placed: bool)
        requires
            old(self).wf(),
        ensures
            final(self).wf(),
            placed == (old(self).food().awaits_spawn() && old(self).board().is_free(
                old(self).snake().body(),
                cell,
            )),
            placed ==> final(self).food().cell() == Some(cell) && !final(self).food().awaits_spawn(),
            !placed ==> final(self).food() == old(self).food(),
            final(self).snake() == old(self).snake(),
            final(self).board() == old(self).board(),
            final(self).clock() == old(self).clock(),
            final(self).state() == old(self).state(),
    {
        if !self.food.spawn_pending() || !self.board.contains(cell)
            || crate::components::contains_position(self.snake.segments(), cell) {
            return false;
        }
        let mut chosen: Vec<Position> = Vec::new();
        chosen.push(cell);
        let settled = self.food.settle_spawn(&chosen, Some(0));
        settled.is_ok()
    }

    /// One whole step: the snake's part, then a pending food request is
    /// settled with a cell drawn at random among those that the snake does
    /// not hold. Where the snake holds every cell the request stays pending
    /// for a later step.
    pub fn step(&mut self) -> (report: StepReport)
        requires
            old(self).wf(),
        ensures
            final(self).wf(),
            final(self).clock() == old(self).clock(),
            Game::stepped(*old(self), *final(self), report),
    {
        let report = self.advance_round();
        // A full board is no failure: the request stays pending for a later step.
        let _pending = self.food.resolve_spawn(&self.board, self.snake.segments());
        report
    }

    /// Gathers `elapsed_ms` on the clock and makes one step if one is due.
    /// Without a due step only the clock changes.
    pub fn tick(&mut self, elapsed_ms: u64) -> (r: Option<StepReport>)
        requires
            old(self).wf(),
            old(self).clock().can_take(elapsed_ms),
        ensures
            final(self).wf(),
            final(self).clock().interval() == old(self).clock().interval(),
            final(self).clock().elapsed() == old(self).clock().elapsed_after(elapsed_ms),
            r is Some <==> old(self).clock().due_after(elapsed_ms),
            r is Some ==> Game::stepped(*old(self), *final(self), r->Some_0),
            r is None ==> {
                &&& final(self).snake() == old(self).snake()
                &&& final(self).food() == old(self).food()
                &&& final(self).board() == old(self).board()
                &&& final(self).state() == old(self).state()
            },
    {
        if self.clock.tick(elapsed_ms) {
            Some(self.step())
        } else {
            None
        }
    }

    /// Whether the clock can gather `elapsed_ms` more: what `tick` asks of
    /// its caller.
    pub fn can_tick(&self, elapsed_ms: u64) -> (ok: bool)
        ensures
            ok == self.clock().can_take(elapsed_ms),
    {
        self.clock.has_room_for(elapsed_ms)
    }

    /// The snake's cells, head first.
    pub fn snake_positions(&self) -> (cells: &Vec<Position>)
        ensures
            cells@ == self.snake().body(),
    {
        self.snake.segments()
    }

    /// The snake's committed heading.
    pub fn snake_direction(&self) -> (d: Direction)
        ensures
            d == self.snake().heading(),
    {
        self.snake.direction()
    }

    /// The food cell, if there is food.
    pub fn food_position(&self) -> (p: Option<Position>)
        ensures
            p == self.food().cell(),
    {
        self.food.position()
    }

    /// Whether a food request is pending.
    pub fn food_pending(&self) -> (b: bool)
        ensures
            b == self.food().awaits_spawn(),
    {
        self.food.spawn_pending()
    }

    /// Width and height of the board.
    pub fn board_size(&self) -> (size: (i32, i32))
        ensures
            size.0 == self.board().spec_width(),
            size.1 == self.board().spec_height(),
    {
        (self.board.width(), self.board.height())
    }

    pub fn round_state(&self) -> (s: RoundState)
        ensures
            s == self.state(),
    {
        self.state
    }
}

/// A step that does not end the round is one step of a run as `body_after`
/// describes it, with the heading that the snake commits and with a meal
/// exactly where the head reaches the food. A step that ends the round
/// leaves a fresh body of two segments.
pub proof fn lemma_step_is_one_move(g: Game)
    requires
        g.wf(),
    ensures
        !g.next_fatal() ==> g.next_body() == body_after(
            g.snake().body(),
            seq![(g.snake().next_heading(), g.next_eats())],
        ),
        !g.next_fatal() ==> g.next_body().len() == g.snake().body().len() + (if g.next_eats() {
            1int
        } else {
            0int
        }),
        g.next_fatal() ==> g.next_body() == spawn_body() && g.next_body().len() == 2,
{
    lemma_growth_lands_on_old_tail(g.snake().body(), g.snake().next_heading());
}

/// In a game the head can always move, and no requested heading takes it
/// back onto the segment right behind it: a reversal never ends a round.
pub proof fn lemma_round_never_ends_by_reversal(g: Game)
    requires
        g.wf(),
    ensures
        g.snake().can_advance(),
        g.snake().next_head() != g.snake().body()[1],
{
    lemma_step_never_hits_neck(g.snake());
}

} // verus!
