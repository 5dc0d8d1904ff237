//! Properties of the game that hold over every reachable state.
use vstd::prelude::*;

use crate::game::{initial_snake, GameView, Status, INITIAL_LEN, KEY_RESTART};
use crate::grid::{all_in_bounds, in_bounds, step, Dir, Point, GRID_HEIGHT, GRID_WIDTH};

verus! {

/// The game after the updates `steps`, each an elapsed time and the place
/// of new food, applied in order.
pub open spec fn run(v: GameView, steps: Seq<(nat, Point)>) -> GameView
    decreases steps.len(),
{
    if steps.len() == 0 {
        v
    } else {
        run(v.next(steps[0].0, steps[0].1), steps.drop_first())
    }
}

/// Over one update the snake never shrinks and grows by at most one cell.
pub proof fn lemma_length_step(v: GameView, elapsed: nat, fresh: Point)
    requires
        v.wf(),
    ensures
        v.snake.len() <= v.next(elapsed, fresh).snake.len() <= v.snake.len() + 1,
{
}

/// A step from a cell of the board lands on the board, wrapping past the
/// right or bottom edge to the first column or row, and past the left or
/// top edge to the last.
pub proof fn lemma_step_wraps(p: Point, d: Dir)
    requires
        in_bounds(p),
    ensures
        in_bounds(step(p, d)),
        p.x + d.dx() == GRID_WIDTH ==> step(p, d).x == 0,
        p.x + d.dx() == -1 ==> step(p, d).x == GRID_WIDTH - 1,
        p.y + d.dy() == GRID_HEIGHT ==> step(p, d).y == 0,
        p.y + d.dy() == -1 ==> step(p, d).y == GRID_HEIGHT - 1,
        0 <= p.x + d.dx() < GRID_WIDTH && 0 <= p.y + d.dy() < GRID_HEIGHT ==> step(p, d)
            == (Point { x: (p.x + d.dx()) as i32, y: (p.y + d.dy()) as i32 }),
{
}

/// After an update every cell of the snake, its head first, lies on the board.
pub proof fn lemma_head_on_board(v: GameView, elapsed: nat, fresh: Point)
    requires
        v.wf(),
        in_bounds(fresh),
    ensures
        in_bounds(v.next(elapsed, fresh).snake[0]),
        all_in_bounds(v.next(elapsed, fresh).snake),
{
    crate::game::lemma_next_wf(v, elapsed, fresh);
}

/// A game that is over stays exactly as it is through any number of updates.
pub proof fn lemma_over_is_final(v: GameView, steps: Seq<(nat, Point)>)
    requires
        v.status == Status::Over,
    ensures
        run(v, steps) == v,
    decreases steps.len(),
{
    if steps.len() > 0 {
        lemma_over_is_final(v.next(steps[0].0, steps[0].1), steps.drop_first());
    }
}

/// While the game goes on, no key turns the snake to its locked direction.
pub proof fn lemma_no_reversal(v: GameView, code: u32, fresh: Point)
    requires
        v.wf(),
        v.status == Status::Ongoing,
    ensures
        v.after_key(code, fresh).dir != v.lock_dir,
{
}

/// Restarting an ended game gives a score of zero, a game that goes on and
/// the starting snake.
pub proof fn lemma_restart_resets(v: GameView, fresh: Point)
    requires
        v.status == Status::Over,
    ensures
        v.after_key(KEY_RESTART, fresh).score == 0,
        v.after_key(KEY_RESTART, fresh).status == Status::Ongoing,
        v.after_key(KEY_RESTART, fresh).snake == initial_snake(),
        v.after_key(KEY_RESTART, fresh).snake.len() == INITIAL_LEN,
        v.after_key(KEY_RESTART, fresh).dir == Dir::Right,
{
}

} // verus!
