//! The game state and its transitions: timed movement, eating, collision,
//! steering and restart.
use vstd::prelude::*;

use crate::grid::{
    all_in_bounds, cells_distinct, in_bounds, lemma_distinct_cells_fit, step, update_pos, Dir,
    Point, GRID_CELLS,
};
use crate::random::random_cell;

verus! {

/// Milliseconds that must accumulate before the snake moves one cell.
pub const UPDATE_RATE: u64 = 30;

/// Length of the snake when a game starts.
pub const INITIAL_LEN: usize = 30;

/// Points gained for each food eaten.
pub const FOOD_SCORE: u32 = 10;

/// Key code that asks to quit.
pub const KEY_QUIT: u32 = 1;

/// Key code that starts a new game once the current one is over.
pub const KEY_RESTART: u32 = 2;

/// Key code that steers up.
pub const KEY_UP: u32 = 103;

/// Key code that steers left.
pub const KEY_LEFT: u32 = 105;

/// Key code that steers right.
pub const KEY_RIGHT: u32 = 106;

/// Key code that steers down.
pub const KEY_DOWN: u32 = 108;

/// Whether the game goes on or has ended in a collision.
#[derive(Clone, Copy, Debug, PartialEq, Eq, Structural)]
pub enum Status {
    Over,
    Ongoing,
}

/// The mathematical model of a game.
pub struct GameView {
    /// The snake's cells, head first.
    pub snake: Seq<Point>,
    /// The direction of the next move.
    pub dir: Dir,
    /// The one direction that steering may not choose: back into the neck.
    pub lock_dir: Dir,
    pub food: Point,
    pub score: nat,
    pub status: Status,
    /// Milliseconds accumulated towards the next move.
    pub clock: nat,
}

/// The snake of a new game: a column of cells at the left edge, head at the top.
pub open spec fn initial_snake() -> Seq<Point> {
    Seq::new(INITIAL_LEN as nat, |i: int| Point { x: 0, y: i as i32 })
}

/// A new game, with its food at `food`.
pub open spec fn initial_view(food: Point) -> GameView {
    GameView {
        snake: initial_snake(),
        dir: Dir::Right,
        lock_dir: Dir::Left,
        food,
        score: 0,
        status: Status::Ongoing,
        clock: 0,
    }
}

/// The snake moved one cell along `d`: a new head in front, the tail cell gone.
pub open spec fn advanced(s: Seq<Point>, d: Dir) -> Seq<Point> {
    seq![step(s[0], d)] + s.drop_last()
}

/// The snake grown by one cell along `d`: a new head in front, nothing gone.
pub open spec fn extended(s: Seq<Point>, d: Dir) -> Seq<Point> {
    seq![step(s[0], d)] + s
}

/// The direction that a key steers to, if it is a steering key.
pub open spec fn key_dir(code: u32) -> Option<Dir> {
    if code == KEY_UP {
        Some(Dir::Up)
    } else if code == KEY_RIGHT {
        Some(Dir::Right)
    } else if code == KEY_DOWN {
        Some(Dir::Down)
    } else if code == KEY_LEFT {
        Some(Dir::Left)
    } else {
        None
    }
}

impl GameView {
    /// The states a game can reach: cells on the board, a snake that is at
    /// least as long as at the start and without repeated cells while the
    /// game goes on, the locked direction opposite the current one, a clock
    /// below the move threshold, and the score earned by the growth so far.
    pub open spec fn wf(self) -> bool {
        &&& self.snake.len() >= INITIAL_LEN
        &&& all_in_bounds(self.snake)
        &&& in_bounds(self.food)
        &&& self.lock_dir == self.dir.reverse()
        &&& self.clock <= UPDATE_RATE
        &&& self.score == FOOD_SCORE * (self.snake.len() - INITIAL_LEN)
        &&& self.status == Status::Ongoing ==> self.snake.no_duplicates()
    }

    /// Whether `elapsed` more milliseconds bring the clock past the threshold.
    pub open spec fn ticks(self, elapsed: nat) -> bool {
        self.clock + elapsed > UPDATE_RATE
    }

    /// The snake after the timed move, if one is due.
    pub open spec fn moved(self, elapsed: nat) -> Seq<Point> {
        if self.ticks(elapsed) {
            advanced(self.snake, self.dir)
        } else {
            self.snake
        }
    }

    /// Whether the head lands on the food in this update.
    pub open spec fn eats(self, elapsed: nat) -> bool {
        self.moved(elapsed)[0] == self.food
    }

    /// The snake at the end of this update.
    pub open spec fn grown(self, elapsed: nat) -> Seq<Point> {
        if self.eats(elapsed) {
            extended(self.moved(elapsed), self.dir)
        } else {
            self.moved(elapsed)
        }
    }

    /// The game after `elapsed` milliseconds, with `fresh` as the place of
    /// new food should the current food be eaten. A game that is over stays
    /// as it is.
    pub open spec fn next(self, elapsed: nat, fresh: Point) -> GameView {
        if self.status == Status::Over {
            self
        } else {
            let snake = self.grown(elapsed);
            GameView {
                snake,
                food: if self.eats(elapsed) {
                    fresh
                } else {
                    self.food
                },
                score: if self.eats(elapsed) {
                    self.score + FOOD_SCORE as nat
                } else {
                    self.score
                },
                status: if snake.no_duplicates() {
                    Status::Ongoing
                } else {
                    Status::Over
                },
                clock: if self.ticks(elapsed) {
                    0
                } else {
                    self.clock + elapsed
                },
                ..self
            }
        }
    }

    /// The game after a request to head along `d`, which is refused where
    /// `d` is the locked direction.
    pub open spec fn turned(self, d: Dir) -> GameView {
        if d == self.lock_dir {
            self
        } else {
            GameView { dir: d, lock_dir: d.reverse(), ..self }
        }
    }

    /// The game after key `code` is pressed, with `fresh` as the food of a
    /// new game should one start.
    pub open spec fn after_key(self, code: u32, fresh: Point) -> GameView {
        if self.status == Status::Ongoing {
            match key_dir(code) {
                Some(d) => self.turned(d),
                None => self,
            }
        } else if code == KEY_RESTART {
            initial_view(fresh)
        } else {
            self
        }
    }
}

/// A new game is a reachable state.
pub proof fn lemma_initial_wf(food: Point)
    requires
        in_bounds(food),
    ensures
        initial_view(food).wf(),
{
    let s = initial_snake();
    assert forall|i: int, j: int| 0 <= i < s.len() && 0 <= j < s.len() && i != j implies s[i]
        != s[j] by {
        assert(s[i].y != s[j].y);
    }
}

/// An update keeps a game reachable.
pub proof fn lemma_next_wf(v: GameView, elapsed: nat, fresh: Point)
    requires
        v.wf(),
        in_bounds(fresh),
    ensures
        v.next(elapsed, fresh).wf(),
{
    if v.status == Status::Ongoing {
        lemma_distinct_cells_fit(v.snake);
        let m = v.moved(elapsed);
        assert(m.len() == v.snake.len());
        assert(all_in_bounds(m));
        let g = v.grown(elapsed);
        assert(all_in_bounds(g));
    }
}

/// A steering or restart key keeps a game reachable.
pub proof fn lemma_after_key_wf(v: GameView, code: u32, fresh: Point)
    requires
        v.wf(),
        in_bounds(fresh),
    ensures
        v.after_key(code, fresh).wf(),
{
    lemma_initial_wf(fresh);
}

/// A game in progress or ended.
pub struct State {
    snake: Vec<Point>,
    dir: Dir,
    lock_dir: Dir,
    food: Point,
    score: u32,
    status: Status,
    clock: u64,
}

impl View for State {
    type V = GameView;

    closed spec fn view(&self) -> GameView {
        GameView {
            snake: self.snake@,
            dir: self.dir,
            lock_dir: self.lock_dir,
            food: self.food,
            score: self.score as nat,
            status: self.status,
            clock: self.clock as nat,
        }
    }
}

impl State {
    /// The state is one that a game can reach.
    pub open spec fn wf(&self) -> bool {
        self@.wf()
    }

    /// A new game with its food at `food`.
    pub fn with_food(food: Point) -> (s: State)
        requires
            in_bounds(food),
        ensures
            s@ == initial_view(food),
            s.wf(),
    {
        let mut snake: Vec<Point> = Vec::new();
        let mut i: usize = 0;
        while i < INITIAL_LEN
            invariant
                i <= INITIAL_LEN,
                snake@ == Seq::new(i as nat, |k: int| Point { x: 0, y: k as i32 }),
            decreases INITIAL_LEN - i,
        {
            snake.push(Point { x: 0, y: i as i32 });
            i = i + 1;
        }
        let s = State {
            snake,
            dir: Dir::Right,
            lock_dir: Dir::Left,
            food,
            score: 0,
            status: Status::Ongoing,
            clock: 0,
        };
        proof {
            assert(s@.snake == initial_snake());
            lemma_initial_wf(food);
        }
        s
    }

    /// A new game with its food on a random cell.
    pub fn new() -> (s: State)
        ensures
            in_bounds(s@.food),
            s@ == initial_view(s@.food),
            s.wf(),
    {
        State::with_food(random_cell())
    }

    /// The snake's cells, head first.
    pub fn snake(&self) -> (r: &Vec<Point>)
        ensures
            r@ == self@.snake,
    {
        &self.snake
    }

    pub fn dir(&self) -> (r: Dir)
        ensures
            r == self@.dir,
    {
        self.dir
    }

    pub fn lock_dir(&self) -> (r: Dir)
        ensures
            r == self@.lock_dir,
    {
        self.lock_dir
    }

    pub fn food(&self) -> (r: Point)
        ensures
            r == self@.food,
    {
        self.food
    }

    pub fn score(&self) -> (r: u32)
        ensures
            r == self@.score,
    {
        self.score
    }

    pub fn status(&self) -> (r: Status)
        ensures
            r == self@.status,
    {
        self.status
    }

    pub fn is_over(&self) -> (r: bool)
        ensures
            r == (self@.status == Status::Over),
    {
        self.status == Status::Over
    }

    /// Lets `elapsed_ms` milliseconds pass. Once more than `UPDATE_RATE`
    /// have gathered the snake moves one cell and the clock restarts. A head
    /// on the food eats it: the score rises, the snake grows one cell ahead
    /// and the food moves to `fresh`. A snake that then covers a cell twice
    /// ends the game. A game that is over does not change.
    pub fn update_with(&mut self, elapsed_ms: u64, fresh: Point)
        requires
            old(self).wf(),
            in_bounds(fresh),
        ensures
            final(self)@ == old(self)@.next(elapsed_ms as nat, fresh),
            final(self).wf(),
    {
        proof {
            lemma_next_wf(self@, elapsed_ms as nat, fresh);
        }
        if self.status == Status::Over {
            return;
        }
        let ghost v = self@;
        proof {
            lemma_distinct_cells_fit(self.snake@);
        }
        if elapsed_ms > UPDATE_RATE - self.clock {
            self.clock = 0;
            let head = update_pos(self.snake[0], self.dir);
            let mut moved: Vec<Point> = Vec::new();
            moved.push(head);
            let n = self.snake.len() - 1;
            let mut i: usize = 0;
            while i < n
                invariant
                    n == self.snake@.len() - 1,
                    i <= n,
                    moved@ == seq![head] + self.snake@.subrange(0, i as int),
                decreases n - i,
            {
                moved.push(self.snake[i]);
                i = i + 1;
            }
            self.snake = moved;
        } else {
            self.clock = self.clock + elapsed_ms;
        }
        assert(self.snake@ == v.moved(elapsed_ms as nat));
        if self.snake[0] == self.food {
            self.score = self.score + FOOD_SCORE;
            let head = update_pos(self.snake[0], self.dir);
            self.snake.insert(0, head);
            self.food = fresh;
        }
        assert(self.snake@ == v.grown(elapsed_ms as nat));
        if !cells_distinct(&self.snake) {
            self.status = Status::Over;
        }
    }

    /// Lets `elapsed_ms` milliseconds pass, as `update_with` does, with new
    /// food on a random cell should the current food be eaten.
    pub fn update(&mut self, elapsed_ms: u64)
        requires
            old(self).wf(),
        ensures
            exists|fresh: Point|
                in_bounds(fresh) && final(self)@ == old(self)@.next(elapsed_ms as nat, fresh),
            final(self).wf(),
    {
        let fresh = random_cell();
        self.update_with(elapsed_ms, fresh);
    }

    /// Heads along `d` from the next move on, unless `d` is the locked
    /// direction, which would turn the snake back into itself.
    pub fn turn(&mut self, d: Dir)
        requires
            old(self).wf(),
        ensures
            final(self)@ == old(self)@.turned(d),
            final(self).wf(),
    {
        if self.lock_dir != d {
            self.dir = d;
            self.lock_dir = d.opposite();
        }
    }

    /// Starts a new game with its food at `fresh`.
    pub fn restart_with(&mut self, fresh: Point)
        requires
            in_bounds(fresh),
        ensures
            final(self)@ == initial_view(fresh),
            final(self).wf(),
    {
        *self = State::with_food(fresh);
    }

    /// Starts a new game with its food on a random cell.
    pub fn restart(&mut self)
        ensures
            in_bounds(final(self)@.food),
            final(self)@ == initial_view(final(self)@.food),
            final(self).wf(),
    {
        *self = State::new();
    }

    /// Handles key `code`, returning whether it asks to quit. While the game
    /// goes on the arrow keys steer; once it is over the restart key starts a
    /// new game with its food at `fresh`. The quit key works in both.
    pub fn key_down_with(&mut self, code: u32, fresh: Point) -> (quit: bool)
        requires
            old(self).wf(),
            in_bounds(fresh),
        ensures
            quit == (code == KEY_QUIT),
            final(self)@ == old(self)@.after_key(code, fresh),
            final(self).wf(),
            old(self)@.status == Status::Ongoing ==> final(self)@.dir != old(self)@.lock_dir,
    {
        proof {
            lemma_after_key_wf(self@, code, fresh);
        }
        if self.status == Status::Ongoing {
            match dir_for_key(code) {
                Some(d) => self.turn(d),
                None => {},
            }
        } else if code == KEY_RESTART {
            self.restart_with(fresh);
        }
        code == KEY_QUIT
    }

    /// Handles key `code` as `key_down_with` does, with the food of a new
    /// game on a random cell.
    pub fn key_down(&mut self, code: u32) -> (quit: bool)
        requires
            old(self).wf(),
        ensures
            quit == (code == KEY_QUIT),
            exists|fresh: Point|
                in_bounds(fresh) && final(self)@ == old(self)@.after_key(code, fresh),
            final(self).wf(),
            old(self)@.status == Status::Ongoing ==> final(self)@.dir != old(self)@.lock_dir,
    {
        let fresh = random_cell();
        self.key_down_with(code, fresh)
    }
}

impl Default for State {
    fn default() -> (s: State)
        ensures
            in_bounds(s@.food),
            s@ == initial_view(s@.food),
            s.wf(),
    {
        State::new()
    }
}

/// The direction that key `code` steers to, if any.
pub fn dir_for_key(code: u32) -> (r: Option<Dir>)
    ensures
        r == key_dir(code),
{
    if code == KEY_UP {
        Some(Dir::Up)
    } else if code == KEY_RIGHT {
        Some(Dir::Right)
    } else if code == KEY_DOWN {
        Some(Dir::Down)
    } else if code == KEY_LEFT {
        Some(Dir::Left)
    } else {
        None
    }
}

} // verus!
