use std::collections::VecDeque;
use vstd::prelude::*;

use crate::rng;
use vstd::arithmetic::power::pow;

verus! {

/// A cell of the board; `x` grows to the right and `y` grows downwards.
#[derive(Clone, Copy, PartialEq, Eq, Hash, Debug, Structural)]
pub struct Point {
    pub x: i32,
    pub y: i32,
}

/// A heading of the snake.
#[derive(Clone, Copy, PartialEq, Eq, Debug, Structural)]
pub enum Direction {
    Up,
    Down,
    Left,
    Right,
}

/// The step `(dx, dy)` that one move in direction `d` makes.
pub open spec fn spec_delta(d: Direction) -> (int, int) {
    match d {
        Direction::Up => (0, -1),
        Direction::Down => (0, 1),
        Direction::Left => (-1, 0),
        Direction::Right => (1, 0),
    }
}

/// Whether `a` and `b` point in opposite directions.
pub open spec fn spec_opposite(a: Direction, b: Direction) -> bool {
    spec_delta(a).0 + spec_delta(b).0 == 0 && spec_delta(a).1 + spec_delta(b).1 == 0
}

impl Direction {
    pub fn delta(self) -> (r: (i32, i32))
        ensures
            r.0 == spec_delta(self).0,
            r.1 == spec_delta(self).1,
    {
        match self {
            Direction::Up => (0, -1),
            Direction::Down => (0, 1),
            Direction::Left => (-1, 0),
            Direction::Right => (1, 0),
        }
    }

    pub fn is_opposite(self, other: Self) -> (r: bool)
        ensures
            r == spec_opposite(self, other),
    {
        match (self, other) {
            (Direction::Up, Direction::Down) => true,
            (Direction::Down, Direction::Up) => true,
            (Direction::Left, Direction::Right) => true,
            (Direction::Right, Direction::Left) => true,
            _ => false,
        }
    }
}

/// The rule set of a run: walls kill (`Classic`), edges wrap (`Wrap`), or
/// edges wrap and the snake may cross itself (`Zen`).
#[derive(Clone, Copy, PartialEq, Eq, Hash, Debug, Structural)]
pub enum GameMode {
    Classic,
    Wrap,
    Zen,
}

pub open spec fn spec_mode_label(m: GameMode) -> Seq<char> {
    match m {
        GameMode::Classic => "Classic"@,
        GameMode::Wrap => "Wrap"@,
        GameMode::Zen => "Zen"@,
    }
}

/// The cyclic order Classic -> Wrap -> Zen -> Classic.
pub open spec fn spec_mode_next(m: GameMode) -> GameMode {
    match m {
        GameMode::Classic => GameMode::Wrap,
        GameMode::Wrap => GameMode::Zen,
        GameMode::Zen => GameMode::Classic,
    }
}

pub open spec fn spec_mode_previous(m: GameMode) -> GameMode {
    match m {
        GameMode::Classic => GameMode::Zen,
        GameMode::Wrap => GameMode::Classic,
        GameMode::Zen => GameMode::Wrap,
    }
}

impl GameMode {
    pub fn label(self) -> (r: &'static str)
        ensures
            r@ == spec_mode_label(self),
    {
        match self {
            GameMode::Classic => "Classic",
            GameMode::Wrap => "Wrap",
            GameMode::Zen => "Zen",
        }
    }

    pub fn next(self) -> (r: Self)
        ensures
            r == spec_mode_next(self),
    {
        match self {
            GameMode::Classic => GameMode::Wrap,
            GameMode::Wrap => GameMode::Zen,
            GameMode::Zen => GameMode::Classic,
        }
    }

    pub fn previous(self) -> (r: Self)
        ensures
            r == spec_mode_previous(self),
    {
        match self {
            GameMode::Classic => GameMode::Zen,
            GameMode::Wrap => GameMode::Classic,
            GameMode::Zen => GameMode::Wrap,
        }
    }
}

/// High scores are kept apart per mode and per board size.
#[derive(Clone, Copy, PartialEq, Eq, Hash, Debug, Structural)]
pub struct HighScoreKey {
    pub mode: GameMode,
    pub grid_width: i32,
    pub grid_height: i32,
}

impl HighScoreKey {
    pub fn new(mode: GameMode, grid_width: i32, grid_height: i32) -> (r: Self)
        ensures
            r.mode == mode,
            r.grid_width == grid_width,
            r.grid_height == grid_height,
    {
        HighScoreKey { mode, grid_width, grid_height }
    }
}

/// Two foods eaten at most this many microseconds apart continue a combo.
pub const COMBO_WINDOW_MICROS: u64 = 2_500_000;

/// The combo multiplier never exceeds this value.
pub const COMBO_MAX_MULTIPLIER: u32 = 5;

/// Each point of score multiplies the step duration by
/// `DIFFICULTY_RAMP_NUMERATOR / DIFFICULTY_RAMP_DENOMINATOR` (0.985).
pub const DIFFICULTY_RAMP_NUMERATOR: u32 = 197;

pub const DIFFICULTY_RAMP_DENOMINATOR: u32 = 200;

/// The difficulty ramp never makes a step shorter than this (microseconds).
pub const MIN_STEP_MICROS: u32 = 55_000;

/// The largest board, in cells, whose score cannot overflow a `u32`: every
/// food adds at most `COMBO_MAX_MULTIPLIER` points.
pub const MAX_GRID_CELLS: i32 = 858_993_459;

/// The parameters of a run. `base_step_seconds` is the duration of one move
/// in microseconds before the difficulty ramp applies.
#[derive(Clone, Copy, Debug, PartialEq, Eq, Structural)]
pub struct GameConfig {
    pub grid_width: i32,
    pub grid_height: i32,
    pub mode: GameMode,
    pub base_step_seconds: u32,
    pub difficulty_enabled: bool,
}

impl GameConfig {
    /// A board on which a run can start: at least one column and one row,
    /// more cells than the three of the starting snake (so that food has
    /// somewhere to go), and few enough cells that the score fits a `u32`.
    pub open spec fn valid(self) -> bool {
        &&& 1 <= self.grid_width
        &&& 1 <= self.grid_height
        &&& self.grid_width * self.grid_height > 3
        &&& self.grid_width * self.grid_height <= MAX_GRID_CELLS
    }

    pub open spec fn cells(self) -> int {
        self.grid_width * self.grid_height
    }

    pub open spec fn in_grid(self, p: Point) -> bool {
        0 <= p.x < self.grid_width && 0 <= p.y < self.grid_height
    }
}

/// The running combo: the current multiplier, the best one of the run, and
/// when (microseconds) the last food was eaten.
#[derive(Clone, Copy, Debug, PartialEq, Eq, Structural)]
pub struct ComboState {
    pub current_multiplier: u32,
    pub max_multiplier: u32,
    pub last_food_time: Option<u64>,
}

/// Whether a food eaten at `now` continues the combo: the previous food was
/// eaten no more than the combo window earlier.
pub open spec fn spec_combo_continues(last: Option<u64>, now: u64) -> bool {
    match last {
        Some(l) => now - l <= COMBO_WINDOW_MICROS,
        None => false,
    }
}

/// The combo after a food eaten at `now`.
pub open spec fn spec_combo_after_food(c: ComboState, now: u64) -> ComboState {
    let next: int = if spec_combo_continues(c.last_food_time, now) {
        c.current_multiplier + 1
    } else {
        1
    };
    let current: u32 = if next < COMBO_MAX_MULTIPLIER { next as u32 } else { COMBO_MAX_MULTIPLIER };
    ComboState {
        current_multiplier: current,
        max_multiplier: if c.max_multiplier < current { current } else { c.max_multiplier },
        last_food_time: Some(now),
    }
}

impl ComboState {
    pub open spec fn spec_new() -> ComboState {
        ComboState { current_multiplier: 0, max_multiplier: 0, last_food_time: None }
    }

    pub fn new() -> (r: Self)
        ensures
            r == Self::spec_new(),
    {
        ComboState { current_multiplier: 0, max_multiplier: 0, last_food_time: None }
    }

    /// Records a food eaten at `now` (microseconds) and returns the new
    /// multiplier.
    pub fn register_food(&mut self, now: u64) -> (r: u32)
        requires
            spec_combo_continues(old(self).last_food_time, now) ==> old(
                self,
            ).current_multiplier < u32::MAX,
        ensures
            *final(self) == spec_combo_after_food(*old(self), now),
            r == final(self).current_multiplier,
            1 <= r <= COMBO_MAX_MULTIPLIER,
    {
        let continues = match self.last_food_time {
            Some(last) => now <= last || now - last <= COMBO_WINDOW_MICROS,
            None => false,
        };
        let next = if continues { self.current_multiplier + 1 } else { 1 };
        self.current_multiplier = if next < COMBO_MAX_MULTIPLIER { next } else { COMBO_MAX_MULTIPLIER };
        if self.max_multiplier < self.current_multiplier {
            self.max_multiplier = self.current_multiplier;
        }
        self.last_food_time = Some(now);
        self.current_multiplier
    }
}


/// The statistics of one run. Times are microseconds.
#[derive(Clone, Copy, Debug, PartialEq, Eq, Structural)]
pub struct RunStats {
    pub start_time: u64,
    pub end_time: Option<u64>,
    pub foods_eaten: u32,
    pub max_combo: u32,
    pub final_score: u32,
}

pub open spec fn spec_stats_after_food(s: RunStats, combo_multiplier: u32) -> RunStats {
    RunStats {
        foods_eaten: (s.foods_eaten + 1) as u32,
        max_combo: if s.max_combo < combo_multiplier { combo_multiplier } else { s.max_combo },
        ..s
    }
}

pub open spec fn spec_stats_finalized(s: RunStats, now: u64, score: u32) -> RunStats {
    RunStats {
        end_time: Some(now),
        final_score: score,
        ..s
    }
}

impl RunStats {
    pub open spec fn spec_new(now: u64) -> RunStats {
        RunStats {
            start_time: now,
            end_time: None,
            foods_eaten: 0,
            max_combo: 0,
            final_score: 0,
        }
    }

    pub fn new(now: u64) -> (r: Self)
        ensures
            r == Self::spec_new(now),
    {
        RunStats {
            start_time: now,
            end_time: None,
            foods_eaten: 0,
            max_combo: 0,
            final_score: 0,
        }
    }

    pub fn record_food(&mut self, combo_multiplier: u32)
        requires
            old(self).foods_eaten < u32::MAX,
        ensures
            *final(self) == spec_stats_after_food(*old(self), combo_multiplier),
    {
        self.foods_eaten = self.foods_eaten + 1;
        if self.max_combo < combo_multiplier {
            self.max_combo = combo_multiplier;
        }
    }

    /// Marks the end of the run at `now` with its final score.
    pub fn finalize(&mut self, now: u64, score: u32)
        ensures
            *final(self) == spec_stats_finalized(*old(self), now, score),
    {
        self.end_time = Some(now);
        self.final_score = score;
    }

    /// How long the run lasted, in microseconds; 0 while it is still going.
    pub fn elapsed_seconds(&self) -> (r: i128)
        ensures
            r == match self.end_time {
                Some(end) => end - self.start_time,
                None => 0,
            },
    {
        match self.end_time {
            Some(end) => end as i128 - self.start_time as i128,
            None => 0,
        }
    }
}

/// What one tick did.
#[derive(Clone, Copy, Debug, PartialEq, Eq, Structural)]
pub struct TickOutcome {
    pub ate_food: bool,
    pub died: bool,
    pub won: bool,
    pub points_gained: u32,
    pub combo_multiplier: u32,
}

impl TickOutcome {
    /// Nothing happened.
    pub open spec fn spec_none() -> TickOutcome {
        TickOutcome { ate_food: false, died: false, won: false, points_gained: 0, combo_multiplier: 0 }
    }
}

impl Default for TickOutcome {
    fn default() -> (r: Self)
        ensures
            r == TickOutcome::spec_none(),
    {
        TickOutcome { ate_food: false, died: false, won: false, points_gained: 0, combo_multiplier: 0 }
    }
}


/// A run of the game. The snake's head is its first segment.
pub struct Game {
    config: GameConfig,
    snake: VecDeque<Point>,
    dir: Direction,
    queued_dirs: VecDeque<Direction>,
    food: Point,
    score: u32,
    over: bool,
    won: bool,
    combo: ComboState,
    run_stats: RunStats,
}

/// The mathematical state of a run.
#[verifier::ext_equal]
pub struct GameView {
    pub config: GameConfig,
    /// The segments, head first.
    pub snake: Seq<Point>,
    /// The heading of the last move.
    pub dir: Direction,
    /// Turns requested but not yet made, oldest first.
    pub queued: Seq<Direction>,
    pub food: Point,
    pub score: u32,
    pub over: bool,
    pub won: bool,
    pub combo: ComboState,
    pub stats: RunStats,
}

impl View for Game {
    type V = GameView;

    closed spec fn view(&self) -> GameView {
        GameView {
            config: self.config,
            snake: self.snake@,
            dir: self.dir,
            queued: self.queued_dirs@,
            food: self.food,
            score: self.score,
            over: self.over,
            won: self.won,
            combo: self.combo,
            stats: self.run_stats,
        }
    }
}

/// A turn may follow `prev` unless it repeats it or reverses it.
pub open spec fn spec_turn_allowed(prev: Direction, d: Direction) -> bool {
    d != prev && !spec_opposite(d, prev)
}

/// The point `(x, y)` as an `i32` point.
pub open spec fn spec_point(x: int, y: int) -> Point {
    Point { x: x as i32, y: y as i32 }
}

/// The cell that a head moved to `(x, y)` lands on, or `None` when it leaves
/// a Classic board. Wrap and Zen boards are tori.
pub open spec fn spec_adjusted_head(c: GameConfig, x: int, y: int) -> Option<Point> {
    match c.mode {
        GameMode::Classic => if 0 <= x < c.grid_width && 0 <= y < c.grid_height {
            Some(spec_point(x, y))
        } else {
            None
        },
        _ => Some(spec_point(x % (c.grid_width as int), y % (c.grid_height as int))),
    }
}

/// The snake at the start of a run: three segments in the middle row,
/// heading right.
pub open spec fn spec_start_snake(c: GameConfig) -> Seq<Point> {
    let x = c.grid_width / 2;
    let y = c.grid_height / 2;
    seq![spec_point(x as int, y as int), spec_point(x - 1, y as int), spec_point(x - 2, y as int)]
}

impl GameView {
    pub open spec fn head(self) -> Point {
        self.snake[0]
    }

    pub open spec fn tail(self) -> Point {
        self.snake.last()
    }

    /// The direction of the next move: the oldest queued turn, if any.
    pub open spec fn planned_direction(self) -> Direction {
        if self.queued.len() > 0 {
            self.queued[0]
        } else {
            self.dir
        }
    }

    /// The direction a new turn is checked against: the newest queued turn,
    /// if any.
    pub open spec fn last_planned_direction(self) -> Direction {
        if self.queued.len() > 0 {
            self.queued.last()
        } else {
            self.dir
        }
    }

    /// The run after a turn to `d` is requested: it is queued unless it
    /// repeats or reverses the last planned direction or two turns already
    /// wait.
    pub open spec fn with_turn(self, d: Direction) -> GameView {
        if spec_turn_allowed(self.last_planned_direction(), d) && self.queued.len() < 2 {
            GameView { queued: self.queued.push(d), ..self }
        } else {
            self
        }
    }

    /// Where the head goes on the next move, if it stays on the board.
    pub open spec fn next_head(self) -> Option<Point> {
        let d = spec_delta(self.planned_direction());
        spec_adjusted_head(self.config, self.head().x + d.0, self.head().y + d.1)
    }

    /// Whether a head moved to `h` runs into the body. Outside Zen mode it
    /// does so when `h` is a segment, except the tail when the tail moves
    /// away in the same move (the snake does not grow).
    pub open spec fn hits_body(self, h: Point, growing: bool) -> bool {
        &&& self.config.mode != GameMode::Zen
        &&& self.snake.contains(h)
        &&& (growing || h != self.tail())
    }

    /// Whether the next move ends the run in a collision.
    pub open spec fn next_move_collides(self) -> bool {
        &&& !self.over
        &&& self.config.mode != GameMode::Zen
        &&& match self.next_head() {
            None => true,
            Some(h) => self.hits_body(h, h == self.food),
        }
    }

    /// The duration of a move at the current score, in microseconds.
    pub open spec fn step_duration(self) -> int {
        spec_step_duration(self.config, self.score as nat)
    }

    /// The state after the move's direction is taken from the queue.
    pub open spec fn turned(self) -> GameView {
        GameView {
            dir: self.planned_direction(),
            queued: if self.queued.len() > 0 {
                self.queued.drop_first()
            } else {
                self.queued
            },
            ..self
        }
    }

    /// The state after the run ends at `now`, won or lost.
    pub open spec fn ended(self, now: u64, won: bool) -> GameView {
        GameView {
            over: true,
            won,
            stats: spec_stats_finalized(self.stats, now, self.score),
            ..self
        }
    }

    /// `next` and `out` are a possible result of a tick at `now`: a finished
    /// run does nothing; otherwise the snake takes its planned direction and
    /// moves one cell; leaving a Classic board or running into the body ends
    /// the run; eating the food grows the snake, scores the combo multiplier
    /// and either fills the board (a win) or places new food on a free cell.
    pub open spec fn ticked(self, now: u64, next: GameView, out: TickOutcome) -> bool {
        if self.over {
            next == self && out == TickOutcome::spec_none()
        } else {
            let t = self.turned();
            let died = TickOutcome { died: true, ..TickOutcome::spec_none() };
            match self.next_head() {
                None => next == t.ended(now, false) && out == died,
                Some(h) => {
                    if self.hits_body(h, h == self.food) {
                        next == t.ended(now, false) && out == died
                    } else if h == self.food {
                        let combo = spec_combo_after_food(self.combo, now);
                        let m = combo.current_multiplier;
                        let grown = GameView {
                            snake: seq![h] + self.snake,
                            combo,
                            score: (self.score + m) as u32,
                            stats: spec_stats_after_food(self.stats, m),
                            ..t
                        };
                        let ate = TickOutcome {
                            ate_food: true,
                            points_gained: m,
                            combo_multiplier: m,
                            ..TickOutcome::spec_none()
                        };
                        if grown.snake.len() == self.config.cells() {
                            next == grown.ended(now, true) && out == (TickOutcome { won: true, ..ate })
                        } else {
                            &&& next == (GameView { food: next.food, ..grown })
                            &&& self.config.in_grid(next.food)
                            &&& !next.snake.contains(next.food)
                            &&& out == ate
                        }
                    } else {
                        next == (GameView { snake: seq![h] + self.snake.drop_last(), ..t })
                            && out == TickOutcome::spec_none()
                    }
                },
            }
        }
    }

    /// The invariant of a run.
    pub open spec fn wf(self) -> bool {
        &&& self.config.valid()
        &&& 1 <= self.snake.len() <= self.config.cells()
        &&& !self.over ==> self.snake.len() < self.config.cells()
        &&& !self.over ==> !self.won
        &&& forall|i: int|
            0 <= i < self.snake.len() ==> i32::MIN < #[trigger] self.snake[i].x < i32::MAX
                && i32::MIN < self.snake[i].y < i32::MAX
        &&& self.queued.len() <= 2
        &&& self.queued.len() >= 1 ==> spec_turn_allowed(self.dir, self.queued[0])
        &&& self.queued.len() == 2 ==> spec_turn_allowed(self.queued[0], self.queued[1])
        &&& self.combo.current_multiplier <= COMBO_MAX_MULTIPLIER
        &&& self.score + COMBO_MAX_MULTIPLIER * (self.config.cells() - self.snake.len())
            <= u32::MAX
        &&& self.stats.foods_eaten <= self.score
    }

    /// The state of a run just started (or restarted) at `now` with `food`.
    pub open spec fn is_fresh(self, c: GameConfig, now: u64) -> bool {
        &&& self.config == c
        &&& self.snake == spec_start_snake(c)
        &&& self.dir == Direction::Right
        &&& self.queued.len() == 0
        &&& self.score == 0
        &&& !self.over
        &&& !self.won
        &&& self.combo == ComboState::spec_new()
        &&& self.stats == RunStats::spec_new(now)
        &&& c.in_grid(self.food)
        &&& !self.snake.contains(self.food)
    }
}

/// The ramp is computed in units this much finer than a microsecond
/// (picoseconds), so that rounding after each point costs less than a
/// microsecond in all.
pub const RAMP_SCALE: u64 = 1_000_000;

/// `base` after `n` points of the difficulty ramp: each point multiplies by
/// 0.985 and rounds down (in the units of `base`).
pub open spec fn spec_ramped(base: int, n: nat) -> int
    decreases n,
{
    if n == 0 {
        base
    } else {
        spec_ramped(base, (n - 1) as nat) * DIFFICULTY_RAMP_NUMERATOR / DIFFICULTY_RAMP_DENOMINATOR as int
    }
}

/// The duration of a move at score `score`, in microseconds: the base
/// duration without the difficulty ramp; else the base duration times
/// 0.985 per point (computed in picoseconds, then rounded down to
/// microseconds), but never below the floor.
pub open spec fn spec_step_duration(c: GameConfig, score: nat) -> int {
    let fine = spec_ramped(c.base_step_seconds * RAMP_SCALE, score);
    if !c.difficulty_enabled {
        c.base_step_seconds as int
    } else if fine < MIN_STEP_MICROS * RAMP_SCALE {
        MIN_STEP_MICROS as int
    } else {
        fine / RAMP_SCALE as int
    }
}

/// Whether `p` is one of the segments.
fn snake_contains(snake: &VecDeque<Point>, p: Point) -> (r: bool)
    ensures
        r == snake@.contains(p),
{
    let n = snake.len();
    let mut i: usize = 0;
    while i < n
        invariant
            n == snake@.len(),
            i <= n,
            forall|j: int| 0 <= j < i ==> snake@[j] != p,
        decreases n - i,
    {
        if snake[i] == p {
            return true;
        }
        i = i + 1;
    }
    false
}

/// `value` modulo `limit`, always in `[0, limit)`.
fn wrap_axis(value: i32, limit: i32) -> (r: i32)
    requires
        limit > 0,
    ensures
        r == (value as int) % (limit as int),
{
    if value >= 0 {
        value % limit
    } else {
        let m: i32 = -(value + 1);
        let r = limit - 1 - m % limit;
        proof {
            let v = value as int;
            let l = limit as int;
            let q = m as int / l;
            vstd::arithmetic::div_mod::lemma_fundamental_div_mod(m as int, l);
            assert(v == l * (-q - 1) + (l - 1 - (m as int) % l)) by (nonlinear_arith)
                requires
                    m as int == -(v + 1),
                    m as int == l * q + (m as int) % l,
            ;
            vstd::arithmetic::div_mod::lemma_mod_bound(m as int, l);
            vstd::arithmetic::div_mod::lemma_fundamental_div_mod_converse_mod(
                v,
                l,
                -q - 1,
                l - 1 - (m as int) % l,
            );
        }
        r
    }
}

/// The number of a cell of a board `width` columns wide, row by row.
spec fn cell_index(width: int, p: Point) -> int {
    p.y * width + p.x
}

/// A snake shorter than the number of cells leaves some cell of the board
/// free (even when its segments overlap or lie off the board).
proof fn lemma_free_cell_exists(c: GameConfig, snake: Seq<Point>)
    requires
        1 <= c.grid_width,
        1 <= c.grid_height,
        snake.len() < c.cells(),
    ensures
        exists|p: Point| c.in_grid(p) && !snake.contains(p),
{
    let w = c.grid_width as int;
    let h = c.grid_height as int;
    if forall|p: Point| c.in_grid(p) ==> snake.contains(p) {
        let enc = snake.map_values(|p: Point| cell_index(w, p));
        let covered = enc.to_set();
        assert forall|k: int| vstd::set_lib::set_int_range(0, w * h).contains(k) implies covered.contains(
            k,
        ) by {
            let x = k % w;
            let y = k / w;
            vstd::arithmetic::div_mod::lemma_fundamental_div_mod(k, w);
            vstd::arithmetic::div_mod::lemma_mod_bound(k, w);
            assert(0 <= y < h) by (nonlinear_arith)
                requires
                    0 <= k < w * h,
                    k == w * y + x,
                    0 <= x < w,
            ;
            let p = spec_point(x, y);
            assert(c.in_grid(p));
            assert(snake.contains(p));
            let i = choose|i: int| 0 <= i < snake.len() && snake[i] == p;
            assert(enc[i] == cell_index(w, p));
            assert(cell_index(w, p) == k) by (nonlinear_arith)
                requires
                    p.x == x,
                    p.y == y,
                    k == w * y + x,
            ;
            assert(enc.contains(k));
        }
        vstd::set_lib::lemma_int_range(0, w * h);
        enc.lemma_cardinality_of_set();
        vstd::set_lib::lemma_len_subset(vstd::set_lib::set_int_range(0, w * h), covered);
        assert(false);
    }
}

/// A cell of the board, picked at random, that no segment covers.
fn spawn_food(config: &GameConfig, snake: &VecDeque<Point>) -> (r: Point)
    requires
        1 <= config.grid_width,
        1 <= config.grid_height,
        exists|p: Point| config.in_grid(p) && !snake@.contains(p),
    ensures
        config.in_grid(r),
        !snake@.contains(r),
{
    let mut free: Vec<Point> = Vec::new();
    let mut y: i32 = 0;
    while y < config.grid_height
        invariant
            0 <= y <= config.grid_height,
            1 <= config.grid_width,
            forall|i: int| 0 <= i < free@.len() ==> config.in_grid(#[trigger] free@[i]) && !snake@.contains(free@[i]),
            forall|q: Point|
                config.in_grid(q) && q.y < y && !snake@.contains(q) ==> free@.contains(q),
        decreases config.grid_height - y,
    {
        let mut x: i32 = 0;
        while x < config.grid_width
            invariant
                0 <= y < config.grid_height,
                0 <= x <= config.grid_width,
                forall|i: int| 0 <= i < free@.len() ==> config.in_grid(#[trigger] free@[i]) && !snake@.contains(free@[i]),
                forall|q: Point|
                    config.in_grid(q) && (q.y < y || (q.y == y && q.x < x)) && !snake@.contains(q)
                        ==> free@.contains(q),
            decreases config.grid_width - x,
        {
            let p = Point { x, y };
            let ghost before = free@;
            if !snake_contains(snake, p) {
                free.push(p);
            }
            proof {
                assert forall|q: Point|
                    config.in_grid(q) && (q.y < y || (q.y == y && q.x < x + 1)) && !snake@.contains(
                        q,
                    ) implies free@.contains(q) by {
                    if q.y == y && q.x == x {
                        assert(q == p);
                        assert(free@[free@.len() - 1] == p);
                    } else {
                        assert(before.contains(q));
                        let k = choose|k: int| 0 <= k < before.len() && before[k] == q;
                        assert(free@[k] == q);
                    }
                }
            }
            x = x + 1;
        }
        y = y + 1;
    }
    proof {
        let q = choose|q: Point| config.in_grid(q) && !snake@.contains(q);
        assert(free@.contains(q));
    }
    let mut generator = rng::thread_rng();
    let i = rng::random_below(&mut generator, free.len());
    free[i]
}


impl Game {
    /// Starts a run on the board of `config` at time `now` (microseconds).
    pub fn new(config: GameConfig, now: u64) -> (r: Self)
        requires
            config.valid(),
        ensures
            r@.wf(),
            r@.is_fresh(config, now),
    {
        let mut game = Game {
            config,
            snake: VecDeque::new(),
            dir: Direction::Right,
            queued_dirs: VecDeque::new(),
            food: Point { x: 0, y: 0 },
            score: 0,
            over: false,
            won: false,
            combo: ComboState::new(),
            run_stats: RunStats::new(now),
        };
        game.reset(now);
        game
    }

    /// Restarts the run at time `now` on the same board.
    pub fn reset(&mut self, now: u64)
        requires
            old(self)@.config.valid(),
        ensures
            final(self)@.wf(),
            final(self)@.is_fresh(old(self)@.config, now),
    {
        self.snake.clear();
        let start_x = self.config.grid_width / 2;
        let start_y = self.config.grid_height / 2;
        self.snake.push_back(Point { x: start_x, y: start_y });
        self.snake.push_back(Point { x: start_x - 1, y: start_y });
        self.snake.push_back(Point { x: start_x - 2, y: start_y });
        self.dir = Direction::Right;
        self.queued_dirs.clear();
        self.score = 0;
        self.over = false;
        self.won = false;
        self.combo = ComboState::new();
        self.run_stats = RunStats::new(now);
        assert(self.snake@ =~= spec_start_snake(self.config));
        proof {
            lemma_free_cell_exists(self.config, self.snake@);
        }
        self.food = spawn_food(&self.config, &self.snake);
    }

    /// Switches to the board of `config` and restarts the run at `now`.
    pub fn set_config(&mut self, config: GameConfig, now: u64)
        requires
            config.valid(),
        ensures
            final(self)@.wf(),
            final(self)@.is_fresh(config, now),
    {
        self.config = config;
        self.reset(now);
    }

    /// Queues a turn. A turn that repeats or reverses the last planned
    /// direction is ignored, and at most two turns wait at a time.
    pub fn set_direction(&mut self, direction: Direction)
        requires
            old(self)@.wf(),
        ensures
            final(self)@.wf(),
            final(self)@ == old(self)@.with_turn(direction),
    {
        let n = self.queued_dirs.len();
        let reference = if n > 0 { self.queued_dirs[n - 1] } else { self.dir };
        if direction == reference || direction.is_opposite(reference) {
            return;
        }
        if n < 2 {
            self.queued_dirs.push_back(direction);
        }
    }

    /// The direction of the next move.
    pub fn preview_direction(&self) -> (r: Direction)
        ensures
            r == self@.planned_direction(),
    {
        if self.queued_dirs.len() > 0 {
            self.queued_dirs[0]
        } else {
            self.dir
        }
    }

    fn mode_adjusted_head(&self, x: i32, y: i32) -> (r: Option<Point>)
        requires
            1 <= self@.config.grid_width,
            1 <= self@.config.grid_height,
        ensures
            r == spec_adjusted_head(self@.config, x as int, y as int),
    {
        match self.config.mode {
            GameMode::Classic => {
                if x < 0 || y < 0 || x >= self.config.grid_width || y >= self.config.grid_height {
                    None
                } else {
                    Some(Point { x, y })
                }
            },
            _ => Some(
                Point {
                    x: wrap_axis(x, self.config.grid_width),
                    y: wrap_axis(y, self.config.grid_height),
                },
            ),
        }
    }

    /// Where the head would land moving in `d`.
    fn moved_head(&self, d: Direction) -> (r: Option<Point>)
        requires
            self@.wf(),
        ensures
            r == spec_adjusted_head(
                self@.config,
                self@.head().x + spec_delta(d).0,
                self@.head().y + spec_delta(d).1,
            ),
    {
        let head = self.snake[0];
        let (dx, dy) = d.delta();
        self.mode_adjusted_head(head.x + dx, head.y + dy)
    }

    fn would_hit_body(&self, new_head: Point, growing: bool) -> (r: bool)
        requires
            self@.snake.len() >= 1,
        ensures
            r == self@.hits_body(new_head, growing),
    {
        if self.config.mode == GameMode::Zen {
            return false;
        }
        let tail = self.snake[self.snake.len() - 1];
        if !growing && new_head == tail {
            return false;
        }
        snake_contains(&self.snake, new_head)
    }

    fn end_run(&mut self, now: u64, won: bool) -> (r: TickOutcome)
        ensures
            final(self)@ == old(self)@.ended(now, won),
            r == (TickOutcome { died: !won, won, ..TickOutcome::spec_none() }),
    {
        self.over = true;
        self.won = won;
        self.run_stats.finalize(now, self.score);
        TickOutcome { died: !won, won, ..TickOutcome::default() }
    }

    /// Advances the run by one move at time `now` (microseconds).
    pub fn tick(&mut self, now: u64) -> (out: TickOutcome)
        requires
            old(self)@.wf(),
        ensures
            final(self)@.wf(),
            old(self)@.ticked(now, final(self)@, out),
    {
        if self.over {
            return TickOutcome::default();
        }
        let ghost v = self@;
        let d = self.preview_direction();
        let proposed = self.moved_head(d);
        match self.queued_dirs.pop_front() {
            Some(q) => {
                self.dir = q;
            },
            None => {},
        }
        assert(self@ == v.turned());
        let new_head = match proposed {
            None => {
                return self.end_run(now, false);
            },
            Some(h) => h,
        };
        let growing = new_head == self.food;
        if self.would_hit_body(new_head, growing) {
            return self.end_run(now, false);
        }
        self.snake.push_front(new_head);
        if growing {
            let combo_multiplier = self.combo.register_food(now);
            self.run_stats.record_food(combo_multiplier);
            self.score = self.score + combo_multiplier;
            if self.snake.len() == (self.config.grid_width * self.config.grid_height) as usize {
                let mut outcome = self.end_run(now, true);
                outcome.ate_food = true;
                outcome.points_gained = combo_multiplier;
                outcome.combo_multiplier = combo_multiplier;
                return outcome;
            }
            proof {
                lemma_free_cell_exists(self.config, self.snake@);
            }
            self.food = spawn_food(&self.config, &self.snake);
            return TickOutcome {
                ate_food: true,
                points_gained: combo_multiplier,
                combo_multiplier,
                ..TickOutcome::default()
            };
        }
        let _ = self.snake.pop_back();
        assert(self.snake@ =~= seq![new_head] + v.snake.drop_last());
        TickOutcome::default()
    }

    /// The duration of one move at the current score, in microseconds (see
    /// `step_duration_for_score`).
    pub fn effective_step_seconds(&self) -> (r: u32)
        ensures
            r == self@.step_duration(),
    {
        step_duration_for_score(&self.config, self.score)
    }

    /// Puts the food on `food`, for setting up a position.
    pub fn set_food(&mut self, food: Point)
        requires
            old(self)@.wf(),
        ensures
            final(self)@.wf(),
            final(self)@ == (GameView { food, ..old(self)@ }),
    {
        self.food = food;
    }

    /// Replaces the snake (head first) and its heading, with no turns
    /// queued, for setting up a position.
    pub fn set_position(&mut self, snake: VecDeque<Point>, direction: Direction)
        requires
            old(self)@.wf(),
            1 <= snake@.len(),
            old(self)@.over ==> snake@.len() <= old(self)@.config.cells(),
            !old(self)@.over ==> snake@.len() < old(self)@.config.cells(),
            forall|i: int|
                0 <= i < snake@.len() ==> i32::MIN < #[trigger] snake@[i].x < i32::MAX && i32::MIN
                    < snake@[i].y < i32::MAX,
            old(self)@.score + COMBO_MAX_MULTIPLIER * (old(self)@.config.cells() - snake@.len())
                <= u32::MAX,
        ensures
            final(self)@.wf(),
            final(self)@ == (GameView {
                snake: snake@,
                dir: direction,
                queued: Seq::empty(),
                ..old(self)@
            }),
    {
        self.snake = snake;
        self.dir = direction;
        self.queued_dirs.clear();
    }

    /// The segments, head first.
    pub fn snake(&self) -> (r: &VecDeque<Point>)
        ensures
            r@ == self@.snake,
    {
        &self.snake
    }

    pub fn food(&self) -> (r: Point)
        ensures
            r == self@.food,
    {
        self.food
    }

    pub fn score(&self) -> (r: u32)
        ensures
            r == self@.score,
    {
        self.score
    }

    pub fn is_over(&self) -> (r: bool)
        ensures
            r == self@.over,
    {
        self.over
    }

    pub fn is_won(&self) -> (r: bool)
        ensures
            r == self@.won,
    {
        self.won
    }

    pub fn combo_state(&self) -> (r: ComboState)
        ensures
            r == self@.combo,
    {
        self.combo
    }

    pub fn run_stats(&self) -> (r: &RunStats)
        ensures
            *r == self@.stats,
    {
        &self.run_stats
    }

    pub fn mode(&self) -> (r: GameMode)
        ensures
            r == self@.config.mode,
    {
        self.config.mode
    }

    pub fn grid_width(&self) -> (r: i32)
        ensures
            r == self@.config.grid_width,
    {
        self.config.grid_width
    }

    pub fn grid_height(&self) -> (r: i32)
        ensures
            r == self@.config.grid_height,
    {
        self.config.grid_height
    }

    /// Whether the next move would end the run in a collision.
    pub fn next_move_would_collide(&self) -> (r: bool)
        requires
            self@.wf(),
        ensures
            r == self@.next_move_collides(),
    {
        if self.over || self.config.mode == GameMode::Zen {
            return false;
        }
        match self.moved_head(self.preview_direction()) {
            None => true,
            Some(new_head) => {
                let growing = new_head == self.food;
                self.would_hit_body(new_head, growing)
            },
        }
    }
}


/// The duration of one move at score `score`, in microseconds: the base
/// duration, shortened by the difficulty ramp (if enabled) by a factor 0.985
/// (rounded down) per point, but not below `MIN_STEP_MICROS`.
pub fn step_duration_for_score(config: &GameConfig, score: u32) -> (r: u32)
    ensures
        r == spec_step_duration(*config, score as nat),
{
    let base = config.base_step_seconds;
    if !config.difficulty_enabled {
        return base;
    }
    let fine_base: u64 = base as u64 * RAMP_SCALE;
    let floor: u64 = MIN_STEP_MICROS as u64 * RAMP_SCALE;
    let mut value: u64 = fine_base;
    let mut i: u32 = 0;
    while i < score && value >= floor
        invariant
            i <= score,
            fine_base == base * RAMP_SCALE,
            floor == MIN_STEP_MICROS * RAMP_SCALE,
            value == spec_ramped(fine_base as int, i as nat),
            value <= fine_base,
        decreases score - i,
    {
        proof {
            lemma_ramp_step(fine_base as int, i as nat);
        }
        value = value * (DIFFICULTY_RAMP_NUMERATOR as u64) / (DIFFICULTY_RAMP_DENOMINATOR as u64);
        i = i + 1;
    }
    if value < floor {
        proof {
            lemma_ramp_monotone(fine_base as int, i as nat, score as nat);
        }
        MIN_STEP_MICROS
    } else {
        proof {
            vstd::arithmetic::div_mod::lemma_div_is_ordered(value as int, fine_base as int, RAMP_SCALE as int);
            vstd::arithmetic::div_mod::lemma_div_multiples_vanish(base as int, RAMP_SCALE as int);
        }
        (value / RAMP_SCALE) as u32
    }
}

/// One ramp step never lengthens a move, nor makes it negative.
proof fn lemma_ramp_step(base: int, n: nat)
    requires
        base >= 0,
    ensures
        0 <= spec_ramped(base, n + 1) <= spec_ramped(base, n),
    decreases n,
{
    if n > 0 {
        lemma_ramp_step(base, (n - 1) as nat);
    }
    let v = spec_ramped(base, n);
    assert(spec_ramped(base, n + 1) == v * 197 / 200);
    assert(0 <= v * 197 / 200 <= v) by (nonlinear_arith)
        requires
            v >= 0,
    ;
}

/// More points never lengthen a move.
pub proof fn lemma_ramp_monotone(base: int, m: nat, n: nat)
    requires
        base >= 0,
        m <= n,
    ensures
        0 <= spec_ramped(base, n) <= spec_ramped(base, m),
    decreases n - m,
{
    lemma_ramp_step(base, m);
    if m < n {
        lemma_ramp_monotone(base, m + 1, n);
    }
}

} // verus!

verus! {

// Laws of the game.

/// `next` and `previous` undo each other, and three steps of `next` come back
/// to the start.
pub proof fn lemma_mode_cycle(m: GameMode)
    ensures
        spec_mode_previous(spec_mode_next(m)) == m,
        spec_mode_next(spec_mode_previous(m)) == m,
        spec_mode_next(spec_mode_next(spec_mode_next(m))) == m,
{
}

/// Being opposite is symmetric, and no direction is opposite to itself.
pub proof fn lemma_opposite_symmetric(a: Direction, b: Direction)
    ensures
        spec_opposite(a, b) == spec_opposite(b, a),
        !spec_opposite(a, a),
{
}

/// The snake never reverses: the direction of each move is the previous one
/// or a turn that neither repeats nor reverses it.
pub proof fn lemma_tick_never_reverses(v: GameView, now: u64, w: GameView, out: TickOutcome)
    requires
        v.wf(),
        !v.over,
        v.ticked(now, w, out),
    ensures
        w.dir == v.planned_direction(),
        !spec_opposite(w.dir, v.dir),
{
}

/// While the run goes on, the head is on the board after every move.
pub proof fn lemma_tick_head_on_board(v: GameView, now: u64, w: GameView, out: TickOutcome)
    requires
        v.wf(),
        v.ticked(now, w, out),
        !w.over,
    ensures
        v.config.in_grid(w.head()),
{
    let d = spec_delta(v.planned_direction());
    let x = v.head().x + d.0;
    let y = v.head().y + d.1;
    let gw = v.config.grid_width as int;
    let gh = v.config.grid_height as int;
    vstd::arithmetic::div_mod::lemma_mod_bound(x, gw);
    vstd::arithmetic::div_mod::lemma_mod_bound(y, gh);
    let h = v.next_head()->Some_0;
    assert(w.snake[0] == h);
}

/// Outside Zen mode a snake whose segments are all distinct keeps them
/// distinct: a move never puts the head on the body.
pub proof fn lemma_tick_keeps_segments_distinct(
    v: GameView,
    now: u64,
    w: GameView,
    out: TickOutcome,
)
    requires
        v.wf(),
        v.config.mode != GameMode::Zen,
        v.snake.no_duplicates(),
        v.ticked(now, w, out),
    ensures
        w.snake.no_duplicates(),
{
    if !v.over {
        if let Some(h) = v.next_head() {
            if !v.hits_body(h, h == v.food) {
                if h == v.food {
                    assert(!v.snake.contains(h));
                    assert forall|i: int, j: int|
                        0 <= i < w.snake.len() && 0 <= j < w.snake.len() && i != j implies w.snake[i]
                        != w.snake[j] by {
                        if i == 0 {
                            assert(v.snake[j - 1] == w.snake[j]);
                        } else if j == 0 {
                            assert(v.snake[i - 1] == w.snake[i]);
                        } else {
                            assert(w.snake[i] == v.snake[i - 1]);
                            assert(w.snake[j] == v.snake[j - 1]);
                        }
                    }
                } else {
                    let body = v.snake.drop_last();
                    assert(!body.contains(h)) by {
                        if body.contains(h) {
                            let k = choose|k: int| 0 <= k < body.len() && body[k] == h;
                            assert(v.snake[k] == h);
                            if h == v.tail() {
                                assert(v.snake[k] == v.snake[v.snake.len() - 1]);
                            }
                        }
                    }
                    assert forall|i: int, j: int|
                        0 <= i < w.snake.len() && 0 <= j < w.snake.len() && i != j implies w.snake[i]
                        != w.snake[j] by {
                        if i == 0 {
                            assert(body[j - 1] == w.snake[j]);
                        } else if j == 0 {
                            assert(body[i - 1] == w.snake[i]);
                        } else {
                            assert(w.snake[i] == v.snake[i - 1]);
                            assert(w.snake[j] == v.snake[j - 1]);
                        }
                    }
                }
            }
        }
    }
}

/// Edges never end a Wrap or Zen run, and nothing ends a Zen run: the
/// snake may cross itself there.
pub proof fn lemma_wrap_and_zen_edges(v: GameView, now: u64, w: GameView, out: TickOutcome)
    requires
        v.wf(),
        v.config.mode != GameMode::Classic,
        v.ticked(now, w, out),
    ensures
        v.next_head().is_some(),
        v.config.mode == GameMode::Zen ==> !out.died && !v.next_move_collides(),
{
}

/// While the run goes on, the food stays on a free cell of the board: a
/// move that does not eat leaves it where it was, and eating places new
/// food on a free cell.
pub proof fn lemma_tick_keeps_food_free(v: GameView, now: u64, w: GameView, out: TickOutcome)
    requires
        v.wf(),
        v.config.in_grid(v.food),
        !v.snake.contains(v.food),
        v.ticked(now, w, out),
        !w.over,
    ensures
        v.config.in_grid(w.food),
        !w.snake.contains(w.food),
{
    if !out.ate_food {
        assert forall|i: int| 0 <= i < w.snake.len() implies w.snake[i] != w.food by {
            if i > 0 {
                assert(w.snake[i] == v.snake[i - 1]);
            }
        }
    }
}

/// A tick adds to the score exactly the points it reports, at most the combo
/// cap; the snake grows by one segment exactly when it eats.
pub proof fn lemma_tick_score_and_length(v: GameView, now: u64, w: GameView, out: TickOutcome)
    requires
        v.wf(),
        v.ticked(now, w, out),
    ensures
        w.score == v.score + out.points_gained,
        out.points_gained <= COMBO_MAX_MULTIPLIER,
        out.ate_food ==> 1 <= out.points_gained,
        w.snake.len() == v.snake.len() + (if out.ate_food { 1int } else { 0 }),
{
}

/// A run is won exactly when a food fills the board, and a finished run
/// stays as it is.
pub proof fn lemma_tick_win_fills_board(v: GameView, now: u64, w: GameView, out: TickOutcome)
    requires
        v.wf(),
        v.ticked(now, w, out),
    ensures
        v.over ==> w == v,
        !v.over && out.won ==> w.over && w.won && w.snake.len() == v.config.cells(),
        !v.over && out.ate_food && w.snake.len() == v.config.cells() ==> out.won,
        out.died ==> w.over && !w.won,
        !v.over ==> out.won == w.won,
{
}

/// On a Classic board a move that leaves the board ends the run, and a move
/// that does not end the run puts the head exactly one cell further in the
/// planned direction: Classic boards never wrap.
pub proof fn lemma_classic_walls(v: GameView, now: u64, w: GameView, out: TickOutcome)
    requires
        v.wf(),
        !v.over,
        v.config.mode == GameMode::Classic,
        v.ticked(now, w, out),
    ensures
        ({
            let d = spec_delta(v.planned_direction());
            let x = v.head().x + d.0;
            let y = v.head().y + d.1;
            &&& !(0 <= x < v.config.grid_width && 0 <= y < v.config.grid_height) ==> out.died && w.over
                && !w.won
            &&& !out.died ==> w.head().x == x && w.head().y == y
        }),
{
}

/// The best combo of the run's summary follows every food: after a tick
/// that eats it is the larger of the previous best and the multiplier the
/// food scored, and it stays equal to the best multiplier of the combo.
pub proof fn lemma_tick_records_best_combo(v: GameView, now: u64, w: GameView, out: TickOutcome)
    requires
        v.wf(),
        v.ticked(now, w, out),
    ensures
        out.ate_food ==> w.stats.max_combo == (if v.stats.max_combo < out.combo_multiplier {
            out.combo_multiplier
        } else {
            v.stats.max_combo
        }),
        out.ate_food ==> w.stats.max_combo >= out.combo_multiplier,
        !out.ate_food ==> w.stats.max_combo == v.stats.max_combo,
        v.stats.max_combo == v.combo.max_multiplier ==> w.stats.max_combo == w.combo.max_multiplier,
{
}

/// A fresh run has no best combo yet, in its summary or in its combo.
pub proof fn lemma_fresh_best_combo(v: GameView, c: GameConfig, now: u64)
    requires
        v.is_fresh(c, now),
    ensures
        v.stats.max_combo == 0,
        v.stats.max_combo == v.combo.max_multiplier,
{
}

/// A food eaten no more than the combo window after the previous one raises
/// the multiplier by one up to the cap of five and never lowers it; a first
/// food, or one eaten later than the window, restarts it at one. The best
/// multiplier is the larger of the previous best and the new multiplier.
pub proof fn lemma_combo_continues_up_to_cap(c: ComboState, now: u64)
    requires
        1 <= c.current_multiplier <= COMBO_MAX_MULTIPLIER,
    ensures
        ({
            let r = spec_combo_after_food(c, now);
            let within = c.last_food_time matches Some(l) && now <= l + 2_500_000;
            &&& within ==> r.current_multiplier == (if c.current_multiplier + 1 < 5 {
                c.current_multiplier + 1
            } else {
                5
            })
            &&& within ==> r.current_multiplier >= c.current_multiplier
            &&& within && c.current_multiplier == 5 ==> r.current_multiplier == 5
            &&& !within ==> r.current_multiplier == 1
            &&& r.max_multiplier == (if c.max_multiplier < r.current_multiplier {
                r.current_multiplier
            } else {
                c.max_multiplier
            })
            &&& r.last_food_time == Some(now)
        }),
{
}

/// On Wrap and Zen boards the head always moves one cell in the planned
/// direction, coming back on the far side when it leaves the board.
pub proof fn lemma_wrap_position(v: GameView, now: u64, w: GameView, out: TickOutcome)
    requires
        v.wf(),
        !v.over,
        v.config.mode != GameMode::Classic,
        v.ticked(now, w, out),
        !out.died,
    ensures
        ({
            let d = spec_delta(v.planned_direction());
            let x = v.head().x + d.0;
            let y = v.head().y + d.1;
            let gw = v.config.grid_width as int;
            let gh = v.config.grid_height as int;
            &&& 0 <= x < gw ==> w.head().x == x
            &&& x == -1 ==> w.head().x == gw - 1
            &&& x == gw ==> w.head().x == 0
            &&& 0 <= y < gh ==> w.head().y == y
            &&& y == -1 ==> w.head().y == gh - 1
            &&& y == gh ==> w.head().y == 0
        }),
{
    let d = spec_delta(v.planned_direction());
    let x = v.head().x + d.0;
    let y = v.head().y + d.1;
    let gw = v.config.grid_width as int;
    let gh = v.config.grid_height as int;
    vstd::arithmetic::div_mod::lemma_mod_bound(x, gw);
    vstd::arithmetic::div_mod::lemma_mod_bound(y, gh);
    if 0 <= x < gw {
        vstd::arithmetic::div_mod::lemma_small_mod(x as nat, gw as nat);
    }
    if 0 <= y < gh {
        vstd::arithmetic::div_mod::lemma_small_mod(y as nat, gh as nat);
    }
    if x == -1 {
        vstd::arithmetic::div_mod::lemma_fundamental_div_mod_converse(x, gw, -1, gw - 1);
    }
    if y == -1 {
        vstd::arithmetic::div_mod::lemma_fundamental_div_mod_converse(y, gh, -1, gh - 1);
    }
    if x == gw {
        vstd::arithmetic::div_mod::lemma_fundamental_div_mod_converse(x, gw, 1, 0);
    }
    if y == gh {
        vstd::arithmetic::div_mod::lemma_fundamental_div_mod_converse(y, gh, 1, 0);
    }
}

/// The run's summary counts every food, and the end of a run records when
/// it ended and its final score.
pub proof fn lemma_tick_summary(v: GameView, now: u64, w: GameView, out: TickOutcome)
    requires
        v.wf(),
        !v.over,
        v.ticked(now, w, out),
    ensures
        w.stats.foods_eaten == v.stats.foods_eaten + (if out.ate_food { 1int } else { 0 }),
        w.stats.start_time == v.stats.start_time,
        w.over ==> w.stats.end_time == Some(now) && w.stats.final_score == w.score,
        !w.over ==> w.stats.end_time == v.stats.end_time,
{
}

/// A food continues the combo within the window and restarts it at 1
/// otherwise; the multiplier stays within 1..=5 and the best one of the run
/// is never below it.
pub proof fn lemma_combo_after_food(c: ComboState, now: u64)
    requires
        c.current_multiplier <= COMBO_MAX_MULTIPLIER,
        c.current_multiplier <= c.max_multiplier,
    ensures
        1 <= spec_combo_after_food(c, now).current_multiplier <= COMBO_MAX_MULTIPLIER,
        spec_combo_after_food(c, now).current_multiplier <= spec_combo_after_food(
            c,
            now,
        ).max_multiplier,
        c.max_multiplier <= spec_combo_after_food(c, now).max_multiplier,
        !spec_combo_continues(c.last_food_time, now) ==> spec_combo_after_food(
            c,
            now,
        ).current_multiplier == 1,
        spec_combo_continues(c.last_food_time, now) && c.current_multiplier
            < COMBO_MAX_MULTIPLIER ==> spec_combo_after_food(c, now).current_multiplier
            == c.current_multiplier + 1,
{
}

/// A higher score never makes a move longer.
pub proof fn lemma_step_duration_monotone(c: GameConfig, low: nat, high: nat)
    requires
        low <= high,
    ensures
        spec_step_duration(c, high) <= spec_step_duration(c, low),
{
    let b = c.base_step_seconds * RAMP_SCALE;
    lemma_ramp_monotone(b, low, high);
    vstd::arithmetic::div_mod::lemma_div_is_ordered(
        spec_ramped(b, high),
        spec_ramped(b, low),
        RAMP_SCALE as int,
    );
    if spec_ramped(b, low) >= MIN_STEP_MICROS * RAMP_SCALE {
        vstd::arithmetic::div_mod::lemma_div_is_ordered(
            MIN_STEP_MICROS * RAMP_SCALE,
            spec_ramped(b, low),
            RAMP_SCALE as int,
        );
        vstd::arithmetic::div_mod::lemma_div_multiples_vanish(MIN_STEP_MICROS as int, RAMP_SCALE as int);
    }
}

/// The ramp stays close to the exact product: after `n` points it is at
/// most `base * 0.985^n` and falls short of it by less than `n + 1` units
/// (so, in picoseconds, by far less than a microsecond).
pub proof fn lemma_ramp_close(base: int, n: nat)
    requires
        base >= 0,
    ensures
        spec_ramped(base, n) * pow(200, n) <= base * pow(197, n),
        base * pow(197, n) <= (spec_ramped(base, n) + n) * pow(200, n),
    decreases n,
{
    reveal(pow);
    if n > 0 {
        let m = (n - 1) as nat;
        lemma_ramp_close(base, m);
        lemma_ramp_step(base, m);
        let v = spec_ramped(base, m);
        let w = spec_ramped(base, n);
        let p = pow(200, m);
        let q = pow(197, m);
        vstd::arithmetic::power::lemma_pow_positive(200, m);
        assert(w == v * 197 / 200);
        assert(w * 200 <= v * 197 && v * 197 <= w * 200 + 199) by (nonlinear_arith)
            requires
                w == v * 197 / 200,
                v >= 0,
        ;
        assert(pow(200, n) == 200 * p);
        assert(pow(197, n) == 197 * q);
        assert(w * (200 * p) <= base * (197 * q)) by (nonlinear_arith)
            requires
                w * 200 <= v * 197,
                v * p <= base * q,
                p > 0,
        ;
        assert(base * (197 * q) <= (w + n) * (200 * p)) by (nonlinear_arith)
            requires
                v * 197 <= w * 200 + 199,
                base * q <= (v + m) * p,
                n == m + 1,
                p > 0,
                m >= 0,
        ;
    }
}

/// With the difficulty ramp on, and above the floor, a move takes the base
/// duration times 0.985 per point to within a microsecond:
/// `step <= base * 0.985^score < step + 1 + score / 1_000_000`.
pub proof fn lemma_step_duration_close(c: GameConfig, score: nat)
    requires
        c.difficulty_enabled,
        spec_ramped(c.base_step_seconds * RAMP_SCALE, score) >= MIN_STEP_MICROS * RAMP_SCALE,
    ensures
        spec_step_duration(c, score) * RAMP_SCALE * pow(200, score)
            <= c.base_step_seconds * RAMP_SCALE * pow(197, score),
        c.base_step_seconds * RAMP_SCALE * pow(197, score)
            < ((spec_step_duration(c, score) + 1) * RAMP_SCALE + score) * pow(200, score),
{
    let b = c.base_step_seconds * RAMP_SCALE;
    let f = spec_ramped(b, score);
    let r = spec_step_duration(c, score);
    let p = pow(200, score);
    lemma_ramp_close(b, score);
    vstd::arithmetic::power::lemma_pow_positive(200, score);
    vstd::arithmetic::div_mod::lemma_fundamental_div_mod(f, RAMP_SCALE as int);
    vstd::arithmetic::div_mod::lemma_mod_bound(f, RAMP_SCALE as int);
    assert(r == f / (RAMP_SCALE as int));
    assert(r * RAMP_SCALE <= f && f < (r + 1) * RAMP_SCALE) by (nonlinear_arith)
        requires
            f == RAMP_SCALE * (f / (RAMP_SCALE as int)) + f % (RAMP_SCALE as int),
            0 <= f % (RAMP_SCALE as int) < RAMP_SCALE,
            r == f / (RAMP_SCALE as int),
    ;
    assert(r * RAMP_SCALE * p <= b * pow(197, score)) by (nonlinear_arith)
        requires
            r * RAMP_SCALE <= f,
            f * p <= b * pow(197, score),
            p > 0,
    ;
    assert(b * pow(197, score) < ((r + 1) * RAMP_SCALE + score) * p) by (nonlinear_arith)
        requires
            f < (r + 1) * RAMP_SCALE,
            b * pow(197, score) <= (f + score) * p,
            p > 0,
    ;
}

/// With the difficulty ramp on, a move never takes less than the floor.
pub proof fn lemma_step_duration_floor(c: GameConfig, score: nat)
    requires
        c.difficulty_enabled,
    ensures
        spec_step_duration(c, score) >= MIN_STEP_MICROS,
{
}

} // verus!
