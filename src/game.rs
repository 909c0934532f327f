use vstd::prelude::*;

use crate::ball::{
    high_edge, Ball, Side, BALL_RADIUS, JITTER, SQUARE_SIZE, SQUARE_UNITS, START_SPEED, SUBPIXELS,
};
use crate::grid::{
    cell_index, contacts, count_side, count_sides, lemma_count_split, sample_offset_of, starting_side,
    SAMPLES,
};
use crate::laws::{lemma_collided_valid, lemma_moved_valid, lemma_nudged_valid, lemma_turns_valid,
    lemma_wall_checked_valid};
use crate::noise::random_between;
use crate::text::{score_message, score_text};

verus! {

/// Smallest canvas edge, in pixels, that a game can run on: three cells, so
/// that a ball at full speed always has room to turn back from a wall.
pub const MIN_CANVAS: u32 = 75;

/// The mathematical state of a game.
pub struct GameState {
    /// Canvas width in pixels.
    pub width: int,
    /// Canvas height in pixels.
    pub height: int,
    /// Number of grid columns.
    pub nx: int,
    /// Number of grid rows.
    pub ny: int,
    /// Owner of each cell, column by column: cell `(i, j)` is at `i * ny + j`.
    pub cells: Seq<Side>,
    /// The balls, in the order they move.
    pub balls: Seq<Ball>,
}

impl GameState {
    /// Owner of cell `(i, j)`.
    pub open spec fn cell(self, i: int, j: int) -> Side {
        self.cells[cell_index(self.ny, i, j)]
    }

    /// The structure every game has, whatever the canvas: the grid has the
    /// size the canvas gives, and every ball's speed is within limits.
    pub open spec fn well_formed(self) -> bool {
        &&& 1 <= self.width <= u32::MAX
        &&& 1 <= self.height <= u32::MAX
        &&& self.nx == self.width / (SQUARE_SIZE as int)
        &&& self.ny == self.height / (SQUARE_SIZE as int)
        &&& self.cells.len() == self.nx * self.ny
        &&& forall|i: int| 0 <= i < self.balls.len() ==> #[trigger] self.balls[i].speed_in_limits()
    }

    /// The invariant of a running game: a well-formed game on a canvas of at
    /// least `MIN_CANVAS` pixels each way, with every ball inside the canvas.
    pub open spec fn valid(self) -> bool {
        &&& self.well_formed()
        &&& MIN_CANVAS <= self.width
        &&& MIN_CANVAS <= self.height
        &&& forall|i: int|
            0 <= i < self.balls.len() ==> #[trigger] self.balls[i].inside(self.width, self.height)
    }

    /// Cells owned by Day.
    pub open spec fn day_score(self) -> nat {
        count_side(self.cells, Side::Day)
    }

    /// Cells owned by Night.
    pub open spec fn night_score(self) -> nat {
        count_side(self.cells, Side::Night)
    }

    /// The state after ball `i` has run its contact samples against the grid.
    pub open spec fn collided(self, i: int) -> GameState {
        let (cells, b) = contacts(self.nx, self.ny, self.cells, self.balls[i], SAMPLES as nat);
        GameState { cells, balls: self.balls.update(i, b), ..self }
    }

    /// The state after ball `i` has been turned back from the walls.
    pub open spec fn wall_checked(self, i: int) -> GameState {
        GameState {
            balls: self.balls.update(i, self.balls[i].bounced(self.width, self.height)),
            ..self
        }
    }

    /// The state after ball `i` has moved by its velocity.
    pub open spec fn moved(self, i: int) -> GameState {
        GameState { balls: self.balls.update(i, self.balls[i].advanced()), ..self }
    }

    /// The state after ball `i` has had its velocity nudged by `(rx, ry)`
    /// and limited.
    pub open spec fn nudged(self, i: int, rx: int, ry: int) -> GameState {
        GameState { balls: self.balls.update(i, self.balls[i].nudged(rx, ry)), ..self }
    }

    /// One frame of ball `i`: contacts, walls, move, nudge.
    pub open spec fn ball_turn(self, i: int, rx: int, ry: int) -> GameState {
        self.collided(i).wall_checked(i).moved(i).nudged(i, rx, ry)
    }

    /// The state after the first `n` balls have taken their turn, ball `k`
    /// nudged by `noise[k]`.
    pub open spec fn turns(self, noise: Seq<(i64, i64)>, n: nat) -> GameState
        decreases n,
    {
        if n == 0 {
            self
        } else {
            self.turns(noise, (n - 1) as nat).ball_turn(
                n - 1,
                noise[n - 1].0 as int,
                noise[n - 1].1 as int,
            )
        }
    }

    /// The state after one frame, ball `k` nudged by `noise[k]`.
    pub open spec fn stepped(self, noise: Seq<(i64, i64)>) -> GameState {
        self.turns(noise, self.balls.len())
    }

    /// The state after one frame for each element of `frames`, in order.
    pub open spec fn played(self, frames: Seq<Seq<(i64, i64)>>) -> GameState
        decreases frames.len(),
    {
        if frames.len() == 0 {
            self
        } else {
            self.played(frames.drop_last()).stepped(frames.last())
        }
    }
}

/// Whether `noise` holds one nudge per ball, each component at most
/// `JITTER` in magnitude.
pub open spec fn noise_fits(noise: Seq<(i64, i64)>, balls: nat) -> bool {
    &&& noise.len() == balls
    &&& forall|k: int|
        0 <= k < noise.len() ==> -JITTER <= #[trigger] noise[k].0 <= JITTER && -JITTER
            <= noise[k].1 <= JITTER
}

/// A game in progress: the grid of cells and the balls that capture them.
pub struct PongWars {
    width: u32,
    height: u32,
    num_squares_x: usize,
    num_squares_y: usize,
    squares: Vec<Side>,
    balls: Vec<Ball>,
}

impl View for PongWars {
    type V = GameState;

    closed spec fn view(&self) -> GameState {
        GameState {
            width: self.width as int,
            height: self.height as int,
            nx: self.num_squares_x as int,
            ny: self.num_squares_y as int,
            cells: self.squares@,
            balls: self.balls@,
        }
    }
}

impl PongWars {
    /// Starts a game on a canvas of `width` by `height` pixels: one cell per
    /// whole `SQUARE_SIZE` square, the left half of the columns Day and the
    /// rest Night, a Day ball at a quarter of the width moving up and right,
    /// and a Night ball at three quarters moving down and left, both at
    /// half height. The pixel count of the canvas must fit in `usize`. The
    /// game can run once the canvas is at least `MIN_CANVAS` pixels each way.
    pub fn new(width: u32, height: u32) -> (r: PongWars)
        requires
            1 <= width,
            1 <= height,
            width as int * height as int <= usize::MAX,
        ensures
            r@.well_formed(),
            r@.width == width,
            r@.height == height,
            r@.nx == width / SQUARE_SIZE,
            r@.ny == height / SQUARE_SIZE,
            forall|i: int, j: int|
                0 <= i < r@.nx && 0 <= j < r@.ny ==> #[trigger] r@.cell(i, j) == starting_side(i, r@.nx),
            r@.day_score() == (r@.nx / 2) * r@.ny,
            r@.night_score() == (r@.nx - r@.nx / 2) * r@.ny,
            r@.balls == seq![
                Ball {
                    x: (width * 250_000) as i64,
                    y: (height * 500_000) as i64,
                    dx: START_SPEED,
                    dy: (-START_SPEED) as i64,
                    capture: Side::Day,
                    render: Side::Night,
                },
                Ball {
                    x: (width * 750_000) as i64,
                    y: (height * 500_000) as i64,
                    dx: (-START_SPEED) as i64,
                    dy: START_SPEED,
                    capture: Side::Night,
                    render: Side::Day,
                },
            ],
            2 * SQUARE_SIZE <= width && SQUARE_SIZE <= height ==> forall|i: int|
                0 <= i < r@.balls.len() ==> #[trigger] r@.balls[i].inside(width as int, height as int),
            MIN_CANVAS <= width && MIN_CANVAS <= height ==> r@.valid(),
    {
        let num_squares_x = (width / SQUARE_SIZE) as usize;
        let num_squares_y = (height / SQUARE_SIZE) as usize;
        proof {
            let (w, h) = (width as int, height as int);
            let (nx, ny) = (num_squares_x as int, num_squares_y as int);
            assert(nx * ny <= w * h) by (nonlinear_arith)
                requires
                    0 <= nx <= w,
                    0 <= ny <= h,
            ;
            assert((nx / 2) * ny <= nx * ny) by (nonlinear_arith)
                requires
                    0 <= nx,
                    0 <= ny,
            ;
        }
        let total = num_squares_x * num_squares_y;
        let split = (num_squares_x / 2) * num_squares_y;
        let mut squares: Vec<Side> = Vec::new();
        let mut c: usize = 0;
        while c < total
            invariant
                c <= total,
                split <= total,
                squares@.len() == c,
                forall|k: int| 0 <= k < c ==> #[trigger] squares@[k] == if k < split {
                    Side::Day
                } else {
                    Side::Night
                },
            decreases total - c,
        {
            let side = if c < split {
                Side::Day
            } else {
                Side::Night
            };
            squares.push(side);
            c = c + 1;
        }
        let w = width as i64;
        let h = height as i64;
        let back: i64 = -START_SPEED;
        let balls = vec![
            Ball {
                x: w * 250_000,
                y: h * 500_000,
                dx: START_SPEED,
                dy: back,
                capture: Side::Day,
                render: Side::Night,
            },
            Ball {
                x: w * 750_000,
                y: h * 500_000,
                dx: back,
                dy: START_SPEED,
                capture: Side::Night,
                render: Side::Day,
            },
        ];
        let r = PongWars { width, height, num_squares_x, num_squares_y, squares, balls };
        assert(r@.balls =~= seq![balls@[0], balls@[1]]);
        assert forall|i: int, j: int| 0 <= i < r@.nx && 0 <= j < r@.ny implies #[trigger] r@.cell(i, j)
            == starting_side(i, r@.nx) by {
            let (nx, ny) = (r@.nx, r@.ny);
            let h = nx / 2;
            assert(i * ny + j < nx * ny) by (nonlinear_arith)
                requires
                    0 <= i < nx,
                    0 <= j < ny,
            ;
            assert(0 <= i * ny + j) by (nonlinear_arith)
                requires
                    0 <= i,
                    0 <= j,
                    0 <= ny,
            ;
            assert((i * ny + j < h * ny) == (i < h)) by (nonlinear_arith)
                requires
                    0 <= i,
                    0 <= j < ny,
                    0 <= h,
            ;
        }
        proof {
            lemma_count_split(r@.cells, split as int);
            let (nx, ny) = (r@.nx, r@.ny);
            assert((nx - nx / 2) * ny == nx * ny - (nx / 2) * ny) by (nonlinear_arith);
        }
        r
    }

    /// Whether the game can run: the canvas is at least `MIN_CANVAS` pixels
    /// each way and every ball lies inside it.
    pub fn runnable(&self) -> (r: bool)
        requires
            self@.well_formed(),
        ensures
            r == self@.valid(),
    {
        if self.width < MIN_CANVAS || self.height < MIN_CANVAS {
            return false;
        }
        let high_x = self.width as i64 * SUBPIXELS - BALL_RADIUS;
        let high_y = self.height as i64 * SUBPIXELS - BALL_RADIUS;
        let mut i: usize = 0;
        while i < self.balls.len()
            invariant
                i <= self.balls@.len(),
                high_x == high_edge(self.width as int),
                high_y == high_edge(self.height as int),
                forall|k: int| 0 <= k < i ==> #[trigger] self.balls@[k].inside(self.width as int, self.height as int),
            decreases self.balls@.len() - i,
        {
            let b = self.balls[i];
            if b.x < BALL_RADIUS || b.x > high_x || b.y < BALL_RADIUS || b.y > high_y {
                assert(!self@.balls[i as int].inside(self@.width, self@.height));
                return false;
            }
            i = i + 1;
        }
        true
    }

    /// Runs the contact samples of ball `ball_index`: each sample point on
    /// the grid that lands on a cell of the other side repaints that cell and
    /// reverses one velocity component of the ball.
    pub fn check_square_collision(&mut self, ball_index: usize)
        requires
            old(self)@.valid(),
            ball_index < old(self)@.balls.len(),
        ensures
            final(self)@ == old(self)@.collided(ball_index as int),
            final(self)@.valid(),
    {
        let ghost start = self@;
        let mut b = self.balls[ball_index];
        let ghost b0 = b;
        assert(b0.inside(start.width, start.height));
        assert(b0.speed_in_limits());
        let mut k: usize = 0;
        while k < SAMPLES
            invariant
                k <= SAMPLES,
                start.valid(),
                ball_index < start.balls.len(),
                b0 == start.balls[ball_index as int],
                b0.inside(start.width, start.height),
                b0.speed_in_limits(),
                self.width == start.width,
                self.height == start.height,
                self.num_squares_x == start.nx,
                self.num_squares_y == start.ny,
                self.balls@ == start.balls,
                self.squares@.len() == start.cells.len(),
                (self.squares@, b) == contacts(start.nx, start.ny, start.cells, b0, k as nat),
                b.x == b0.x,
                b.y == b0.y,
                b.capture == b0.capture,
                b.render == b0.render,
                b.dx == b0.dx || b.dx == -b0.dx,
                b.dy == b0.dy || b.dy == -b0.dy,
            decreases SAMPLES - k,
        {
            let (ox, oy) = sample_offset_of(k);
            let px = b.x + ox;
            let py = b.y + oy;
            if px >= 0 && py >= 0 {
                assert(px / SQUARE_UNITS <= u32::MAX && py / SQUARE_UNITS <= u32::MAX);
                let i = (px / SQUARE_UNITS) as usize;
                let j = (py / SQUARE_UNITS) as usize;
                if i < self.num_squares_x && j < self.num_squares_y {
                    let ny = self.num_squares_y;
                    let len = self.squares.len();
                    proof {
                        let nx = self.num_squares_x;
                        assert(i * ny + j < nx * ny) by (nonlinear_arith)
                            requires
                                0 <= i < nx,
                                0 <= j < ny,
                        ;
                        assert(len == nx * ny);
                    }
                    let c = i * ny + j;
                    if self.squares[c] != b.capture {
                        self.squares.set(c, b.capture);
                        if k == 0 || k == 4 {
                            b.dx = -b.dx;
                        } else {
                            b.dy = -b.dy;
                        }
                    }
                }
            }
            k = k + 1;
        }
        self.balls.set(ball_index, b);
        proof {
            lemma_collided_valid(start, ball_index as int);
            assert(self@ == start.collided(ball_index as int));
        }
    }

    /// Reverses each velocity component of ball `ball_index` whose next
    /// position would leave the canvas; afterwards the next position lies
    /// inside.
    pub fn check_boundary_collision(&mut self, ball_index: usize)
        requires
            old(self)@.valid(),
            ball_index < old(self)@.balls.len(),
        ensures
            final(self)@ == old(self)@.wall_checked(ball_index as int),
            final(self)@.valid(),
            final(self)@.balls[ball_index as int].next_inside(final(self)@.width, final(self)@.height),
    {
        let ghost start = self@;
        let mut b = self.balls[ball_index];
        assert(start.balls[ball_index as int].inside(start.width, start.height));
        assert(start.balls[ball_index as int].speed_in_limits());
        b.bounce_off_walls(self.width, self.height);
        self.balls.set(ball_index, b);
        proof {
            lemma_wall_checked_valid(start, ball_index as int);
            assert(self@ == start.wall_checked(ball_index as int));
        }
    }

    /// Moves ball `ball_index` by its velocity; the wall check must have run
    /// so that the ball lands inside the canvas.
    pub fn update_ball(&mut self, ball_index: usize)
        requires
            old(self)@.valid(),
            ball_index < old(self)@.balls.len(),
            old(self)@.balls[ball_index as int].next_inside(old(self)@.width, old(self)@.height),
        ensures
            final(self)@ == old(self)@.moved(ball_index as int),
            final(self)@.valid(),
    {
        let ghost start = self@;
        let mut b = self.balls[ball_index];
        assert(start.balls[ball_index as int].inside(start.width, start.height));
        assert(start.balls[ball_index as int].speed_in_limits());
        b.advance();
        self.balls.set(ball_index, b);
        proof {
            lemma_moved_valid(start, ball_index as int);
            assert(self@ == start.moved(ball_index as int));
        }
    }

    /// Adds the nudge `(rx, ry)` to the velocity of ball `ball_index`, then
    /// brings each component back within the speed limits.
    pub fn nudge_ball(&mut self, ball_index: usize, rx: i64, ry: i64)
        requires
            old(self)@.valid(),
            ball_index < old(self)@.balls.len(),
            -JITTER <= rx <= JITTER,
            -JITTER <= ry <= JITTER,
        ensures
            final(self)@ == old(self)@.nudged(ball_index as int, rx as int, ry as int),
            final(self)@.valid(),
    {
        let ghost start = self@;
        let mut b = self.balls[ball_index];
        assert(start.balls[ball_index as int].inside(start.width, start.height));
        assert(start.balls[ball_index as int].speed_in_limits());
        b.nudge(rx, ry);
        self.balls.set(ball_index, b);
        proof {
            lemma_nudged_valid(start, ball_index as int, rx as int, ry as int);
            assert(self@ == start.nudged(ball_index as int, rx as int, ry as int));
        }
    }

    /// Nudges the velocity of ball `ball_index` by a random amount of at most
    /// `JITTER` per axis, then limits its speed.
    pub fn add_randomness(&mut self, ball_index: usize)
        requires
            old(self)@.valid(),
            ball_index < old(self)@.balls.len(),
        ensures
            final(self)@.valid(),
            exists|rx: int, ry: int|
                -JITTER <= rx <= JITTER && -JITTER <= ry <= JITTER && final(self)@ == old(
                    self,
                )@.nudged(ball_index as int, rx, ry),
    {
        let rx = random_between(-JITTER, JITTER);
        let ry = random_between(-JITTER, JITTER);
        self.nudge_ball(ball_index, rx, ry);
    }

    /// Plays one frame, ball after ball in order, ball `k` nudged by
    /// `noise[k]`: its contact samples, the wall check, the move and the
    /// nudge.
    pub fn step_with(&mut self, noise: &Vec<(i64, i64)>)
        requires
            old(self)@.valid(),
            noise_fits(noise@, old(self)@.balls.len()),
        ensures
            final(self)@ == old(self)@.stepped(noise@),
            final(self)@.valid(),
            final(self)@.width == old(self)@.width,
            final(self)@.height == old(self)@.height,
            final(self)@.balls.len() == old(self)@.balls.len(),
    {
        let ghost start = self@;
        let n = self.balls.len();
        let mut i: usize = 0;
        while i < n
            invariant
                i <= n,
                n == start.balls.len(),
                noise_fits(noise@, n as nat),
                self@ == start.turns(noise@, i as nat),
                self@.valid(),
                self@.balls.len() == n,
            decreases n - i,
        {
            let (rx, ry) = noise[i];
            self.check_square_collision(i);
            self.check_boundary_collision(i);
            self.update_ball(i);
            assert(-JITTER <= noise@[i as int].0 <= JITTER);
            self.nudge_ball(i, rx, ry);
            i = i + 1;
        }
        proof {
            lemma_turns_valid(start, noise@, n as nat);
        }
    }

    /// Plays one frame with a random nudge of at most `JITTER` per axis for
    /// each ball.
    pub fn step(&mut self)
        requires
            old(self)@.valid(),
        ensures
            final(self)@.valid(),
            final(self)@.width == old(self)@.width,
            final(self)@.height == old(self)@.height,
            final(self)@.balls.len() == old(self)@.balls.len(),
            exists|noise: Seq<(i64, i64)>|
                noise_fits(noise, old(self)@.balls.len()) && final(self)@ == old(
                    self,
                )@.stepped(noise),
    {
        let n = self.balls.len();
        let mut noise: Vec<(i64, i64)> = Vec::new();
        let mut i: usize = 0;
        while i < n
            invariant
                i <= n,
                noise_fits(noise@, i as nat),
            decreases n - i,
        {
            let rx = random_between(-JITTER, JITTER);
            let ry = random_between(-JITTER, JITTER);
            noise.push((rx, ry));
            i = i + 1;
        }
        self.step_with(&noise);
    }

    /// Counts the cells of each side: `(day, night)`.
    pub fn score(&self) -> (r: (usize, usize))
        ensures
            r.0 == self@.day_score(),
            r.1 == self@.night_score(),
            r.0 + r.1 == self@.cells.len(),
            self@.well_formed() ==> r.0 + r.1 == self@.nx * self@.ny,
    {
        count_sides(&self.squares)
    }

    /// The score line, such as `day 200 | night 200`, for the current grid.
    pub fn score_line(&self) -> (r: String)
        ensures
            r@ == score_message(self@.day_score(), self@.night_score()),
    {
        let (day, night) = self.score();
        score_text(day, night)
    }

    /// Canvas width in pixels.
    pub fn width(&self) -> (r: u32)
        ensures
            r == self@.width,
    {
        self.width
    }

    /// Canvas height in pixels.
    pub fn height(&self) -> (r: u32)
        ensures
            r == self@.height,
    {
        self.height
    }

    /// Number of grid columns.
    pub fn num_squares_x(&self) -> (r: usize)
        ensures
            r == self@.nx,
    {
        self.num_squares_x
    }

    /// Number of grid rows.
    pub fn num_squares_y(&self) -> (r: usize)
        ensures
            r == self@.ny,
    {
        self.num_squares_y
    }

    /// Owner of cell `(i, j)`.
    pub fn square(&self, i: usize, j: usize) -> (r: Side)
        requires
            self@.well_formed(),
            i < self@.nx,
            j < self@.ny,
        ensures
            r == self@.cell(i as int, j as int),
    {
        let ny = self.num_squares_y;
        let len = self.squares.len();
        proof {
            let nx = self.num_squares_x;
            assert(i * ny + j < nx * ny) by (nonlinear_arith)
                requires
                    0 <= i < nx,
                    0 <= j < ny,
            ;
            assert(len == nx * ny);
        }
        self.squares[i * ny + j]
    }

    /// Number of balls.
    pub fn ball_count(&self) -> (r: usize)
        ensures
            r == self@.balls.len(),
    {
        self.balls.len()
    }

    /// Ball `i`.
    pub fn ball(&self, i: usize) -> (r: Ball)
        requires
            i < self@.balls.len(),
        ensures
            r == self@.balls[i as int],
    {
        self.balls[i]
    }
}

} // verus!
