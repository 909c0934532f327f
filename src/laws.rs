use vstd::prelude::*;

use crate::ball::{limit_speed, speed_ok, Ball, JITTER, MAX_SPEED, SQUARE_UNITS};
use crate::game::{noise_fits, GameState, MIN_CANVAS};
use crate::grid::{
    cell_at, cell_index, contact, contacts, lemma_counts_cover, sample_captured, sample_offset,
};
use crate::grid::SAMPLES;
use crate::ball::Side;
use crate::text::score_message;

verus! {

/// The wall check keeps a ball in the canvas: for a ball inside a canvas of
/// at least `MIN_CANVAS` pixels each way, moving no faster than `MAX_SPEED`
/// per axis, the position one frame ahead after the check lies inside.
pub proof fn lemma_wall_check_keeps_inside(b: Ball, width: int, height: int)
    requires
        MIN_CANVAS <= width <= u32::MAX,
        MIN_CANVAS <= height <= u32::MAX,
        b.inside(width, height),
        -MAX_SPEED <= b.dx <= MAX_SPEED,
        -MAX_SPEED <= b.dy <= MAX_SPEED,
    ensures
        b.bounced(width, height).next_inside(width, height),
{
}

/// Every cell a contact sample touches lies on the grid: when the point
/// `(px, py)` maps to a cell, its column is below `nx`, its row below `ny`,
/// and its place in the cell sequence below `nx * ny`.
pub proof fn lemma_sampled_cell_on_grid(nx: int, ny: int, px: int, py: int)
    requires
        0 <= nx,
        0 <= ny,
    ensures
        cell_at(nx, ny, px, py) matches Some(c) ==> {
            let i = px / (SQUARE_UNITS as int);
            let j = py / (SQUARE_UNITS as int);
            &&& 0 <= i < nx
            &&& 0 <= j < ny
            &&& c == cell_index(ny, i, j)
            &&& 0 <= c < nx * ny
        },
{
    if let Some(c) = cell_at(nx, ny, px, py) {
        let i = px / (SQUARE_UNITS as int);
        let j = py / (SQUARE_UNITS as int);
        assert(i * ny + j < nx * ny) by (nonlinear_arith)
            requires
                0 <= i < nx,
                0 <= j < ny,
        ;
        assert(0 <= i * ny) by (nonlinear_arith)
            requires
                0 <= i,
                0 <= ny,
        ;
    }
}

/// Contact samples repaint cells without changing how many there are, and
/// change a ball only by reversing velocity components.
pub proof fn lemma_contacts_keep_ball(nx: int, ny: int, cells: Seq<Side>, b: Ball, k: nat)
    requires
        0 <= nx,
        0 <= ny,
        cells.len() == nx * ny,
        b.speed_in_limits(),
    ensures
        ({
            let (c, b1) = contacts(nx, ny, cells, b, k);
            &&& c.len() == cells.len()
            &&& b1.x == b.x
            &&& b1.y == b.y
            &&& b1.capture == b.capture
            &&& b1.render == b.render
            &&& b1.dx == b.dx || b1.dx == -b.dx
            &&& b1.dy == b.dy || b1.dy == -b.dy
            &&& b1.speed_in_limits()
        }),
    decreases k,
{
    if k > 0 {
        lemma_contacts_keep_ball(nx, ny, cells, b, (k - 1) as nat);
        let (c, b1) = contacts(nx, ny, cells, b, (k - 1) as nat);
        let (ox, oy) = sample_offset(k - 1);
        lemma_sampled_cell_on_grid(nx, ny, b1.x + ox, b1.y + oy);
    }
}

/// After the first `n` contact samples of ball `b`, the cell under each of
/// those samples that lies on the grid belongs to the ball's capture side.
pub proof fn lemma_contacts_capture(nx: int, ny: int, cells: Seq<Side>, b: Ball, n: nat)
    requires
        0 <= nx,
        0 <= ny,
        cells.len() == nx * ny,
        b.speed_in_limits(),
    ensures
        forall|k: int|
            0 <= k < n ==> #[trigger] sample_captured(nx, ny, contacts(nx, ny, cells, b, n).0, b, k),
    decreases n,
{
    if n > 0 {
        let m = (n - 1) as nat;
        lemma_contacts_capture(nx, ny, cells, b, m);
        lemma_contacts_keep_ball(nx, ny, cells, b, m);
        let (c1, b1) = contacts(nx, ny, cells, b, m);
        let c2 = contacts(nx, ny, cells, b, n).0;
        assert(c2 == contact(nx, ny, c1, b1, m as int).0);
        let (ox, oy) = sample_offset(m as int);
        lemma_sampled_cell_on_grid(nx, ny, b.x + ox, b.y + oy);
        assert forall|k: int| 0 <= k < n implies #[trigger] sample_captured(nx, ny, c2, b, k) by {
            let (kx, ky) = sample_offset(k);
            lemma_sampled_cell_on_grid(nx, ny, b.x + kx, b.y + ky);
            if k < m {
                assert(sample_captured(nx, ny, c1, b, k));
            }
        }
    }
}

/// A ball's turn captures what it touches: once ball `i` of a valid game has
/// run its contact samples, every grid cell under one of its samples belongs
/// to the ball's capture side, whatever side it held before.
pub proof fn lemma_turn_captures_touched_cells(g: GameState, i: int)
    requires
        g.valid(),
        0 <= i < g.balls.len(),
    ensures
        forall|k: int|
            0 <= k < SAMPLES ==> #[trigger] sample_captured(g.nx, g.ny, g.collided(i).cells, g.balls[i], k),
{
    assert(g.balls[i].speed_in_limits());
    lemma_contacts_capture(g.nx, g.ny, g.cells, g.balls[i], SAMPLES as nat);
}

/// A ball's contact samples keep a game valid.
pub proof fn lemma_collided_valid(g: GameState, i: int)
    requires
        g.valid(),
        0 <= i < g.balls.len(),
    ensures
        g.collided(i).valid(),
        g.collided(i).balls.len() == g.balls.len(),
{
    let b = g.balls[i];
    assert(b.inside(g.width, g.height));
    assert(b.speed_in_limits());
    lemma_contacts_keep_ball(g.nx, g.ny, g.cells, b, SAMPLES as nat);
    let h = g.collided(i);
    assert forall|k: int| 0 <= k < h.balls.len() implies #[trigger] h.balls[k].inside(h.width, h.height) by {
        if k != i {
            assert(h.balls[k] == g.balls[k]);
            assert(g.balls[k].inside(g.width, g.height));
        }
    }
    assert forall|k: int| 0 <= k < h.balls.len() implies #[trigger] h.balls[k].speed_in_limits() by {
        if k != i {
            assert(h.balls[k] == g.balls[k]);
            assert(g.balls[k].speed_in_limits());
        }
    }
}

/// The wall check keeps a game valid, and leaves the ball's next position
/// inside the canvas.
pub proof fn lemma_wall_checked_valid(g: GameState, i: int)
    requires
        g.valid(),
        0 <= i < g.balls.len(),
    ensures
        g.wall_checked(i).valid(),
        g.wall_checked(i).balls.len() == g.balls.len(),
        g.wall_checked(i).balls[i].next_inside(g.width, g.height),
{
    let b = g.balls[i];
    assert(b.inside(g.width, g.height));
    assert(b.speed_in_limits());
    lemma_wall_check_keeps_inside(b, g.width, g.height);
    let h = g.wall_checked(i);
    assert forall|k: int| 0 <= k < h.balls.len() implies #[trigger] h.balls[k].inside(h.width, h.height) by {
        if k != i {
            assert(h.balls[k] == g.balls[k]);
            assert(g.balls[k].inside(g.width, g.height));
        }
    }
    assert forall|k: int| 0 <= k < h.balls.len() implies #[trigger] h.balls[k].speed_in_limits() by {
        if k != i {
            assert(h.balls[k] == g.balls[k]);
            assert(g.balls[k].speed_in_limits());
        }
    }
}

/// Moving a ball whose next position is inside keeps a game valid.
pub proof fn lemma_moved_valid(g: GameState, i: int)
    requires
        g.valid(),
        0 <= i < g.balls.len(),
        g.balls[i].next_inside(g.width, g.height),
    ensures
        g.moved(i).valid(),
        g.moved(i).balls.len() == g.balls.len(),
{
    let b = g.balls[i];
    assert(b.inside(g.width, g.height));
    assert(b.speed_in_limits());
    let h = g.moved(i);
    assert forall|k: int| 0 <= k < h.balls.len() implies #[trigger] h.balls[k].inside(h.width, h.height) by {
        if k != i {
            assert(h.balls[k] == g.balls[k]);
            assert(g.balls[k].inside(g.width, g.height));
        }
    }
    assert forall|k: int| 0 <= k < h.balls.len() implies #[trigger] h.balls[k].speed_in_limits() by {
        if k != i {
            assert(h.balls[k] == g.balls[k]);
            assert(g.balls[k].speed_in_limits());
        }
    }
}

/// Nudging a ball by at most `JITTER` per axis keeps a game valid.
pub proof fn lemma_nudged_valid(g: GameState, i: int, rx: int, ry: int)
    requires
        g.valid(),
        0 <= i < g.balls.len(),
        -JITTER <= rx <= JITTER,
        -JITTER <= ry <= JITTER,
    ensures
        g.nudged(i, rx, ry).valid(),
        g.nudged(i, rx, ry).balls.len() == g.balls.len(),
{
    let b = g.balls[i];
    assert(b.inside(g.width, g.height));
    assert(b.speed_in_limits());
    lemma_speed_limited(b.dx + rx);
    lemma_speed_limited(b.dy + ry);
    let h = g.nudged(i, rx, ry);
    assert forall|k: int| 0 <= k < h.balls.len() implies #[trigger] h.balls[k].inside(h.width, h.height) by {
        if k != i {
            assert(h.balls[k] == g.balls[k]);
            assert(g.balls[k].inside(g.width, g.height));
        }
    }
    assert forall|k: int| 0 <= k < h.balls.len() implies #[trigger] h.balls[k].speed_in_limits() by {
        if k != i {
            assert(h.balls[k] == g.balls[k]);
            assert(g.balls[k].speed_in_limits());
        }
    }
}

/// The first `n` turns of a frame keep a game valid and its balls.
pub proof fn lemma_turns_valid(g: GameState, noise: Seq<(i64, i64)>, n: nat)
    requires
        g.valid(),
        noise_fits(noise, g.balls.len()),
        n <= g.balls.len(),
    ensures
        g.turns(noise, n).valid(),
        g.turns(noise, n).balls.len() == g.balls.len(),
        g.turns(noise, n).width == g.width,
        g.turns(noise, n).height == g.height,
    decreases n,
{
    if n > 0 {
        let k = n - 1;
        lemma_turns_valid(g, noise, k as nat);
        let h = g.turns(noise, k as nat);
        lemma_collided_valid(h, k);
        lemma_wall_checked_valid(h.collided(k), k);
        lemma_moved_valid(h.collided(k).wall_checked(k), k);
        assert(-JITTER <= noise[k].0 <= JITTER);
        lemma_nudged_valid(h.collided(k).wall_checked(k).moved(k), k, noise[k].0 as int, noise[k].1 as int);
    }
}

/// Speeds stay bounded and balls stay in the canvas over any number of
/// frames: after every frame of `frames`, each with one nudge of at most
/// `JITTER` per axis and ball, every ball of a valid game moves at between
/// `MIN_SPEED` and `MAX_SPEED` along each axis, and the game stays valid.
pub proof fn lemma_speed_bounded_after_frames(g: GameState, frames: Seq<Seq<(i64, i64)>>)
    requires
        g.valid(),
        forall|f: int| 0 <= f < frames.len() ==> noise_fits(#[trigger] frames[f], g.balls.len()),
    ensures
        g.played(frames).valid(),
        g.played(frames).balls.len() == g.balls.len(),
        forall|i: int|
            0 <= i < g.balls.len() ==> #[trigger] g.played(frames).balls[i].speed_in_limits(),
    decreases frames.len(),
{
    if frames.len() > 0 {
        let rest = frames.drop_last();
        assert forall|f: int| 0 <= f < rest.len() implies noise_fits(#[trigger] rest[f], g.balls.len()) by {
            assert(rest[f] == frames[f]);
        }
        lemma_speed_bounded_after_frames(g, rest);
        let h = g.played(rest);
        assert(noise_fits(frames[frames.len() - 1], g.balls.len()));
        lemma_turns_valid(h, frames.last(), h.balls.len());
    }
    let p = g.played(frames);
    assert forall|i: int| 0 <= i < g.balls.len() implies #[trigger] p.balls[i].speed_in_limits() by {
        assert(p.balls[i].inside(p.width, p.height));
    }
}

/// Speed limiting always lands within the limits: whatever the velocity
/// component `v` was after its nudge, the limited one has magnitude between
/// `MIN_SPEED` and `MAX_SPEED`.
pub proof fn lemma_speed_limited(v: int)
    ensures
        speed_ok(limit_speed(v)),
{
}

/// In a valid game every cell is counted for exactly one side, so the two
/// scores add up to the number of cells of the grid.
pub proof fn lemma_scores_cover_grid(g: GameState)
    requires
        g.valid(),
    ensures
        g.day_score() + g.night_score() == g.nx * g.ny,
{
    lemma_counts_cover(g.cells);
}

/// The score line depends on the cells alone: two games with the same cells,
/// such as one game read twice with no move in between, give the same line.
pub proof fn lemma_score_line_stable(g1: GameState, g2: GameState)
    requires
        g1.cells == g2.cells,
    ensures
        score_message(g1.day_score(), g1.night_score()) == score_message(
            g2.day_score(),
            g2.night_score(),
        ),
{
}

} // verus!
