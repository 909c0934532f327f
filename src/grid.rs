use vstd::prelude::*;

use crate::ball::{Ball, Side, BALL_RADIUS, DIAGONAL_OFFSET, SQUARE_UNITS};

verus! {

/// Number of contact samples taken around a ball each frame.
pub const SAMPLES: usize = 8;

/// Position of cell `(i, j)` (column `i`, row `j`) in the column-major cell
/// sequence of a grid with `ny` rows.
pub open spec fn cell_index(ny: int, i: int, j: int) -> int {
    i * ny + j
}

/// The side that owns column `i` of a grid of `nx` columns when a game
/// starts: the left half is Day, the rest Night.
pub open spec fn starting_side(i: int, nx: int) -> Side {
    if i < nx / 2 {
        Side::Day
    } else {
        Side::Night
    }
}

/// Offset from a ball's centre of contact sample `k`, taken at the angle
/// `k * 45` degrees on the ball's rim (y grows downwards on the canvas).
pub open spec fn sample_offset(k: int) -> (int, int) {
    let r = BALL_RADIUS as int;
    let d = DIAGONAL_OFFSET as int;
    if k == 0 {
        (r, 0)
    } else if k == 1 {
        (d, d)
    } else if k == 2 {
        (0, r)
    } else if k == 3 {
        (-d, d)
    } else if k == 4 {
        (-r, 0)
    } else if k == 5 {
        (-d, -d)
    } else if k == 6 {
        (0, -r)
    } else {
        (d, -d)
    }
}

/// Whether contact sample `k` is more horizontal than vertical
/// (`|cos| > |sin|`); the diagonal samples count as vertical.
pub open spec fn horizontal_contact(k: int) -> bool {
    k == 0 || k == 4
}

/// The cell, as a position in the cell sequence, that holds the point
/// `(px, py)` of a grid of `nx` by `ny` cells; `None` off the grid.
pub open spec fn cell_at(nx: int, ny: int, px: int, py: int) -> Option<int> {
    if 0 <= px && 0 <= py && px / (SQUARE_UNITS as int) < nx && py / (SQUARE_UNITS as int) < ny {
        Some(cell_index(ny, px / (SQUARE_UNITS as int), py / (SQUARE_UNITS as int)))
    } else {
        None
    }
}

/// Cells and ball after contact sample `k`: a sample that lands on a cell of
/// the other side repaints it in the ball's capture side and reverses the
/// ball's horizontal velocity for a horizontal contact, its vertical velocity
/// otherwise.
pub open spec fn contact(nx: int, ny: int, cells: Seq<Side>, b: Ball, k: int) -> (Seq<Side>, Ball) {
    let (ox, oy) = sample_offset(k);
    match cell_at(nx, ny, b.x + ox, b.y + oy) {
        Some(c) => if cells[c] != b.capture {
            (
                cells.update(c, b.capture),
                if horizontal_contact(k) {
                    b.flip_dx()
                } else {
                    b.flip_dy()
                },
            )
        } else {
            (cells, b)
        },
        None => (cells, b),
    }
}

/// Cells and ball after the first `k` contact samples, in order.
pub open spec fn contacts(nx: int, ny: int, cells: Seq<Side>, b: Ball, k: nat) -> (Seq<Side>, Ball)
    decreases k,
{
    if k == 0 {
        (cells, b)
    } else {
        let (c, b1) = contacts(nx, ny, cells, b, (k - 1) as nat);
        contact(nx, ny, c, b1, k - 1)
    }
}

/// Whether the cell under contact sample `k` of ball `b`, if it is on the
/// grid, belongs to the ball's capture side.
pub open spec fn sample_captured(nx: int, ny: int, cells: Seq<Side>, b: Ball, k: int) -> bool {
    let (ox, oy) = sample_offset(k);
    match cell_at(nx, ny, b.x + ox, b.y + oy) {
        Some(c) => cells[c] == b.capture,
        None => true,
    }
}

/// How many cells of `cells` belong to side `s`.
pub open spec fn count_side(cells: Seq<Side>, s: Side) -> nat
    decreases cells.len(),
{
    if cells.len() == 0 {
        0
    } else {
        count_side(cells.drop_last(), s) + if cells.last() == s {
            1nat
        } else {
            0nat
        }
    }
}

/// Every cell is counted for exactly one of the two sides.
pub proof fn lemma_counts_cover(cells: Seq<Side>)
    ensures
        count_side(cells, Side::Day) + count_side(cells, Side::Night) == cells.len(),
    decreases cells.len(),
{
    if cells.len() > 0 {
        lemma_counts_cover(cells.drop_last());
    }
}

/// A sequence whose first `m` cells are Day and the rest Night has `m` Day
/// cells and the rest Night cells.
pub proof fn lemma_count_split(cells: Seq<Side>, m: int)
    requires
        0 <= m <= cells.len(),
        forall|k: int| 0 <= k < cells.len() ==> #[trigger] cells[k] == if k < m {
            Side::Day
        } else {
            Side::Night
        },
    ensures
        count_side(cells, Side::Day) == m,
        count_side(cells, Side::Night) == cells.len() - m,
    decreases cells.len(),
{
    if cells.len() > 0 {
        let rest = cells.drop_last();
        let m1 = if m < cells.len() { m } else { m - 1 };
        assert forall|k: int| 0 <= k < rest.len() implies #[trigger] rest[k] == if k < m1 {
            Side::Day
        } else {
            Side::Night
        } by {
            assert(rest[k] == cells[k]);
        }
        lemma_count_split(rest, m1);
    }
}

/// Offset of contact sample `k` from the ball's centre.
pub fn sample_offset_of(k: usize) -> (r: (i64, i64))
    requires
        k < SAMPLES,
    ensures
        r.0 as int == sample_offset(k as int).0,
        r.1 as int == sample_offset(k as int).1,
{
    if k == 0 {
        (BALL_RADIUS, 0)
    } else if k == 1 {
        (DIAGONAL_OFFSET, DIAGONAL_OFFSET)
    } else if k == 2 {
        (0, BALL_RADIUS)
    } else if k == 3 {
        (-DIAGONAL_OFFSET, DIAGONAL_OFFSET)
    } else if k == 4 {
        (-BALL_RADIUS, 0)
    } else if k == 5 {
        (-DIAGONAL_OFFSET, -DIAGONAL_OFFSET)
    } else if k == 6 {
        (0, -BALL_RADIUS)
    } else {
        (DIAGONAL_OFFSET, -DIAGONAL_OFFSET)
    }
}

/// Counts the cells of each side: `(day, night)`.
pub fn count_sides(cells: &Vec<Side>) -> (r: (usize, usize))
    ensures
        r.0 == count_side(cells@, Side::Day),
        r.1 == count_side(cells@, Side::Night),
        r.0 + r.1 == cells@.len(),
{
    let mut day: usize = 0;
    let mut night: usize = 0;
    let mut c: usize = 0;
    while c < cells.len()
        invariant
            c <= cells@.len(),
            day == count_side(cells@.subrange(0, c as int), Side::Day),
            night == count_side(cells@.subrange(0, c as int), Side::Night),
        decreases cells@.len() - c,
    {
        proof {
            assert(cells@.subrange(0, c + 1).drop_last() =~= cells@.subrange(0, c as int));
            lemma_counts_cover(cells@.subrange(0, c as int));
        }
        if cells[c] == Side::Day {
            day = day + 1;
        } else {
            night = night + 1;
        }
        c = c + 1;
    }
    proof {
        assert(cells@.subrange(0, c as int) =~= cells@);
        lemma_counts_cover(cells@);
    }
    (day, night)
}

} // verus!
