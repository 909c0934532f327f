use vstd::prelude::*;

verus! {

/// Sub-pixel units in one canvas pixel.
pub const SUBPIXELS: i64 = 1_000_000;

/// Edge of a grid cell, in canvas pixels.
pub const SQUARE_SIZE: u32 = 25;

/// Edge of a grid cell, in sub-pixel units.
pub const SQUARE_UNITS: i64 = 25_000_000;

/// Radius of a ball: half a cell, in sub-pixel units.
pub const BALL_RADIUS: i64 = 12_500_000;

/// The radius times cos 45 degrees, rounded to the nearest sub-pixel unit:
/// the offset along each axis of a diagonal contact sample.
pub const DIAGONAL_OFFSET: i64 = 8_838_835;

/// Smallest speed along either axis after a step (5 pixels per frame).
pub const MIN_SPEED: i64 = 5_000_000;

/// Largest speed along either axis after a step (25 pixels per frame).
pub const MAX_SPEED: i64 = 25_000_000;

/// Speed along each axis that the balls start with (12.5 pixels per frame).
pub const START_SPEED: i64 = 12_500_000;

/// Bound of the random velocity nudge per axis and frame (0.005 pixel).
pub const JITTER: i64 = 5_000;

/// One of the two teams that own grid cells.
#[derive(Clone, Copy, Debug, PartialEq, Eq, Structural)]
pub enum Side {
    Day,
    Night,
}

/// A bouncing ball. Position and velocity are in sub-pixel units; `capture`
/// is the side whose colour it paints cells with, `render` the side whose
/// colour it is drawn in.
#[derive(Clone, Copy, Debug, PartialEq, Eq, Structural)]
pub struct Ball {
    pub x: i64,
    pub y: i64,
    pub dx: i64,
    pub dy: i64,
    pub capture: Side,
    pub render: Side,
}

/// Smallest coordinate a ball centre may take: one radius from the edge.
pub open spec fn low_edge() -> int {
    BALL_RADIUS as int
}

/// Largest coordinate a ball centre may take along an axis of `extent` pixels.
pub open spec fn high_edge(extent: int) -> int {
    extent * SUBPIXELS - BALL_RADIUS
}

/// Whether moving from `p` by `v` would leave the allowed range of an axis of
/// `extent` pixels.
pub open spec fn leaves(p: int, v: int, extent: int) -> bool {
    p + v > high_edge(extent) || p + v < low_edge()
}

/// The velocity component after the wall check on one axis.
pub open spec fn wall_velocity(p: int, v: int, extent: int) -> int {
    if leaves(p, v, extent) {
        -v
    } else {
        v
    }
}

/// A speed component pushed back into `[MIN_SPEED, MAX_SPEED]` in magnitude:
/// first clamped to the maximum, then, if too slow, set to the minimum with
/// its sign kept (zero counts as negative).
pub open spec fn limit_speed(v: int) -> int {
    let c = if v < -MAX_SPEED {
        -MAX_SPEED as int
    } else if v > MAX_SPEED {
        MAX_SPEED as int
    } else {
        v
    };
    if -MIN_SPEED < c && c < MIN_SPEED {
        if c > 0 {
            MIN_SPEED as int
        } else {
            -MIN_SPEED as int
        }
    } else {
        c
    }
}

/// Whether a speed component lies within the speed limits.
pub open spec fn speed_ok(v: int) -> bool {
    (MIN_SPEED <= v && v <= MAX_SPEED) || (-MAX_SPEED <= v && v <= -MIN_SPEED)
}

impl Ball {
    /// The ball with its horizontal velocity reversed.
    pub open spec fn flip_dx(self) -> Ball {
        Ball { x: self.x, y: self.y, dx: (-self.dx) as i64, dy: self.dy, capture: self.capture, render: self.render }
    }

    /// The ball with its vertical velocity reversed.
    pub open spec fn flip_dy(self) -> Ball {
        Ball { x: self.x, y: self.y, dx: self.dx, dy: (-self.dy) as i64, capture: self.capture, render: self.render }
    }

    /// The ball after the wall check on a canvas of `width` by `height` pixels.
    pub open spec fn bounced(self, width: int, height: int) -> Ball {
        Ball {
            x: self.x,
            y: self.y,
            dx: wall_velocity(self.x as int, self.dx as int, width) as i64,
            dy: wall_velocity(self.y as int, self.dy as int, height) as i64,
            capture: self.capture,
            render: self.render,
        }
    }

    /// The ball moved by one frame of its velocity.
    pub open spec fn advanced(self) -> Ball {
        Ball {
            x: (self.x + self.dx) as i64,
            y: (self.y + self.dy) as i64,
            dx: self.dx,
            dy: self.dy,
            capture: self.capture,
            render: self.render,
        }
    }

    /// The ball with the nudge `(rx, ry)` added to its velocity, then each
    /// component brought back within the speed limits.
    pub open spec fn nudged(self, rx: int, ry: int) -> Ball {
        Ball {
            x: self.x,
            y: self.y,
            dx: limit_speed(self.dx + rx) as i64,
            dy: limit_speed(self.dy + ry) as i64,
            capture: self.capture,
            render: self.render,
        }
    }

    /// Both velocity components are within the speed limits.
    pub open spec fn speed_in_limits(self) -> bool {
        speed_ok(self.dx as int) && speed_ok(self.dy as int)
    }

    /// The centre lies within the allowed box of a `width` by `height` canvas.
    pub open spec fn inside(self, width: int, height: int) -> bool {
        low_edge() <= self.x && self.x <= high_edge(width) && low_edge() <= self.y && self.y
            <= high_edge(height)
    }

    /// The centre one frame ahead lies within the allowed box.
    pub open spec fn next_inside(self, width: int, height: int) -> bool {
        self.advanced_fits() && self.advanced().inside(width, height)
    }

    /// Moving by one frame of velocity stays within `i64`.
    pub open spec fn advanced_fits(self) -> bool {
        i64::MIN <= self.x + self.dx <= i64::MAX && i64::MIN <= self.y + self.dy <= i64::MAX
    }

    /// Reverses the velocity on each axis along which the next position would
    /// leave the canvas of `width` by `height` pixels, keeping one radius from
    /// every edge.
    pub fn bounce_off_walls(&mut self, width: u32, height: u32)
        requires
            old(self).advanced_fits(),
            old(self).dx != i64::MIN,
            old(self).dy != i64::MIN,
        ensures
            *final(self) == old(self).bounced(width as int, height as int),
    {
        let high_x = width as i64 * SUBPIXELS - BALL_RADIUS;
        let high_y = height as i64 * SUBPIXELS - BALL_RADIUS;
        let next_x = self.x + self.dx;
        if next_x > high_x || next_x < BALL_RADIUS {
            self.dx = -self.dx;
        }
        let next_y = self.y + self.dy;
        if next_y > high_y || next_y < BALL_RADIUS {
            self.dy = -self.dy;
        }
    }

    /// Moves the ball by its velocity.
    pub fn advance(&mut self)
        requires
            old(self).advanced_fits(),
        ensures
            *final(self) == old(self).advanced(),
    {
        self.x = self.x + self.dx;
        self.y = self.y + self.dy;
    }

    /// Adds the nudge `(rx, ry)` to the velocity, then brings each component
    /// back within `[MIN_SPEED, MAX_SPEED]` in magnitude.
    pub fn nudge(&mut self, rx: i64, ry: i64)
        requires
            i64::MIN <= old(self).dx + rx <= i64::MAX,
            i64::MIN <= old(self).dy + ry <= i64::MAX,
        ensures
            *final(self) == old(self).nudged(rx as int, ry as int),
            final(self).speed_in_limits(),
    {
        self.dx = limited_speed(self.dx + rx);
        self.dy = limited_speed(self.dy + ry);
    }
}

/// Brings a speed component back within `[MIN_SPEED, MAX_SPEED]` in
/// magnitude, as `limit_speed` describes.
pub fn limited_speed(v: i64) -> (r: i64)
    ensures
        r == limit_speed(v as int),
        speed_ok(r as int),
{
    let mut c = if v < -MAX_SPEED {
        -MAX_SPEED
    } else if v > MAX_SPEED {
        MAX_SPEED
    } else {
        v
    };
    if -MIN_SPEED < c && c < MIN_SPEED {
        c = if c > 0 {
            MIN_SPEED
        } else {
            -MIN_SPEED
        };
    }
    c
}

} // verus!
