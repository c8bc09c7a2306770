//! A UFO: position, velocity, colour, movement strategy and trail.

use vstd::prelude::*;
use crate::{AFTER_IMAGE_COUNT, SPEED, UNIT};
use crate::chance::draw_below;
use crate::geometry::{in_coord_range, COORD_LIMIT};
use crate::strategy::{enemy_strategy, strategy_color, Color, Strategy};

verus! {

/// A trail point: position and the colour the UFO had there.
pub type TrailPoint = (i64, i64, Color);

/// A flying object that moves according to its strategy.
pub struct Ufo {
    /// Horizontal position, in units.
    pub x: i64,
    /// Vertical position, in units.
    pub y: i64,
    /// Current colour.
    pub color: Color,
    /// Horizontal speed, in units per frame.
    pub xspeed: i64,
    /// Vertical speed, in units per frame.
    pub yspeed: i64,
    /// Movement strategy.
    pub movement: Strategy,
    /// Recent positions, oldest first.
    pub after_images: Vec<TrailPoint>,
}

/// The trail after recording one more point: the point is appended, and the
/// oldest is dropped once there are more than `AFTER_IMAGE_COUNT`.
pub open spec fn trail_push(t: Seq<TrailPoint>, p: TrailPoint) -> Seq<TrailPoint> {
    if t.len() + 1 > AFTER_IMAGE_COUNT {
        t.push(p).drop_first()
    } else {
        t.push(p)
    }
}

/// The vertical band in which enemies appear: the middle half of the screen.
pub open spec fn in_spawn_band(y: int, height: int) -> bool {
    if height / 2 == 0 {
        y == height / 4
    } else {
        height / 4 <= y < height / 4 + height / 2
    }
}

/// Number of steps into which the spawn band is divided.
pub const BAND_STEPS: i64 = 1_000_000;

/// The height of the `step`-th of `BAND_STEPS` even steps down the spawn band.
pub open spec fn spawn_y(height: int, step: int) -> int {
    height / 4 + step * (height / 2) / (BAND_STEPS as int)
}

/// The height of the `step`-th of `BAND_STEPS` even steps down the spawn band
/// of a screen of the given height.
pub fn spawn_height(height: i64, step: i64) -> (y: i64)
    requires
        0 <= height <= COORD_LIMIT,
        0 <= step < BAND_STEPS,
    ensures
        y == spawn_y(height as int, step as int),
        in_spawn_band(y as int, height as int),
{
    let half = height / 2;
    proof {
        assert(step * half <= BAND_STEPS * half) by (nonlinear_arith)
            requires 0 <= step < BAND_STEPS, 0 <= half;
        assert(0 <= step * half) by (nonlinear_arith)
            requires 0 <= step, 0 <= half;
        assert(half > 0 ==> (step * half) / (BAND_STEPS as int) < half) by (nonlinear_arith)
            requires 0 <= step < BAND_STEPS, 0 <= half;
        assert((step * half) / (BAND_STEPS as int) <= half) by (nonlinear_arith)
            requires 0 <= step < BAND_STEPS, 0 <= half;
    }
    height / 4 + step * half / BAND_STEPS
}

impl Ufo {
    /// Coordinates in range, speeds bounded by `SPEED`, trail bounded.
    pub open spec fn wf(&self) -> bool {
        &&& in_coord_range(self.x as int)
        &&& in_coord_range(self.y as int)
        &&& -SPEED <= self.xspeed <= SPEED
        &&& -SPEED <= self.yspeed <= SPEED
        &&& self.after_images@.len() <= AFTER_IMAGE_COUNT
    }

    /// The next position stays in range.
    pub open spec fn can_advance(&self) -> bool {
        &&& in_coord_range(self.x + self.xspeed)
        &&& in_coord_range(self.y + self.yspeed)
    }

    /// A new enemy at `(x, y)`, moving left, painted in its strategy's colour.
    pub fn enemy_at(x: i64, y: i64, movement: Strategy) -> (u: Ufo)
        ensures
            u.x == x,
            u.y == y,
            u.movement == movement,
            u.color == strategy_color(movement),
            u.xspeed == -SPEED,
            u.yspeed == 0,
            u.after_images@ == Seq::<TrailPoint>::empty(),
    {
        Ufo {
            x,
            y,
            color: movement.color(),
            xspeed: -SPEED,
            yspeed: 0,
            movement,
            after_images: Vec::new(),
        }
    }

    /// A new enemy with a random strategy at the right edge of a screen of the
    /// given size, at a random height in the middle half.
    pub fn enemy(width: i64, height: i64) -> (u: Ufo)
        requires
            0 <= width <= COORD_LIMIT,
            0 <= height <= COORD_LIMIT,
        ensures
            u.x == width,
            exists|step: int| 0 <= step < BAND_STEPS && u.y == #[trigger] spawn_y(height as int, step),
            in_spawn_band(u.y as int, height as int),
            exists|pick: i64| 0 <= pick < 3 && u.movement == #[trigger] enemy_strategy(pick),
            u.movement != Strategy::Player,
            u.color == strategy_color(u.movement),
            u.xspeed == -SPEED,
            u.yspeed == 0,
            u.after_images@ == Seq::<TrailPoint>::empty(),
            u.wf(),
    {
        let movement = Strategy::random_enemy();
        let step = draw_below(BAND_STEPS);
        Ufo::enemy_at(width, spawn_height(height, step), movement)
    }

    /// The player's UFO, at rest at (100, 100) pixels.
    pub fn player() -> (u: Ufo)
        ensures
            u.x == 100 * UNIT,
            u.y == 100 * UNIT,
            u.movement == Strategy::Player,
            u.color == Color::Blue,
            u.xspeed == 0,
            u.yspeed == 0,
            u.after_images@ == Seq::<TrailPoint>::empty(),
            u.wf(),
    {
        Ufo {
            x: 100 * UNIT,
            y: 100 * UNIT,
            color: Color::Blue,
            xspeed: 0,
            yspeed: 0,
            movement: Strategy::Player,
            after_images: Vec::new(),
        }
    }

    /// Moves by one frame's velocity and records the new position in the trail.
    pub fn advance(&mut self)
        requires
            old(self).wf(),
            old(self).can_advance(),
        ensures
            final(self).x == old(self).x + old(self).xspeed,
            final(self).y == old(self).y + old(self).yspeed,
            final(self).after_images@ == trail_push(
                old(self).after_images@,
                (final(self).x, final(self).y, old(self).color),
            ),
            final(self).color == old(self).color,
            final(self).xspeed == old(self).xspeed,
            final(self).yspeed == old(self).yspeed,
            final(self).movement == old(self).movement,
            final(self).wf(),
    {
        self.x = self.x + self.xspeed;
        self.y = self.y + self.yspeed;
        self.after_images.push((self.x, self.y, self.color));
        if self.after_images.len() > AFTER_IMAGE_COUNT {
            self.after_images.remove(0);
        }
    }
}

} // verus!
