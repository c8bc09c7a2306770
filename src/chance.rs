//! Random draws, taken from macroquad's generator.

use vstd::prelude::*;
use crate::strategy::{enemy_strategy, Color, Strategy};

verus! {

/// Largest bound accepted by `draw_below`: below it the generator's
/// floating-point product is exact, so the result stays under the bound.
pub const DRAW_BOUND_MAX: i64 = 2_097_152;

/// Relies on macroquad::rand::gen_range (quad-rand): for integers it computes
/// `low + (high - low) * u` in f64 with `u` in [0, 1) and truncates, which for
/// `low == 0` and `high <= 2^21` lies in `[0, high)`.
#[verifier::external_body]
pub(crate) fn draw_below(bound: i64) -> (r: i64)
    requires
        0 < bound <= DRAW_BOUND_MAX,
    ensures
        0 <= r < bound,
{
    macroquad::rand::gen_range::<i64>(0, bound)
}

/// A uniform draw in `[-SPEED, SPEED)`.
pub fn random_speed() -> (r: i64)
    ensures
        -crate::SPEED <= r < crate::SPEED,
{
    draw_below(2 * crate::SPEED) - crate::SPEED
}

/// A uniformly random opaque colour.
pub fn random_color() -> (c: Color)
    ensures
        c is Rgb,
{
    let r = draw_below(256) as u8;
    let g = draw_below(256) as u8;
    let b = draw_below(256) as u8;
    Color::Rgb { r, g, b }
}

impl Strategy {
    /// A random enemy strategy, each of the three with equal chance.
    pub fn random_enemy() -> (s: Strategy)
        ensures
            exists|pick: i64| 0 <= pick < 3 && s == #[trigger] enemy_strategy(pick),
            s != Strategy::Player,
    {
        let pick = draw_below(3);
        Strategy::enemy_from(pick)
    }
}

} // verus!
