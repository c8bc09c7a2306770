//! Movement strategies and the colours UFOs are painted with.

use vstd::prelude::*;

verus! {

/// A colour: one of the four palette colours, or an opaque RGB colour.
#[derive(Clone, Copy, Debug, PartialEq, Eq, Structural)]
pub enum Color {
    Blue,
    Green,
    Yellow,
    Red,
    /// An opaque colour with the given channels.
    Rgb { r: u8, g: u8, b: u8 },
}

/// Movement strategy of a UFO, fixed at creation.
#[derive(Clone, Copy, Debug, PartialEq, Eq, Structural)]
pub enum Strategy {
    /// Follows the pointer.
    Player,
    /// Flies straight to the left.
    Linear,
    /// Flies to the left on a sine wave.
    Sine,
    /// Drifts randomly.
    Random,
}

/// The palette colour of each strategy.
pub open spec fn strategy_color(s: Strategy) -> Color {
    match s {
        Strategy::Player => Color::Blue,
        Strategy::Linear => Color::Green,
        Strategy::Sine => Color::Yellow,
        Strategy::Random => Color::Red,
    }
}

/// The enemy strategy that a pick in `0..3` selects.
pub open spec fn enemy_strategy(pick: i64) -> Strategy {
    if pick == 0 {
        Strategy::Linear
    } else if pick == 1 {
        Strategy::Sine
    } else {
        Strategy::Random
    }
}

impl Strategy {
    /// The colour associated with the strategy.
    pub fn color(&self) -> (c: Color)
        ensures
            c == strategy_color(*self),
    {
        match self {
            Strategy::Player => Color::Blue,
            Strategy::Linear => Color::Green,
            Strategy::Sine => Color::Yellow,
            Strategy::Random => Color::Red,
        }
    }

    /// The enemy strategy for a pick: 0 is linear, 1 is sine, anything else random.
    pub fn enemy_from(pick: i64) -> (s: Strategy)
        ensures
            s == enemy_strategy(pick),
            s != Strategy::Player,
    {
        if pick == 0 {
            Strategy::Linear
        } else if pick == 1 {
            Strategy::Sine
        } else {
            Strategy::Random
        }
    }
}

} // verus!
