//! Cell states and their display colours.

use vstd::prelude::*;

verus! {

/// The state of one cell.
///
/// `S0` is a dead cell and `S1` a live one. `S2` is what a lookup outside the
/// grid yields: the grid is surrounded by `S2` cells that never change and
/// never count as alive.
#[derive(Copy, Clone, Debug, PartialEq, Eq, Structural)]
pub enum State {
    /// Dead.
    S0,
    /// Alive.
    S1,
    /// Outside the grid.
    S2,
}

/// A display colour. Each channel is an intensity in tenths of full
/// brightness, so `10` is fully lit and `0` is off.
#[derive(Copy, Clone, Debug, PartialEq, Eq, Structural)]
pub struct Color {
    pub r: u8,
    pub g: u8,
    pub b: u8,
}

impl Color {
    /// The brightest value a channel takes.
    pub const FULL: u8 = 10;

    /// No channel is brighter than [`Color::FULL`].
    pub open spec fn in_range(self) -> bool {
        self.r <= Self::FULL && self.g <= Self::FULL && self.b <= Self::FULL
    }
}

impl State {
    /// The colour each state is drawn in: dead cells are black, live cells
    /// bright green, and cells outside the grid bright red.
    pub open spec fn color(self) -> Color {
        match self {
            State::S0 => Color { r: 0, g: 0, b: 0 },
            State::S1 => Color { r: 2, g: 10, b: 2 },
            State::S2 => Color { r: 10, g: 2, b: 2 },
        }
    }

    /// Returns the colour this state is drawn in.
    pub fn to_color(&self) -> (c: Color)
        ensures
            c == self.color(),
            c.in_range(),
    {
        match self {
            State::S0 => Color { r: 0, g: 0, b: 0 },
            State::S1 => Color { r: 2, g: 10, b: 2 },
            State::S2 => Color { r: 10, g: 2, b: 2 },
        }
    }
}

} // verus!
