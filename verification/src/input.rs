//! Input axis debouncing.
//!
//! An axis combines two opposing direction keys. Each direction holds a
//! tri-state: `Off`, `Active` (driving the axis), or `Pressed` (held but
//! overridden by the other direction). Simultaneous opposite presses resolve
//! in favor of whichever direction was most recently newly pressed. Polling
//! the physical keys is the collaborator's job; the core receives booleans.

use vstd::prelude::*;

verus! {

/// The debounce state of one direction of an axis.
#[derive(Clone, Copy, Debug, PartialEq, Eq, Structural)]
pub enum AxisState {
    Off,
    Active,
    Pressed,
}

/// One input axis: the states of its positive and negative directions.
#[derive(Clone, Copy, Debug, PartialEq, Eq, Structural)]
pub struct InputAxis {
    pub positive: AxisState,
    pub negative: AxisState,
}

/// One debounce step for a direction: `input` is whether any of its keys is
/// held; returns the new `(direction, other direction)` states.
pub open spec fn spec_axis_step(input: bool, to_update: AxisState, other: AxisState) -> (
    AxisState,
    AxisState,
) {
    if input && to_update is Pressed && other is Off {
        (AxisState::Active, other)
    } else if input && to_update is Off && other is Active {
        (AxisState::Active, AxisState::Pressed)
    } else if input && to_update is Off {
        (AxisState::Active, other)
    } else if !input && to_update is Off {
        (to_update, other)
    } else if !input {
        (AxisState::Off, other)
    } else {
        (to_update, other)
    }
}

/// A whole axis update: the positive direction steps first, then the
/// negative direction steps against the updated positive state.
pub open spec fn spec_axis_update(axis: InputAxis, positive_down: bool, negative_down: bool)
    -> InputAxis {
    let (p1, n1) = spec_axis_step(positive_down, axis.positive, axis.negative);
    let (n2, p2) = spec_axis_step(negative_down, n1, p1);
    InputAxis { positive: p2, negative: n2 }
}

/// The direction an axis currently drives: `1`, `-1` or `0`.
pub open spec fn spec_axis_value(axis: InputAxis) -> int {
    if axis.positive is Active {
        1
    } else if axis.negative is Active {
        -1
    } else {
        0
    }
}

impl InputAxis {
    /// A released axis.
    pub fn new() -> (r: InputAxis)
        ensures
            r == (InputAxis { positive: AxisState::Off, negative: AxisState::Off }),
    {
        InputAxis { positive: AxisState::Off, negative: AxisState::Off }
    }

    /// Step both directions for one tick, given whether any key bound to
    /// each direction is currently held.
    pub fn update_state(&mut self, positive_down: bool, negative_down: bool)
        ensures
            *final(self) == spec_axis_update(*old(self), positive_down, negative_down),
    {
        let (p1, n1) = Self::step(positive_down, self.positive, self.negative);
        let (n2, p2) = Self::step(negative_down, n1, p1);
        self.positive = p2;
        self.negative = n2;
    }

    fn step(input: bool, to_update: AxisState, other: AxisState) -> (r: (AxisState, AxisState))
        ensures
            r == spec_axis_step(input, to_update, other),
    {
        match (input, to_update, other) {
            (true, AxisState::Pressed, AxisState::Off) => (AxisState::Active, other),
            (true, AxisState::Off, AxisState::Active) => (AxisState::Active, AxisState::Pressed),
            (true, AxisState::Off, _) => (AxisState::Active, other),
            (false, AxisState::Off, _) => (to_update, other),
            (false, _, _) => (AxisState::Off, other),
            _ => (to_update, other),
        }
    }

    /// The driven direction as a signed unit: `1`, `-1` or `0`.
    pub fn as_i8(&self) -> (r: i8)
        ensures
            r as int == spec_axis_value(*self),
    {
        match (self.positive, self.negative) {
            (AxisState::Active, _) => 1,
            (_, AxisState::Active) => -1,
            _ => 0,
        }
    }
}

} // verus!
