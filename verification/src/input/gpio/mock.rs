//! An in-memory button for deterministic runs: no hardware behind it.

use vstd::prelude::*;

use crate::input::gpio::{logical_value, Gpio, GpioError, GpioValue};

verus! {

/// Mock GPIO implementation: holds the electrical level and the polarity of
/// an imaginary line.
#[derive(Debug)]
pub struct MockGpio {
    active_low: bool,
    value: bool,
}

impl MockGpio {
    /// Whether the imaginary line is electrically high.
    pub closed spec fn level_high(&self) -> bool {
        self.value
    }

    /// Whether the imaginary line is configured active low.
    pub closed spec fn active_low(&self) -> bool {
        self.active_low
    }

    /// A line at the level `initial_value` (`true` for high) with the given
    /// polarity.
    pub fn new(initial_value: bool, active_low: bool) -> (gpio: Self)
        ensures
            gpio.level_high() == initial_value,
            gpio.active_low() == active_low,
    {
        Self { active_low, value: initial_value }
    }

    /// Puts the imaginary line at another level.
    pub fn set_level(&mut self, high: bool)
        ensures
            final(self).level_high() == high,
            final(self).active_low() == old(self).active_low(),
    {
        self.value = high;
    }
}

impl Gpio for MockGpio {
    /// Never fails, and leaves the line as it is.
    fn read(&mut self) -> (value: Result<GpioValue, GpioError>)
        ensures
            value == Ok::<GpioValue, GpioError>(
                logical_value(old(self).level_high(), old(self).active_low()),
            ),
            *final(self) == *old(self),
    {
        let gpio_value = if (self.value && !self.active_low) || (!self.value && self.active_low) {
            GpioValue::Enabled
        } else {
            GpioValue::Disabled
        };
        Ok(gpio_value)
    }
}

} // verus!
