//! Logical buttons: one engaged / not-engaged value per GPIO line, whatever the
//! electrical polarity of the line.

use vstd::prelude::*;

pub mod mock;

pub use self::mock::MockGpio;

verus! {

/// GPIO value representation.
///
/// The value is named by what the switch does, not by the electrical level:
/// `Enabled` means that the key is engaged, whether the line is active high
/// or active low.
#[derive(Debug, Clone, Copy, PartialEq, Eq, Structural)]
pub enum GpioValue {
    Disabled,
    Enabled,
}

/// Electrical level of an input pin.
#[derive(Debug, Clone, Copy, PartialEq, Eq, Structural)]
pub enum Level {
    Low,
    High,
}

/// Why a read of a GPIO line gave no value.
#[derive(Debug, PartialEq, Eq)]
pub enum GpioError {
    /// The backend could not read the line; the text is its diagnostic.
    Io(String),
    /// The backend returned a value outside the binary domain.
    UnexpectedValue(u8),
}

/// A source of logical button values.
pub trait Gpio {
    /// Read the current GPIO value.
    fn read(&mut self) -> Result<GpioValue, GpioError>;
}

/// The logical value of a line that is electrically high (`high`) or low,
/// on a line configured active low (`active_low`) or active high: the key is
/// engaged exactly when the level is the active one.
pub open spec fn logical_value(high: bool, active_low: bool) -> GpioValue {
    if high != active_low {
        GpioValue::Enabled
    } else {
        GpioValue::Disabled
    }
}

/// The value that a character-device line reports as `raw`, if it is binary.
/// The kernel has applied the line's polarity already.
pub open spec fn line_value(raw: u8) -> Option<GpioValue> {
    if raw == 0 {
        Some(GpioValue::Disabled)
    } else if raw == 1 {
        Some(GpioValue::Enabled)
    } else {
        None
    }
}

impl Level {
    /// Whether the level is the high one.
    pub open spec fn is_high(self) -> bool {
        self == Level::High
    }
}

impl GpioValue {
    /// The other value.
    pub open spec fn inverted(self) -> GpioValue {
        match self {
            GpioValue::Disabled => GpioValue::Enabled,
            GpioValue::Enabled => GpioValue::Disabled,
        }
    }

    /// Whether the key is engaged.
    pub fn is_enabled(self) -> (engaged: bool)
        ensures
            engaged == (self == GpioValue::Enabled),
    {
        match self {
            GpioValue::Enabled => true,
            GpioValue::Disabled => false,
        }
    }

    /// The other value.
    pub fn invert(self) -> (other: GpioValue)
        ensures
            other == self.inverted(),
    {
        match self {
            GpioValue::Disabled => GpioValue::Enabled,
            GpioValue::Enabled => GpioValue::Disabled,
        }
    }

    /// Applies a pin's polarity to its electrical level.
    pub fn from_level(level: Level, active_low: bool) -> (value: GpioValue)
        ensures
            value == logical_value(level.is_high(), active_low),
    {
        match (level, active_low) {
            (Level::Low, false) | (Level::High, true) => GpioValue::Disabled,
            (Level::High, false) | (Level::Low, true) => GpioValue::Enabled,
        }
    }

    /// Decodes the value that a character-device line handle returned. A
    /// value other than 0 and 1 is an error for that read.
    pub fn from_line_value(raw: u8) -> (decoded: Result<GpioValue, GpioError>)
        ensures
            match line_value(raw) {
                Some(value) => decoded == Ok::<GpioValue, GpioError>(value),
                None => decoded == Err::<GpioValue, GpioError>(GpioError::UnexpectedValue(raw)),
            },
    {
        if raw == 0 {
            Ok(GpioValue::Disabled)
        } else if raw == 1 {
            Ok(GpioValue::Enabled)
        } else {
            Err(GpioError::UnexpectedValue(raw))
        }
    }
}

/// The polarity mapping is total and self-consistent: every level on every
/// polarity gives exactly one of the two values, and flipping the polarity,
/// like flipping the level, flips the value.
pub proof fn lemma_polarity_mapping(high: bool, active_low: bool)
    ensures
        (logical_value(high, active_low) == GpioValue::Enabled) != (logical_value(
            high,
            active_low,
        ) == GpioValue::Disabled),
        logical_value(high, !active_low) == logical_value(high, active_low).inverted(),
        logical_value(!high, active_low) == logical_value(high, active_low).inverted(),
        logical_value(high, active_low).inverted().inverted() == logical_value(high, active_low),
{
}

} // verus!
