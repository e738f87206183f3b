//! What the front end is configured with.

use std::path::PathBuf;
use vstd::prelude::*;

use crate::framebuffer::FramebufferConfig;
use crate::input::KeypadKey;

verus! {

/// The kind of hardware behind a button.
#[derive(Debug, Clone, Copy, PartialEq, Eq, Structural)]
pub enum GpioBackend {
    /// A line of a GPIO character device.
    CharacterDevice,
    /// A pin of the vendor's pin interface, with its pull-up switched on.
    VendorPin,
}

/// One button: the key it stands for and the line it is wired to.
#[derive(Debug, Clone, Copy, PartialEq, Eq, Structural)]
pub struct ButtonConfig {
    pub key: KeypadKey,
    pub backend: GpioBackend,
    /// Line of the chip or number of the pin.
    pub gpio: u8,
    /// Whether a low electrical level means that the key is engaged.
    pub active_low: bool,
}

/// Configuration of the front end. It is made once and then only read.
#[derive(Debug)]
pub struct AppConfig {
    /// The directory that holds the games.
    pub roms_directory: PathBuf,
    /// Milliseconds between two polls of the buttons.
    pub poll_interval_ms: u64,
    /// Path of the GPIO character device, for the buttons that use one.
    pub gpio_chip: PathBuf,
    /// The buttons, in the order in which they are polled.
    pub buttons: Vec<ButtonConfig>,
    /// The display.
    pub framebuffer: FramebufferConfig,
}

} // verus!
