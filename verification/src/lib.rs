//! Front end of a handheld game console: a pixel surface with a scaling blit,
//! logical buttons read through GPIO lines, and the menu that picks a game.

use std::path::PathBuf;
use vstd::prelude::*;

pub mod app_config;
pub mod framebuffer;
pub mod input;
pub mod menu;

verus! {

/// `std::path::PathBuf`, carried through as the file system gave it. The
/// library never looks inside a path.
#[verifier::external_type_specification]
#[verifier::external_body]
pub struct ExPathBuf(PathBuf);

/// `<PathBuf as Clone>::clone` returns a path equal to the one it is given.
pub assume_specification[ <PathBuf as Clone>::clone ](path: &PathBuf) -> (cloned: PathBuf)
    ensures
        cloned == *path,
;

/// Width in pixels of the image that the emulation core produces.
pub const SCREEN_W: usize = 160;

/// Height in pixels of the image that the emulation core produces.
pub const SCREEN_H: usize = 144;

} // verus!
