//! Driver library for the monochrome OLED panel of a SteelSeries GG dock:
//! 1-bit bitmaps with compositing, the HID wire protocol that carries them,
//! and the layered draw engine that shares the screen between producers.

pub mod bitmap;
pub mod device;
pub mod engine;
pub mod imgconv;
pub mod layers;
pub mod layout;
pub mod transport;

use vstd::prelude::*;

verus! {

/// Width in pixels of the OLED panel on the supported product.
pub const SCREEN_WIDTH: usize = 128;

/// Height in pixels of the OLED panel on the supported product.
pub const SCREEN_HEIGHT: usize = 64;

} // verus!
