//! Firmware core for a seven-color electrophoretic photo frame.
//!
//! The crate holds the hardware-independent heart of the firmware: the packed
//! framebuffer that matches the panel's native pixel format, the panel
//! protocol driver expressed as a sequence of bus operations, an L-system
//! fractal interpreter that renders onto the framebuffer with bounded memory,
//! and the small pieces of date arithmetic the calendar face needs.

pub mod console;
pub mod epaper;
pub mod graphics;
pub mod rtc;

use vstd::prelude::*;

verus! {

/// Horizontal resolution of the panel in pixels.
pub const EPD_7IN3F_WIDTH: usize = 800;

/// Vertical resolution of the panel in pixels.
pub const EPD_7IN3F_HEIGHT: usize = 480;

/// Bytes in one full frame: two 4-bit pixels per byte.
pub const EPD_7IN3F_IMAGE_SIZE: usize = EPD_7IN3F_WIDTH * EPD_7IN3F_HEIGHT / 2;

/// Minimum battery voltage in millivolts; below this the device powers down.
pub const MIN_BATTERY_MILLIVOLTS: u32 = 3100;

/// Converts a raw 12-bit battery reading to millivolts: the converter
/// reference is 3.3 volts and the battery sits behind a three-to-one voltage
/// divider. The divider ratio is a calibrated, hardware-revision-specific
/// constant.
pub fn battery_millivolts(raw: u16) -> (mv: u32)
    ensures
        mv == raw as int * 3300 * 3 / 4096,
{
    raw as u32 * 3300 * 3 / 4096
}

} // verus!
