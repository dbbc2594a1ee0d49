//! The touchscreen: where a touch lands on the drawn frame, which half of the screen it is in,
//! and the names of the parts found on the I2C bus.
use vstd::prelude::*;

use crate::config::{SCREEN_HEIGHT, SCREEN_WIDTH};

verus! {

/// A touch as the controller reports it.
#[derive(Debug, Clone, Copy, PartialEq, Eq, Structural)]
pub struct TouchPoint {
    /// The touch point number (zero based).
    pub track_id: u8,
    /// Horizontal controller coordinate.
    pub x: u16,
    /// Vertical controller coordinate.
    pub y: u16,
    /// How much area the finger covers.
    pub area: u16,
}

/// Where a touch lands on the drawn frame. The controller's origin is the bottom left of the
/// frame, so only the vertical axis is flipped; both coordinates are clamped to the screen.
pub open spec fn to_screen_spec(point: TouchPoint) -> (u16, u16) {
    let x = if point.x < SCREEN_WIDTH - 1 { point.x } else { (SCREEN_WIDTH - 1) as u16 };
    let y = if point.y <= SCREEN_HEIGHT - 1 { (SCREEN_HEIGHT - 1 - point.y) as u16 } else { 0 };
    (x, y)
}

/// Maps a controller coordinate onto the frame as it is drawn.
pub fn to_screen(point: &TouchPoint) -> (screen: (u16, u16))
    ensures
        screen == to_screen_spec(*point),
{
    let max_x = SCREEN_WIDTH - 1;
    let x = if point.x < max_x {
        point.x
    } else {
        max_x
    };
    let max_y = SCREEN_HEIGHT - 1;
    let y = if point.y <= max_y {
        max_y - point.y
    } else {
        0
    };
    (x, y)
}

/// Which half of the screen a touch landed in.
#[derive(Debug, Clone, Copy, PartialEq, Eq, Structural)]
pub enum Zone {
    Left,
    Right,
}

/// The half of the screen a touch landed in, decided on the drawn coordinate.
pub fn zone(point: &TouchPoint) -> (z: Zone)
    ensures
        z == (if to_screen_spec(*point).0 < SCREEN_WIDTH / 2 {
            Zone::Left
        } else {
            Zone::Right
        }),
{
    let (x, _) = to_screen(point);
    if x < SCREEN_WIDTH / 2 {
        Zone::Left
    } else {
        Zone::Right
    }
}

/// The part of the ESP32-S3-BOX-3 known to answer at an I2C address.
pub open spec fn describe_spec(address: u8) -> Seq<char> {
    if address == 0x14 || address == 0x5D {
        "GT911 touch"@
    } else if address == 0x18 {
        "ES8311 codec"@
    } else if address == 0x24 {
        "TT21100 touch"@
    } else if address == 0x40 || address == 0x41 {
        "ES7210 ADC"@
    } else if address == 0x68 || address == 0x69 {
        "ICM-42607 IMU"@
    } else {
        "unknown"@
    }
}

/// Names the part known to answer at an I2C address.
pub fn describe(address: u8) -> (name: &'static str)
    ensures
        name@ == describe_spec(address),
{
    match address {
        0x14 | 0x5D => "GT911 touch",
        0x18 => "ES8311 codec",
        0x24 => "TT21100 touch",
        0x40 | 0x41 => "ES7210 ADC",
        0x68 | 0x69 => "ICM-42607 IMU",
        _ => "unknown",
    }
}

/// A touch always lands on the screen.
pub proof fn lemma_touch_on_screen(point: TouchPoint)
    ensures
        to_screen_spec(point).0 < SCREEN_WIDTH,
        to_screen_spec(point).1 < SCREEN_HEIGHT,
{
}

} // verus!
