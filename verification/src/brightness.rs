//! Backlight brightness: which kernel backlight device drives the display,
//! and its range.

use vstd::prelude::*;
use crate::text::{chars_of, parse_int, parse_u32, trim, trim_chars};

verus! {

/// A kernel backlight: the file to write and the device's own maximum.
pub struct Backlight {
    pub brightness_file: String,
    pub max: u32,
}

/// Which device directory to use.
#[derive(Debug, PartialEq, Eq)]
pub enum DeviceChoice {
    /// `rpi_backlight` (the original RPi 7" display) is present: use it.
    Preferred,
    /// The only device there is, by index in the listing.
    Lone(usize),
    /// None, or several and none of them preferred: ambiguous, none chosen.
    Unwired,
}

/// `rpi_backlight` first; otherwise a lone device is unambiguous. Several
/// devices with no `rpi_backlight` is ambiguous, as is none at all.
pub fn choose_device(rpi_backlight: bool, devices: usize) -> (c: DeviceChoice)
    ensures
        rpi_backlight ==> c == DeviceChoice::Preferred,
        !rpi_backlight && devices == 1 ==> c == DeviceChoice::Lone(0),
        !rpi_backlight && devices != 1 ==> c == DeviceChoice::Unwired,
{
    if rpi_backlight {
        DeviceChoice::Preferred
    } else if devices == 1 {
        DeviceChoice::Lone(0)
    } else {
        DeviceChoice::Unwired
    }
}

impl Backlight {
    /// The backlight behind `brightness_file`, given the content of the
    /// device's `max_brightness` (`None` when unreadable): the trimmed content
    /// as a `u32`, and a device whose maximum is 0 cannot be driven.
    pub fn detect(brightness_file: String, max_brightness: Option<&str>) -> (r: Option<Backlight>)
        ensures
            max_brightness is None ==> r is None,
            max_brightness matches Some(t) ==> match parse_int(trim(t@), 10, false, 0, u32::MAX as int) {
                None => r is None,
                Some(m) => if m == 0 {
                    r is None
                } else {
                    r matches Some(b) && b.max == m && b.brightness_file == brightness_file
                },
            },
    {
        let t = match max_brightness {
            None => return None,
            Some(t) => t,
        };
        let c = chars_of(t);
        let max = match parse_u32(&trim_chars(&c), 10) {
            None => return None,
            Some(m) => m,
        };
        if max == 0 {
            return None;
        }
        Some(Backlight { brightness_file, max })
    }
}

} // verus!
