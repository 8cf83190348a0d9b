//! Fixed locations and names of the backlight pseudo-filesystem, and the
//! bounds of the configuration values.

use vstd::prelude::*;

use crate::util::str_to_chars;

verus! {

/// Location of backlight devices.
pub open spec fn spec_devices_path() -> Seq<char> {
    "/sys/class/backlight"@
}

pub fn devices_path() -> (v: Vec<char>)
    ensures
        v@ == spec_devices_path(),
{
    str_to_chars("/sys/class/backlight")
}

/// Filename for a device's maximum raw brightness.
pub open spec fn spec_file_max_brightness() -> Seq<char> {
    "max_brightness"@
}

pub fn file_max_brightness() -> (v: Vec<char>)
    ensures
        v@ == spec_file_max_brightness(),
{
    str_to_chars("max_brightness")
}

/// Filename for the current brightness of most devices.
pub open spec fn spec_file_brightness() -> Seq<char> {
    "actual_brightness"@
}

pub fn file_brightness() -> (v: Vec<char>)
    ensures
        v@ == spec_file_brightness(),
{
    str_to_chars("actual_brightness")
}

/// amdgpu drivers report `actual_brightness` in a different scale than
/// `[0, max_brightness]`, so the `brightness` file is read instead.
pub open spec fn spec_file_brightness_amd() -> Seq<char> {
    "brightness"@
}

pub fn file_brightness_amd() -> (v: Vec<char>)
    ensures
        v@ == spec_file_brightness_amd(),
{
    str_to_chars("brightness")
}

/// Filename that receives a requested brightness level.
pub open spec fn spec_file_brightness_write() -> Seq<char> {
    "brightness"@
}

pub fn file_brightness_write() -> (v: Vec<char>)
    ensures
        v@ == spec_file_brightness_write(),
{
    str_to_chars("brightness")
}

/// The device whose current brightness must be read from the write file.
pub open spec fn spec_amd_device_name() -> Seq<char> {
    "amdgpu_bl0"@
}

pub fn amd_device_name() -> (v: Vec<char>)
    ensures
        v@ == spec_amd_device_name(),
{
    str_to_chars("amdgpu_bl0")
}

/// Smallest accepted `root_scaling`, in thousandths (0.1).
pub const ROOT_SCALING_MIN: u32 = 100;

/// Largest accepted `root_scaling`, in thousandths (10.0).
pub const ROOT_SCALING_MAX: u32 = 10_000;

/// Largest accepted calibration input, in thousandths of a percent (100%).
pub const CALIBRATION_INPUT_MAX: u64 = 100_000;

/// Base settle time between protocol retries, in milliseconds.
pub const RETRY_SLEEP_BASE_MS: u64 = 40;

} // verus!
