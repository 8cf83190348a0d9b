//! Calibrated control of backlight brightness devices.
//!
//! The library models brightness values, calibration ranges and scaling
//! factors as fixed-point integers: a brightness of `1.0` is `SCALE`.
//! Everything real-valued in the device protocol is expressed on that scale,
//! except the gamma step of the read and write pipelines, which the caller
//! performs between the two verified halves of each pipeline.

mod config;
mod consts;
mod device;
mod errors;
mod fleet;
mod matching;
mod paths;
mod scale;
mod util;
mod watcher;

pub use config::lemma_override_inheritance;
pub use config::spec_default_device_config;
pub use config::spec_empty_section;
pub use config::spec_lookup_override;
pub use config::spec_resolve_device;
pub use config::Calibration;
pub use config::CalibrightConfig;
pub use config::DeviceConfig;
pub use config::UnresolvedCalibrightConfig;
pub use config::UnresolvedDeviceConfig;
pub use consts::amd_device_name;
pub use consts::devices_path;
pub use consts::file_brightness;
pub use consts::file_brightness_amd;
pub use consts::file_brightness_write;
pub use consts::file_max_brightness;
pub use consts::CALIBRATION_INPUT_MAX;
pub use consts::RETRY_SLEEP_BASE_MS;
pub use consts::ROOT_SCALING_MAX;
pub use consts::ROOT_SCALING_MIN;
pub use device::lemma_set_get_round_trip;
pub use device::max_path_for;
pub use device::next_read_attempt_for;
pub use device::next_write_step;
pub use device::read_path_for;
pub use device::spec_last_set_ago;
pub use device::spec_ratio;
pub use device::spec_raw_for_ratio;
pub use device::spec_read_path;
pub use device::spec_retry_sleep_ms;
pub use device::spec_write_path;
pub use device::Device;
pub use device::ReadRetry;
pub use device::WriteChannel;
pub use device::WriteStep;
pub use errors::Error;
pub use errors::ErrorKind;
pub use fleet::lemma_echo_suppression;
pub use fleet::spec_device_index;
pub use fleet::spec_lookup_device;
pub use fleet::spec_is_brightness_file;
pub use fleet::spec_is_depth1;
pub use fleet::spec_modify_action;
pub use fleet::spec_plan_event;
pub use fleet::Calibright;
pub use fleet::CalibrightBuilder;
pub use matching::regex_is_match;
pub use matching::regex_pattern_ok;
pub use matching::select_device_names;
pub use matching::spec_matched;
pub use paths::path_file_name;
pub use paths::path_join;
pub use paths::path_parent;
pub use paths::spec_file_name;
pub use paths::spec_parent;
pub use paths::spec_path_join;
pub use scale::lemma_scale_round_trip;
pub use scale::scale_to_clamped_absolute;
pub use scale::scale_to_clamped_relative;
pub use scale::spec_clamp;
pub use scale::spec_to_absolute;
pub use scale::spec_to_relative;
pub use util::accept_single_ok;
pub use util::chars_clone;
pub use util::chars_eq;
pub use util::line_of_offset;
pub use util::mean_brightness;
pub use util::parse_raw_brightness;
pub use util::spec_digits_value;
pub use util::spec_is_digits;
pub use util::spec_ok_values;
pub use util::spec_sum;
pub use util::spec_trim_end;
pub use util::str_to_chars;
pub use util::u32_to_chars;
pub use watcher::SpecWatchAction;
pub use watcher::WatchAction;
pub use watcher::WatchEvent;
pub use watcher::WatchEventKind;

use vstd::prelude::*;

verus! {

/// Fixed-point unit: a brightness or calibration value of `SCALE` stands for 1.0.
pub const SCALE: u64 = 1_000_000;

} // verus!
