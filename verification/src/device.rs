//! One physical backlight device: its file paths, calibration, raw brightness
//! and the pure halves of its read and write pipelines.
//!
//! The gamma step of either pipeline (raising the linear ratio to
//! `root_scaling` on write, to its reciprocal on read) is real-valued and is
//! performed by the caller between the two halves; with `root_scaling` 1.0 it
//! is the identity.

use vstd::prelude::*;

use crate::config::DeviceConfig;
use crate::consts::{
    spec_amd_device_name, spec_devices_path, spec_file_brightness, spec_file_brightness_amd,
    spec_file_brightness_write, spec_file_max_brightness, RETRY_SLEEP_BASE_MS,
};
use crate::consts::{
    amd_device_name, devices_path, file_brightness, file_brightness_amd, file_brightness_write,
    file_max_brightness,
};
use crate::errors::{Error, ErrorKind};
use crate::paths::{path_join, spec_path_join};
use crate::scale::{
    scale_to_clamped_absolute, scale_to_clamped_relative, spec_clamp, spec_to_absolute,
    spec_to_relative,
};
use crate::util::{chars_clone, chars_eq};
use crate::SCALE;

verus! {

/// The file a device's current brightness is read from: amdgpu devices report
/// `actual_brightness` on a different scale, so their write file is read
/// instead.
pub open spec fn spec_read_file_name(name: Seq<char>) -> Seq<char> {
    if name == spec_amd_device_name() {
        spec_file_brightness_amd()
    } else {
        spec_file_brightness()
    }
}

/// The directory of the device of the given name.
pub open spec fn spec_device_dir(name: Seq<char>) -> Seq<char> {
    spec_path_join(spec_devices_path(), name)
}

/// The path the device's current brightness is read from.
pub open spec fn spec_read_path(name: Seq<char>) -> Seq<char> {
    spec_path_join(spec_device_dir(name), spec_read_file_name(name))
}

/// The path a requested brightness is written to.
pub open spec fn spec_write_path(name: Seq<char>) -> Seq<char> {
    spec_path_join(spec_device_dir(name), spec_file_brightness_write())
}

/// The path the device's maximum raw brightness is read from.
pub open spec fn spec_max_path(name: Seq<char>) -> Seq<char> {
    spec_path_join(spec_device_dir(name), spec_file_max_brightness())
}

/// The linear ratio of a raw reading, in `SCALE` units, clamped to `SCALE`.
/// (A reading above the maximum would scale past 1.0 and be clamped by the
/// calibration step anyway.)
pub open spec fn spec_ratio(raw: int, max: int) -> int {
    let r = raw * (SCALE as int) / max;
    if r > SCALE {
        SCALE as int
    } else {
        r
    }
}

/// The raw value written for a gamma-encoded ratio: the nearest raw step, but
/// never 0 (writing 0 can make some panels unrecoverable).
pub open spec fn spec_raw_for_ratio(encoded: int, max: int) -> int {
    let r = (encoded * max + (SCALE as int) / 2) / (SCALE as int);
    if r < 1 {
        1
    } else {
        r
    }
}

/// The settle time before a read retry: 40 ms scaled by the configured
/// multiplier (in thousandths), rounded to the nearest millisecond.
pub open spec fn spec_retry_sleep_ms(config: DeviceConfig) -> int {
    ((RETRY_SLEEP_BASE_MS as int) * config.ddcci_sleep_multiplier + 500) / 1000
}

/// How long ago a device was last written (or constructed), seen from
/// `now_ms`; a clock that moved backwards reads as no time having passed.
pub open spec fn spec_last_set_ago(d: Device, now_ms: u64) -> int {
    if now_ms >= d.updated_at {
        now_ms - d.updated_at
    } else {
        0
    }
}

/// What to do after a failed raw-brightness read.
#[derive(Clone, Copy, Debug, PartialEq, Eq, Structural)]
pub enum ReadRetry {
    /// Sleep this long, then read again.
    Retry { sleep_ms: u64 },
    /// The retry budget is exhausted.
    GiveUp,
}

/// The channel a brightness write goes through: the privileged session call
/// first, the sysfs file as fallback.
#[derive(Clone, Copy, Debug, PartialEq, Eq, Structural)]
pub enum WriteChannel {
    Privileged,
    Sysfs,
}

/// The step after attempting a write on a channel.
#[derive(Clone, Copy, Debug, PartialEq, Eq, Structural)]
pub enum WriteStep {
    /// The write went through.
    Done,
    /// The privileged channel failed: attempt the sysfs fallback.
    TryFallback,
    /// Both channels failed.
    Failed,
}

/// The write protocol: attempt the privileged channel, fall back to sysfs on
/// any failure, and propagate a failure only when both channels failed.
pub fn next_write_step(channel: WriteChannel, succeeded: bool) -> (r: WriteStep)
    ensures
        channel == WriteChannel::Privileged && succeeded ==> r == WriteStep::Done,
        channel == WriteChannel::Privileged && !succeeded ==> r == WriteStep::TryFallback,
        channel == WriteChannel::Sysfs && succeeded ==> r == WriteStep::Done,
        channel == WriteChannel::Sysfs && !succeeded ==> r == WriteStep::Failed,
{
    if succeeded {
        WriteStep::Done
    } else {
        match channel {
            WriteChannel::Privileged => WriteStep::TryFallback,
            WriteChannel::Sysfs => WriteStep::Failed,
        }
    }
}

/// Write/read round-trip law for unit root scaling and the full calibration
/// range. With `root_scaling` 1.0 both gamma steps are the identity, so
/// setting a brightness `v` and reading it back runs `v` through
/// `spec_to_relative`, `spec_raw_for_ratio`, `spec_ratio` and
/// `spec_to_absolute`. What comes back differs from `clamp(v, 0, SCALE)` by
/// at most one raw quantization step: the difference, scaled by the device's
/// maximum raw brightness, stays within `SCALE + max`.
pub proof fn lemma_set_get_round_trip(v: u64, max: u32)
    requires
        max >= 1,
    ensures
        ({
            let c = spec_clamp(v as int, 0, SCALE as int);
            let rel = spec_to_relative(v as int, 0, SCALE as int);
            let raw = spec_raw_for_ratio(rel, max as int);
            let ratio = spec_ratio(raw, max as int);
            let back = spec_to_absolute(ratio, 0, SCALE as int);
            &&& back == ratio
            &&& (back - c) * max <= SCALE + max
            &&& (c - back) * max <= SCALE + max
        }),
{
    let s = SCALE as int;
    let m = max as int;
    let c = spec_clamp(v as int, 0, s);

    // The relative value under the full calibration range is clamp(v) itself.
    vstd::arithmetic::div_mod::lemma_div_multiples_vanish(c, s);
    let rel = spec_to_relative(v as int, 0, SCALE as int);
    assert(rel == c * s / s);
    assert(rel == c);

    let q0 = (c * m + s / 2) / s;
    let raw = spec_raw_for_ratio(rel, m);
    vstd::arithmetic::div_mod::lemma_fundamental_div_mod(c * m + s / 2, s);
    vstd::arithmetic::div_mod::lemma_mod_bound(c * m + s / 2, s);
    let rem1 = (c * m + s / 2) % s;
    assert(c * m + s / 2 == s * q0 + rem1);
    assert(c * m >= 0) by (nonlinear_arith)
        requires
            c >= 0,
            m >= 0,
    ;
    vstd::arithmetic::div_mod::lemma_div_pos_is_pos(c * m + s / 2, s);

    let r0 = raw * s / m;
    vstd::arithmetic::div_mod::lemma_fundamental_div_mod(raw * s, m);
    vstd::arithmetic::div_mod::lemma_mod_bound(raw * s, m);
    let rem2 = (raw * s) % m;
    assert(raw * s == m * r0 + rem2);

    let ratio = spec_ratio(raw, m);
    let back = spec_to_absolute(ratio, 0, SCALE as int);

    // ratio <= SCALE always, so the absolute step is the identity on it.
    assert(ratio <= s);
    vstd::arithmetic::div_mod::lemma_div_pos_is_pos(raw * s, m);
    assert(r0 >= 0);
    assert(ratio >= 0);
    vstd::arithmetic::div_mod::lemma_div_multiples_vanish(ratio, s);
    assert(back == spec_clamp(ratio, 0, s) * s / s);
    assert(back == ratio);

    if q0 >= 1 {
        assert(raw == q0);
        // r0 * m == c * m + s / 2 - rem1 - rem2.
        assert(m * r0 == s * q0 - rem2);
        assert((r0 - c) * m == s / 2 - rem1 - rem2) by (nonlinear_arith)
            requires
                m * r0 == s * q0 - rem2,
                c * m + s / 2 == s * q0 + rem1,
        ;
        assert((r0 - c) * m <= s + m);
        assert((c - r0) * m == -((r0 - c) * m)) by (nonlinear_arith);
        assert((c - r0) * m <= s + m);
        if r0 > s {
            assert(ratio == s);
            assert((s - c) * m <= (r0 - c) * m) by (nonlinear_arith)
                requires
                    s <= r0,
                    m >= 0,
            ;
            assert((c - s) * m <= 0) by (nonlinear_arith)
                requires
                    c <= s,
                    m >= 0,
            ;
        } else {
            assert(ratio == r0);
        }
    } else {
        // The raw floor of 1: the requested value was below half a raw step.
        assert(raw == 1);
        assert(q0 == 0);
        assert(c * m + s / 2 == rem1);
        assert(c * m < s);
        assert(m * r0 == s - rem2);
        // r0 <= s because r0 * m <= s and m >= 1.
        assert(r0 <= r0 * m) by (nonlinear_arith)
            requires
                r0 >= 0,
                m >= 1,
        ;
        assert(r0 * m == m * r0) by (nonlinear_arith);
        assert(ratio == r0);
        assert((r0 - c) * m == r0 * m - c * m) by (nonlinear_arith);
        assert((r0 - c) * m <= s + m);
        assert((c - r0) * m == -((r0 - c) * m)) by (nonlinear_arith);
        assert((c - r0) * m <= s + m);
    }
}

/// The path the current brightness of the device of this name is read from.
pub fn read_path_for(device_name: &Vec<char>) -> (r: Vec<char>)
    ensures
        r@ == spec_read_path(device_name@),
{
    let dir = path_join(&devices_path(), device_name);
    let amd = amd_device_name();
    let read_name = if chars_eq(device_name, &amd) {
        file_brightness_amd()
    } else {
        file_brightness()
    };
    path_join(&dir, &read_name)
}

/// The path the maximum raw brightness of the device of this name is read
/// from.
pub fn max_path_for(device_name: &Vec<char>) -> (r: Vec<char>)
    ensures
        r@ == spec_max_path(device_name@),
{
    let dir = path_join(&devices_path(), device_name);
    path_join(&dir, &file_max_brightness())
}

/// What to do after `failed_attempts` raw reads have failed under this
/// configuration: sleep the protocol settle time and retry until the
/// configured budget is spent.
pub fn next_read_attempt_for(config: &DeviceConfig, failed_attempts: u8) -> (r: ReadRetry)
    ensures
        failed_attempts < config.ddcci_max_tries_write_read ==> r == (ReadRetry::Retry {
            sleep_ms: spec_retry_sleep_ms(*config) as u64,
        }),
        failed_attempts >= config.ddcci_max_tries_write_read ==> r == ReadRetry::GiveUp,
{
    if failed_attempts < config.ddcci_max_tries_write_read {
        let sleep_ms: u64 = (RETRY_SLEEP_BASE_MS * (config.ddcci_sleep_multiplier as u64) + 500)
            / 1000;
        ReadRetry::Retry { sleep_ms }
    } else {
        ReadRetry::GiveUp
    }
}

/// Represents a physical backlight device whose brightness level can be
/// queried and set.
#[derive(Debug)]
pub struct Device {
    pub device_name: Vec<char>,
    pub read_brightness_file: Vec<char>,
    pub write_brightness_file: Vec<char>,
    pub raw_brightness: u32,
    pub max_brightness: u32,
    pub config: DeviceConfig,
    /// When the device was last successfully written, or constructed.
    pub updated_at: u64,
}

impl Device {
    /// The invariant of every constructed device.
    pub open spec fn wf(self) -> bool {
        &&& self.config.wf()
        &&& self.max_brightness >= 1
        &&& self.read_brightness_file@ == spec_read_path(self.device_name@)
        &&& self.write_brightness_file@ == spec_write_path(self.device_name@)
    }

    /// A device, from its name, its resolved configuration, the raw and
    /// maximum brightness read at construction, and the construction time.
    /// A device reporting a maximum of 0 admits no brightness level at all
    /// and is rejected as unreadable.
    pub fn new(
        device_name: &Vec<char>,
        config: DeviceConfig,
        raw_brightness: u32,
        max_brightness: u32,
        now_ms: u64,
    ) -> (r: Result<Device, Error>)
        requires
            config.wf(),
        ensures
            r is Ok <==> max_brightness >= 1,
            r matches Ok(d) ==> {
                &&& d.wf()
                &&& d.device_name@ == device_name@
                &&& d.raw_brightness == raw_brightness
                &&& d.max_brightness == max_brightness
                &&& d.config == config
                &&& d.updated_at == now_ms
            },
            r matches Err(e) ==> e.kind == ErrorKind::Io,
    {
        if max_brightness < 1 {
            return Err(Error::of_kind(ErrorKind::Io));
        }
        let dir = path_join(&devices_path(), device_name);
        Ok(
            Device {
                read_brightness_file: read_path_for(device_name),
                write_brightness_file: path_join(&dir, &file_brightness_write()),
                device_name: chars_clone(device_name),
                raw_brightness,
                max_brightness,
                config,
                updated_at: now_ms,
            },
        )
    }

    /// The path the device's maximum raw brightness is read from.
    pub fn max_brightness_file(&self) -> (r: Vec<char>)
        ensures
            r@ == spec_max_path(self.device_name@),
    {
        max_path_for(&self.device_name)
    }

    /// First half of a brightness read: record the raw value just read and
    /// return its linear ratio, for the caller to gamma-decode.
    pub fn brightness_ratio(&mut self, raw: u32) -> (r: u64)
        requires
            old(self).wf(),
        ensures
            final(self).wf(),
            *final(self) == (Device { raw_brightness: raw, ..*old(self) }),
            r == spec_ratio(raw as int, old(self).max_brightness as int),
            r <= SCALE,
    {
        self.raw_brightness = raw;
        proof {
            assert(raw * SCALE <= u32::MAX as int * SCALE) by (nonlinear_arith)
                requires
                    0 <= raw <= u32::MAX as int,
            ;
            vstd::arithmetic::div_mod::lemma_div_pos_is_pos(
                raw as int * SCALE as int,
                self.max_brightness as int,
            );
        }
        let scaled: u64 = (raw as u64) * SCALE / (self.max_brightness as u64);
        if scaled > SCALE {
            SCALE
        } else {
            scaled
        }
    }

    /// Second half of a brightness read: the calibrated absolute brightness
    /// of the gamma-decoded ratio.
    pub fn get_brightness(&self, decoded_ratio: u64) -> (r: u64)
        requires
            self.wf(),
        ensures
            r == spec_to_absolute(
                decoded_ratio as int,
                self.config.calibration_low as int,
                self.config.calibration_high as int,
            ),
            r <= SCALE,
    {
        match scale_to_clamped_absolute(
            decoded_ratio,
            self.config.calibration_low,
            self.config.calibration_high,
        ) {
            Ok(v) => v,
            Err(_) => {
                proof {
                    assert(false);
                }
                0
            },
        }
    }

    /// First half of a brightness write: the calibrated relative value of the
    /// requested absolute value, for the caller to gamma-encode.
    pub fn relative_brightness(&self, value: u64) -> (r: u64)
        requires
            self.wf(),
        ensures
            r == spec_to_relative(
                value as int,
                self.config.calibration_low as int,
                self.config.calibration_high as int,
            ),
            r <= SCALE,
    {
        match scale_to_clamped_relative(
            value,
            self.config.calibration_low,
            self.config.calibration_high,
        ) {
            Ok(v) => v,
            Err(_) => {
                proof {
                    assert(false);
                }
                0
            },
        }
    }

    /// Second half of a brightness write: the raw value for the gamma-encoded
    /// ratio, recorded as the device's raw brightness. Never 0, whatever was
    /// requested.
    pub fn set_brightness(&mut self, encoded_ratio: u64) -> (raw: u32)
        requires
            old(self).wf(),
            encoded_ratio <= SCALE,
        ensures
            final(self).wf(),
            *final(self) == (Device { raw_brightness: raw, ..*old(self) }),
            raw == spec_raw_for_ratio(encoded_ratio as int, old(self).max_brightness as int),
            1 <= raw,
            raw <= old(self).max_brightness || raw == 1,
    {
        let max = self.max_brightness;
        proof {
            assert(encoded_ratio * max <= SCALE * max <= SCALE * u32::MAX as int)
                by (nonlinear_arith)
                requires
                    0 <= encoded_ratio <= SCALE,
                    0 <= max <= u32::MAX as int,
            ;
            vstd::arithmetic::div_mod::lemma_div_pos_is_pos(
                encoded_ratio as int * max as int + (SCALE as int) / 2,
                SCALE as int,
            );
            assert((SCALE * max + (SCALE as int) / 2) / (SCALE as int) <= max) by {
                vstd::arithmetic::div_mod::lemma_div_is_ordered(
                    SCALE * max + (SCALE as int) / 2,
                    SCALE * max + (SCALE as int) - 1,
                    SCALE as int,
                );
                vstd::arithmetic::div_mod::lemma_div_multiples_vanish_fancy(
                    max as int,
                    (SCALE as int) - 1,
                    SCALE as int,
                );
                assert(max * SCALE == SCALE * max) by (nonlinear_arith);
            }
            vstd::arithmetic::div_mod::lemma_div_is_ordered(
                encoded_ratio * max + (SCALE as int) / 2,
                SCALE * max + (SCALE as int) / 2,
                SCALE as int,
            );
        }
        let rounded: u64 = (encoded_ratio * (max as u64) + SCALE / 2) / SCALE;
        let raw: u32 = if rounded < 1 {
            1u32
        } else {
            rounded as u32
        };
        self.raw_brightness = raw;
        raw
    }

    /// Record the time of a successful write, through either channel.
    pub fn record_set(&mut self, now_ms: u64)
        ensures
            *final(self) == (Device { updated_at: now_ms, ..*old(self) }),
    {
        self.updated_at = now_ms;
    }

    /// How long ago the device was last written (or constructed), given the
    /// time now.
    pub fn get_last_set_ago(&self, now_ms: u64) -> (r: u64)
        ensures
            r == spec_last_set_ago(*self, now_ms),
    {
        if now_ms >= self.updated_at {
            now_ms - self.updated_at
        } else {
            0
        }
    }

    /// What to do after `failed_attempts` raw reads have failed: sleep and
    /// retry until the configured budget is spent.
    pub fn next_read_attempt(&self, failed_attempts: u8) -> (r: ReadRetry)
        ensures
            failed_attempts < self.config.ddcci_max_tries_write_read ==> r == (ReadRetry::Retry {
                sleep_ms: spec_retry_sleep_ms(self.config) as u64,
            }),
            failed_attempts >= self.config.ddcci_max_tries_write_read ==> r
                == ReadRetry::GiveUp,
    {
        next_read_attempt_for(&self.config, failed_attempts)
    }

    /// The error reported when the retry budget for raw reads is spent.
    pub fn protocol_unreachable_error(&self) -> (e: Error)
        ensures
            e.kind == ErrorKind::Io,
            e.message matches Some(m) && m@
                == "Failed to read brightness file, check your ddcci settings"@,
    {
        Error {
            kind: ErrorKind::Io,
            message: Some("Failed to read brightness file, check your ddcci settings".to_owned()),
        }
    }
}

} // verus!
