//! Per-device configuration: global defaults, per-device overrides, and the
//! validation and normalization of raw configuration input.
//!
//! Fractional settings are fixed-point: `root_scaling` and
//! `ddcci_sleep_multiplier` are in thousandths (1000 stands for 1.0), the
//! calibration bounds in `SCALE` units after normalization.

use vstd::prelude::*;

use crate::consts::{CALIBRATION_INPUT_MAX, ROOT_SCALING_MAX, ROOT_SCALING_MIN};
use crate::errors::{Error, ErrorKind};
use crate::util::{chars_clone, chars_eq};
use crate::SCALE;

verus! {

/// The resolved configuration of one device.
#[derive(Clone, Copy, Debug, PartialEq, Eq, Structural)]
pub struct DeviceConfig {
    /// Scaling exponent reciprocal (ie. root), in thousandths.
    pub root_scaling: u32,
    /// Multiplier for the settle time between protocol retries, in
    /// thousandths.
    pub ddcci_sleep_multiplier: u32,
    /// The maximum number of times to attempt writing to or reading from a
    /// ddcci monitor.
    pub ddcci_max_tries_write_read: u8,
    /// Lower calibration bound, in `SCALE` units.
    pub calibration_low: u64,
    /// Upper calibration bound, in `SCALE` units.
    pub calibration_high: u64,
}

/// The built-in defaults: unit scaling, unit sleep multiplier, ten tries,
/// the full calibration range.
pub open spec fn spec_default_device_config() -> DeviceConfig {
    DeviceConfig {
        root_scaling: 1000,
        ddcci_sleep_multiplier: 1000,
        ddcci_max_tries_write_read: 10,
        calibration_low: 0,
        calibration_high: SCALE,
    }
}

impl DeviceConfig {
    /// The invariant every resolved configuration satisfies.
    pub open spec fn wf(self) -> bool {
        &&& ROOT_SCALING_MIN <= self.root_scaling <= ROOT_SCALING_MAX
        &&& self.ddcci_max_tries_write_read >= 1
        &&& self.calibration_low <= self.calibration_high <= SCALE
    }
}

impl Default for DeviceConfig {
    fn default() -> (r: DeviceConfig)
        ensures
            r == spec_default_device_config(),
            r.wf(),
    {
        DeviceConfig {
            root_scaling: 1000,
            ddcci_sleep_multiplier: 1000,
            ddcci_max_tries_write_read: 10,
            calibration_low: 0,
            calibration_high: SCALE,
        }
    }
}

/// A calibration pair on either scale.
#[derive(Clone, Copy, Debug, PartialEq, Eq, Structural)]
pub struct Calibration {
    pub low: u64,
    pub high: u64,
}

/// One section of the configuration input: every field optional, calibration
/// still on the 0–100% input scale (in thousandths of a percent).
#[derive(Clone, Copy, Debug, PartialEq, Eq, Structural)]
pub struct UnresolvedDeviceConfig {
    pub root_scaling: Option<u32>,
    pub ddcci_sleep_multiplier: Option<u32>,
    pub ddcci_max_tries_write_read: Option<u8>,
    /// `(low, high)` on the input scale: `CALIBRATION_INPUT_MAX` is 100%.
    pub calibration: Option<Calibration>,
}

/// A section that sets nothing.
pub open spec fn spec_empty_section() -> UnresolvedDeviceConfig {
    UnresolvedDeviceConfig {
        root_scaling: None,
        ddcci_sleep_multiplier: None,
        ddcci_max_tries_write_read: None,
        calibration: None,
    }
}

impl UnresolvedDeviceConfig {
    /// An empty section: nothing overridden.
    pub fn new() -> (r: UnresolvedDeviceConfig)
        ensures
            r == spec_empty_section(),
    {
        UnresolvedDeviceConfig {
            root_scaling: None,
            ddcci_sleep_multiplier: None,
            ddcci_max_tries_write_read: None,
            calibration: None,
        }
    }

    /// Whether the section's values have passed validation: the scaling root
    /// within its accepted range, the calibration pair normalized to
    /// `[0, SCALE]` with `low <= high`.
    pub open spec fn wf(self) -> bool {
        &&& self.root_scaling matches Some(v) ==> ROOT_SCALING_MIN <= v <= ROOT_SCALING_MAX
        &&& self.ddcci_max_tries_write_read matches Some(t) ==> t >= 1
        &&& self.calibration matches Some(c) ==> c.low <= c.high <= SCALE
    }

    /// Check the raw input ranges and normalize the calibration pair from the
    /// percentage input scale to `[0, SCALE]`. A `root_scaling` outside
    /// [0.1, 10] or a calibration bound beyond 100% is a configuration error;
    /// a calibration pair with `low > high` is an invalid range, never
    /// reordered.
    pub fn validated(&self) -> (r: Result<UnresolvedDeviceConfig, Error>)
        ensures
            r is Ok <==> {
                &&& self.root_scaling matches Some(v) ==> ROOT_SCALING_MIN <= v
                    <= ROOT_SCALING_MAX
                &&& self.ddcci_max_tries_write_read matches Some(t) ==> t >= 1
                &&& self.calibration matches Some(c) ==> c.low <= c.high <= CALIBRATION_INPUT_MAX
            },
            r matches Ok(v) ==> {
                &&& v.root_scaling == self.root_scaling
                &&& v.ddcci_sleep_multiplier == self.ddcci_sleep_multiplier
                &&& v.ddcci_max_tries_write_read == self.ddcci_max_tries_write_read
                &&& (self.calibration matches Some(c) ==> v.calibration == Some(
                    (Calibration { low: (c.low * 10) as u64, high: (c.high * 10) as u64 }),
                ))
                &&& (self.calibration is None ==> v.calibration is None)
                &&& v.wf()
            },
            r matches Err(e) ==> (e.kind == ErrorKind::InvalidRange <==> (
            self.calibration matches Some(c) && c.low > c.high && c.high <= CALIBRATION_INPUT_MAX
                && (self.root_scaling matches Some(v) ==> ROOT_SCALING_MIN <= v
                <= ROOT_SCALING_MAX) && (self.ddcci_max_tries_write_read matches Some(t) ==> t
                >= 1))),
            r matches Err(e) ==> e.kind == ErrorKind::InvalidRange || e.kind == ErrorKind::Config,
    {
        if let Some(v) = self.root_scaling {
            if v < ROOT_SCALING_MIN || v > ROOT_SCALING_MAX {
                return Err(Error::of_kind(ErrorKind::Config));
            }
        }
        if let Some(t) = self.ddcci_max_tries_write_read {
            if t < 1 {
                return Err(Error::of_kind(ErrorKind::Config));
            }
        }
        let calibration: Option<Calibration> = match self.calibration {
            Some(c) => {
                if c.high > CALIBRATION_INPUT_MAX {
                    return Err(Error::of_kind(ErrorKind::Config));
                }
                if c.low > c.high {
                    return Err(Error::of_kind(ErrorKind::InvalidRange));
                }
                Some(Calibration { low: c.low * 10, high: c.high * 10 })
            },
            None => None,
        };
        Ok(
            UnresolvedDeviceConfig {
                root_scaling: self.root_scaling,
                ddcci_sleep_multiplier: self.ddcci_sleep_multiplier,
                ddcci_max_tries_write_read: self.ddcci_max_tries_write_read,
                calibration,
            },
        )
    }
}

/// The field-wise resolution of one section against a base configuration:
/// a set field wins, an unset field inherits.
pub open spec fn spec_resolve_device(u: UnresolvedDeviceConfig, base: DeviceConfig) -> DeviceConfig {
    DeviceConfig {
        root_scaling: match u.root_scaling {
            Some(v) => v,
            None => base.root_scaling,
        },
        ddcci_sleep_multiplier: match u.ddcci_sleep_multiplier {
            Some(v) => v,
            None => base.ddcci_sleep_multiplier,
        },
        ddcci_max_tries_write_read: match u.ddcci_max_tries_write_read {
            Some(v) => v,
            None => base.ddcci_max_tries_write_read,
        },
        calibration_low: match u.calibration {
            Some(c) => c.low,
            None => base.calibration_low,
        },
        calibration_high: match u.calibration {
            Some(c) => c.high,
            None => base.calibration_high,
        },
    }
}

fn resolve_device(u: &UnresolvedDeviceConfig, base: &DeviceConfig) -> (r: DeviceConfig)
    ensures
        r == spec_resolve_device(*u, *base),
{
    DeviceConfig {
        root_scaling: match u.root_scaling {
            Some(v) => v,
            None => base.root_scaling,
        },
        ddcci_sleep_multiplier: match u.ddcci_sleep_multiplier {
            Some(v) => v,
            None => base.ddcci_sleep_multiplier,
        },
        ddcci_max_tries_write_read: match u.ddcci_max_tries_write_read {
            Some(v) => v,
            None => base.ddcci_max_tries_write_read,
        },
        calibration_low: match u.calibration {
            Some(c) => c.low,
            None => base.calibration_low,
        },
        calibration_high: match u.calibration {
            Some(c) => c.high,
            None => base.calibration_high,
        },
    }
}

/// A validated section inherits well-formedness from a well-formed base.
proof fn lemma_resolve_device_wf(u: UnresolvedDeviceConfig, base: DeviceConfig)
    requires
        u.wf(),
        base.wf(),
    ensures
        spec_resolve_device(u, base).wf(),
{
}

/// Inheritance law: an override that sets only `root_scaling` takes every
/// other field from its base, and a section that sets nothing resolves to the
/// base itself.
pub proof fn lemma_override_inheritance(u: UnresolvedDeviceConfig, base: DeviceConfig)
    ensures
        (u.root_scaling matches Some(v) && u.ddcci_sleep_multiplier is None
            && u.ddcci_max_tries_write_read is None && u.calibration is None)
            ==> spec_resolve_device(u, base) == (DeviceConfig {
            root_scaling: u.root_scaling->0,
            ..base
        }),
        u == spec_empty_section() ==> spec_resolve_device(u, base) == base,
{
}

/// The whole configuration input: a global section and per-device overrides.
#[derive(Debug)]
pub struct UnresolvedCalibrightConfig {
    pub global: UnresolvedDeviceConfig,
    pub overrides: Vec<(Vec<char>, UnresolvedDeviceConfig)>,
}

impl UnresolvedCalibrightConfig {
    /// An input with no sections at all.
    pub fn new() -> (r: UnresolvedCalibrightConfig)
        ensures
            r.wf(),
            r.global == spec_empty_section(),
            r.overrides@.len() == 0,
    {
        UnresolvedCalibrightConfig { global: UnresolvedDeviceConfig::new(), overrides: Vec::new() }
    }

    pub open spec fn wf(self) -> bool {
        &&& self.global.wf()
        &&& forall|i: int|
            0 <= i < self.overrides@.len() ==> (#[trigger] self.overrides@[i]).1.wf()
    }

    /// Resolve the input: the global section against the given defaults, then
    /// every override against the resolved global section.
    pub fn resolve(&self, defaults: &DeviceConfig) -> (r: CalibrightConfig)
        requires
            self.wf(),
            defaults.wf(),
        ensures
            r.global == spec_resolve_device(self.global, *defaults),
            r.overrides@.len() == self.overrides@.len(),
            forall|i: int|
                0 <= i < self.overrides@.len() ==> (#[trigger] r.overrides@[i]).0@
                    == self.overrides@[i].0@ && r.overrides@[i].1 == spec_resolve_device(
                    self.overrides@[i].1,
                    spec_resolve_device(self.global, *defaults),
                ),
            r.wf(),
    {
        let global = resolve_device(&self.global, defaults);
        let mut overrides: Vec<(Vec<char>, DeviceConfig)> = Vec::new();
        let mut i: usize = 0;
        while i < self.overrides.len()
            invariant
                0 <= i <= self.overrides@.len(),
                self.wf(),
                defaults.wf(),
                global == spec_resolve_device(self.global, *defaults),
                overrides@.len() == i,
                forall|j: int|
                    0 <= j < i ==> (#[trigger] overrides@[j]).0@ == self.overrides@[j].0@
                        && overrides@[j].1 == spec_resolve_device(self.overrides@[j].1, global),
            decreases self.overrides@.len() - i,
        {
            let name = chars_clone(&self.overrides[i].0);
            let resolved = resolve_device(&self.overrides[i].1, &global);
            overrides.push((name, resolved));
            i += 1;
        }
        proof {
            assert forall|i: int| 0 <= i < overrides@.len() implies (#[trigger] overrides@[i]).1.wf()
                && overrides@[i].0@ == self.overrides@[i].0@ by {
                lemma_resolve_device_wf(self.overrides@[i].1, global);
            }
            lemma_resolve_device_wf(self.global, *defaults);
        }
        CalibrightConfig { global, overrides }
    }
}

/// The resolved configuration: a concrete global section and concrete
/// per-device overrides.
#[derive(Debug)]
pub struct CalibrightConfig {
    pub global: DeviceConfig,
    pub overrides: Vec<(Vec<char>, DeviceConfig)>,
}

/// The first override whose name is `name`, if any.
pub open spec fn spec_lookup_override(
    s: Seq<(Vec<char>, DeviceConfig)>,
    name: Seq<char>,
) -> Option<DeviceConfig>
    decreases s.len(),
{
    if s.len() == 0 {
        None
    } else if s[0].0@ == name {
        Some(s[0].1)
    } else {
        spec_lookup_override(s.drop_first(), name)
    }
}

impl CalibrightConfig {
    pub open spec fn wf(self) -> bool {
        &&& self.global.wf()
        &&& forall|i: int|
            0 <= i < self.overrides@.len() ==> (#[trigger] self.overrides@[i]).1.wf()
    }

    /// The configuration a device of the given name resolves to: its
    /// override, or the global section.
    pub open spec fn spec_device_config(self, name: Seq<char>) -> DeviceConfig {
        match spec_lookup_override(self.overrides@, name) {
            Some(c) => c,
            None => self.global,
        }
    }

    /// A configuration holding the built-in defaults for every device.
    pub fn new() -> (r: CalibrightConfig)
        ensures
            r.global == spec_default_device_config(),
            r.overrides@.len() == 0,
            r.wf(),
    {
        CalibrightConfig { global: DeviceConfig::default(), overrides: Vec::new() }
    }

    /// A configuration holding the given defaults for every device.
    pub fn new_with_defaults(defaults: &DeviceConfig) -> (r: CalibrightConfig)
        requires
            defaults.wf(),
        ensures
            r.global == *defaults,
            r.overrides@.len() == 0,
            r.wf(),
    {
        CalibrightConfig { global: *defaults, overrides: Vec::new() }
    }

    /// The configuration for the device of the given name.
    pub fn get_device_config(&self, device_name: &Vec<char>) -> (r: DeviceConfig)
        ensures
            r == self.spec_device_config(device_name@),
            self.wf() ==> r.wf(),
    {
        let mut i: usize = 0;
        proof {
            assert(self.overrides@.skip(0) =~= self.overrides@);
        }
        while i < self.overrides.len()
            invariant
                0 <= i <= self.overrides@.len(),
                spec_lookup_override(self.overrides@, device_name@) == spec_lookup_override(
                    self.overrides@.skip(i as int),
                    device_name@,
                ),
            decreases self.overrides@.len() - i,
        {
            proof {
                assert(self.overrides@.skip(i as int).drop_first() =~= self.overrides@.skip(
                    i + 1 as int,
                ));
                assert(self.overrides@.skip(i as int)[0] == self.overrides@[i as int]);
            }
            if chars_eq(&self.overrides[i].0, device_name) {
                return self.overrides[i].1;
            }
            i += 1;
        }
        self.global
    }
}

} // verus!
