//! The device fleet: discovery of matching devices, the live device set, and
//! fan-in aggregation of per-device reads and writes with partial-failure
//! tolerance.

use vstd::prelude::*;

use crate::config::{spec_default_device_config, CalibrightConfig};
use crate::consts::{
    devices_path, file_brightness, file_brightness_amd, spec_devices_path, spec_file_brightness,
    spec_file_brightness_amd,
};
use crate::device::{spec_last_set_ago, Device};
use crate::errors::{Error, ErrorKind};
use crate::matching::{match_device_name, regex_is_match, regex_pattern_ok};
use crate::paths::{
    path_file_name, path_parent, spec_file_name, spec_last_slash, spec_parent,
};
use crate::util::{accept_single_ok, chars_eq, mean_brightness, spec_ok_values, spec_sum};
use crate::watcher::{spec_action_views, SpecWatchAction, WatchAction, WatchEvent, WatchEventKind};
use crate::SCALE;

verus! {

/// First device with the given name, if any.
pub open spec fn spec_lookup_device(s: Seq<Device>, name: Seq<char>) -> Option<Device>
    decreases s.len(),
{
    if s.len() == 0 {
        None
    } else if s[0].device_name@ == name {
        Some(s[0])
    } else {
        spec_lookup_device(s.drop_first(), name)
    }
}

/// Index of the first device with the given name, or -1.
pub open spec fn spec_device_index(s: Seq<Device>, name: Seq<char>) -> int
    decreases s.len(),
{
    if s.len() == 0 {
        -1
    } else if s[0].device_name@ == name {
        0
    } else {
        let r = spec_device_index(s.drop_first(), name);
        if r < 0 {
            -1
        } else {
            1 + r
        }
    }
}

proof fn lemma_device_index(s: Seq<Device>, name: Seq<char>)
    ensures
        spec_device_index(s, name) >= 0 ==> (spec_device_index(s, name) < s.len() && s[
            spec_device_index(s, name)
        ].device_name@ == name && spec_lookup_device(s, name) == Some(
            s[spec_device_index(s, name)],
        )),
        spec_device_index(s, name) < 0 ==> (spec_lookup_device(s, name) is None && forall|i: int|
            0 <= i < s.len() ==> (#[trigger] s[i]).device_name@ != name),
    decreases s.len(),
{
    if s.len() > 0 && s[0].device_name@ != name {
        lemma_device_index(s.drop_first(), name);
        assert(forall|i: int| 0 <= i < s.drop_first().len() ==> #[trigger] s.drop_first()[i] == s[i
            + 1]);
        if spec_device_index(s, name) < 0 {
            assert forall|i: int| 0 <= i < s.len() implies (#[trigger] s[i]).device_name@ != name by {
                if i >= 1 {
                    assert(s[i] == s.drop_first()[i - 1]);
                }
            }
        }
    }
}

/// The first match determines the index.
proof fn lemma_device_index_first(s: Seq<Device>, name: Seq<char>, i: int)
    requires
        0 <= i < s.len(),
        s[i].device_name@ == name,
        forall|j: int| 0 <= j < i ==> (#[trigger] s[j]).device_name@ != name,
    ensures
        spec_device_index(s, name) == i,
    decreases i,
{
    if i > 0 {
        assert(forall|j: int| 0 <= j < s.drop_first().len() ==> #[trigger] s.drop_first()[j] == s[j
            + 1]);
        lemma_device_index_first(s.drop_first(), name, i - 1);
    }
}

/// Whether one of the `Ok` entries of `s` is a device of this name.
pub open spec fn spec_has_ok_device(s: Seq<Result<Device, Error>>, name: Seq<char>) -> bool {
    exists|i: int|
        0 <= i < s.len() && (#[trigger] s[i]) is Ok && s[i]->Ok_0.device_name@ == name
}

/// Every success in `s` appears among its collected `Ok` payloads, and comes
/// from some entry of `s`.
proof fn lemma_ok_values_from_entries(s: Seq<Result<Device, Error>>)
    ensures
        forall|k: int|
            0 <= k < spec_ok_values(s).len() ==> spec_has_ok_device(
                s,
                (#[trigger] spec_ok_values(s)[k]).device_name@,
            ),
    decreases s.len(),
{
    if s.len() > 0 {
        lemma_ok_values_from_entries(s.drop_last());
        let okv = spec_ok_values(s);
        let okvp = spec_ok_values(s.drop_last());
        assert(forall|i: int| 0 <= i < s.len() - 1 ==> #[trigger] s.drop_last()[i] == s[i]);
        assert forall|k: int| 0 <= k < okv.len() implies spec_has_ok_device(
            s,
            (#[trigger] okv[k]).device_name@,
        ) by {
            if k < okvp.len() {
                assert(spec_has_ok_device(s.drop_last(), okvp[k].device_name@));
                let i = choose|i: int|
                    0 <= i < s.drop_last().len() && (#[trigger] s.drop_last()[i]) is Ok
                        && s.drop_last()[i]->Ok_0.device_name@ == okvp[k].device_name@;
                assert(s[i] is Ok && s[i]->Ok_0.device_name@ == okv[k].device_name@);
            } else {
                assert(s.last() is Ok);
                assert(okv[k] == s.last()->Ok_0);
                assert(s[s.len() - 1] is Ok && s[s.len() - 1]->Ok_0.device_name@ == okv[
                    k
                ].device_name@);
            }
        }
    }
}

/// Pairwise-distinct device names among the successes of `s` carry over to
/// the collected sequence of devices.
proof fn lemma_ok_values_distinct_names(s: Seq<Result<Device, Error>>)
    requires
        forall|i: int, j: int|
            0 <= i < j < s.len() && (#[trigger] s[i]) is Ok && (#[trigger] s[j]) is Ok
                ==> s[i]->Ok_0.device_name@ != s[j]->Ok_0.device_name@,
    ensures
        forall|k1: int, k2: int|
            0 <= k1 < k2 < spec_ok_values(s).len() ==> (#[trigger] spec_ok_values(
                s,
            )[k1]).device_name@ != (#[trigger] spec_ok_values(s)[k2]).device_name@,
    decreases s.len(),
{
    if s.len() > 0 {
        assert(forall|i: int| 0 <= i < s.len() - 1 ==> #[trigger] s.drop_last()[i] == s[i]);
        lemma_ok_values_distinct_names(s.drop_last());
        let okv = spec_ok_values(s);
        let okvp = spec_ok_values(s.drop_last());
        if s.last() is Ok {
            lemma_ok_values_from_entries(s.drop_last());
            assert forall|k1: int, k2: int| 0 <= k1 < k2 < okv.len() implies (#[trigger] okv[k1]).device_name@
                != (#[trigger] okv[k2]).device_name@ by {
                if k2 < okvp.len() {
                    assert(okv[k1] == okvp[k1] && okv[k2] == okvp[k2]);
                } else {
                    assert(okv[k2] == s.last()->Ok_0);
                    assert(okv[k1] == okvp[k1]);
                    assert(spec_has_ok_device(s.drop_last(), okvp[k1].device_name@));
                    let i = choose|i: int|
                        0 <= i < s.drop_last().len() && (#[trigger] s.drop_last()[i]) is Ok
                            && s.drop_last()[i]->Ok_0.device_name@ == okvp[k1].device_name@;
                    assert(s[i] is Ok && s[s.len() - 1] is Ok);
                }
            }
        }
    }
}

/// Every success bounded by `SCALE` keeps the collected readings bounded.
proof fn lemma_ok_values_le_scale(s: Seq<Result<u64, Error>>)
    requires
        forall|i: int| 0 <= i < s.len() ==> ((#[trigger] s[i]) matches Ok(v) ==> v <= SCALE),
    ensures
        forall|k: int| 0 <= k < spec_ok_values(s).len() ==> #[trigger] spec_ok_values(s)[k]
            <= SCALE,
    decreases s.len(),
{
    if s.len() > 0 {
        assert(forall|i: int| 0 <= i < s.len() - 1 ==> #[trigger] s.drop_last()[i] == s[i]);
        lemma_ok_values_le_scale(s.drop_last());
        let okv = spec_ok_values(s);
        let okvp = spec_ok_values(s.drop_last());
        assert forall|k: int| 0 <= k < okv.len() implies #[trigger] okv[k] <= SCALE by {
            if k < okvp.len() {
                assert(okv[k] == okvp[k]);
            } else {
                assert(s[s.len() - 1] matches Ok(v) ==> v <= SCALE);
            }
        }
    }
}

/// The live fleet: the device set, the selector pattern, the resolved
/// configuration and the watcher's poll interval.
#[derive(Debug)]
pub struct Calibright {
    pub devices: Vec<Device>,
    pub device_regex: String,
    pub config: CalibrightConfig,
    pub poll_interval_ms: u64,
}

impl Calibright {
    /// The fleet's invariant: every device well-formed, no two devices of the
    /// same name, the configuration well-formed.
    pub open spec fn wf(self) -> bool {
        &&& forall|i: int| 0 <= i < self.devices@.len() ==> (#[trigger] self.devices@[i]).wf()
        &&& forall|i: int, j: int|
            0 <= i < j < self.devices@.len() ==> (#[trigger] self.devices@[i]).device_name@ != (
            #[trigger] self.devices@[j]).device_name@
        &&& self.config.wf()
    }

    /// Whether a device of this name is in the fleet.
    pub open spec fn spec_has_device(self, name: Seq<char>) -> bool {
        spec_device_index(self.devices@, name) >= 0
    }

    /// The fleet assembled from per-device construction results: failed
    /// constructions are dropped, and the build fails with `NoDevices` only
    /// when devices were discovered but every construction failed.
    pub fn new(
        device_regex: &String,
        config: CalibrightConfig,
        poll_interval_ms: u64,
        construction: Vec<Result<Device, Error>>,
    ) -> (r: Result<Calibright, Error>)
        requires
            config.wf(),
            forall|i: int|
                0 <= i < construction@.len() ==> ((#[trigger] construction@[i]) matches Ok(d)
                    ==> d.wf()),
            forall|i: int, j: int|
                0 <= i < j < construction@.len() && (#[trigger] construction@[i]) is Ok && (
                #[trigger] construction@[j]) is Ok ==> construction@[i]->Ok_0.device_name@
                    != construction@[j]->Ok_0.device_name@,
        ensures
            r is Ok <==> (spec_ok_values(construction@).len() > 0 || construction@.len() == 0),
            r matches Ok(c) ==> ({
                &&& c.wf()
                &&& c.devices@ == spec_ok_values(construction@)
                &&& c.device_regex@ == device_regex@
                &&& c.config == config
                &&& c.poll_interval_ms == poll_interval_ms
            }),
            r matches Err(e) ==> e.kind == ErrorKind::NoDevices,
    {
        proof {
            lemma_ok_values_distinct_names(construction@);
            lemma_ok_values_le_wf(construction@);
        }
        if construction.len() == 0 {
            return Ok(
                Calibright {
                    devices: Vec::new(),
                    device_regex: device_regex.clone(),
                    config,
                    poll_interval_ms,
                },
            );
        }
        let devices = match accept_single_ok(construction) {
            Ok(devices) => devices,
            Err(e) => {
                return Err(e);
            },
        };
        Ok(Calibright { devices, device_regex: device_regex.clone(), config, poll_interval_ms })
    }

    /// How many devices the fleet holds.
    pub fn device_count(&self) -> (r: usize)
        ensures
            r == self.devices@.len(),
    {
        self.devices.len()
    }

    /// The device at a slot.
    pub fn device_at(&self, i: usize) -> (d: &Device)
        requires
            i < self.devices@.len(),
        ensures
            *d == self.devices@[i as int],
    {
        &self.devices[i]
    }

    /// The slot of the device of this name, if it is in the fleet.
    pub fn find_device(&self, name: &Vec<char>) -> (r: Option<usize>)
        ensures
            r matches Some(i) ==> i == spec_device_index(self.devices@, name@),
            r is None ==> spec_device_index(self.devices@, name@) < 0,
            r is Some <==> self.spec_has_device(name@),
    {
        let mut i: usize = 0;
        while i < self.devices.len()
            invariant
                0 <= i <= self.devices@.len(),
                forall|j: int| 0 <= j < i ==> (#[trigger] self.devices@[j]).device_name@ != name@,
            decreases self.devices@.len() - i,
        {
            if chars_eq(&self.devices[i].device_name, name) {
                proof {
                    lemma_device_index_first(self.devices@, name@, i as int);
                }
                return Some(i);
            }
            i += 1;
        }
        proof {
            lemma_device_index(self.devices@, name@);
            if spec_device_index(self.devices@, name@) >= 0 {
                assert(self.devices@[spec_device_index(self.devices@, name@)].device_name@
                    == name@);
                assert(false);
            }
        }
        None
    }

    /// Add a device to the fleet; adding a device whose name is already
    /// present changes nothing.
    pub fn add_device(&mut self, device: Device)
        requires
            old(self).wf(),
            device.wf(),
        ensures
            final(self).wf(),
            old(self).spec_has_device(device.device_name@) ==> *final(self) == *old(self),
            !old(self).spec_has_device(device.device_name@) ==> final(self).devices@ == old(
                self,
            ).devices@.push(device),
            final(self).device_regex == old(self).device_regex,
            final(self).config == old(self).config,
            final(self).poll_interval_ms == old(self).poll_interval_ms,
    {
        proof {
            lemma_device_index(self.devices@, device.device_name@);
        }
        if self.find_device(&device.device_name).is_none() {
            self.devices.push(device);
        }
    }

    /// Remove the device of this name from the fleet and hand it back (so
    /// its brightness file can be unwatched); removing an absent name changes
    /// nothing.
    pub fn remove_device(&mut self, device_name: &Vec<char>) -> (r: Option<Device>)
        requires
            old(self).wf(),
        ensures
            final(self).wf(),
            r is Some <==> old(self).spec_has_device(device_name@),
            r is None ==> *final(self) == *old(self),
            r matches Some(d) ==> ({
                let idx = spec_device_index(old(self).devices@, device_name@);
                &&& d == old(self).devices@[idx]
                &&& d.device_name@ == device_name@
                &&& final(self).devices@ == old(self).devices@.remove(idx)
            }),
            !final(self).spec_has_device(device_name@),
            final(self).device_regex == old(self).device_regex,
            final(self).config == old(self).config,
            final(self).poll_interval_ms == old(self).poll_interval_ms,
    {
        proof {
            lemma_device_index(self.devices@, device_name@);
        }
        match self.find_device(device_name) {
            Some(i) => {
                let d = self.devices.remove(i);
                proof {
                    lemma_device_index(self.devices@, device_name@);
                    if spec_device_index(self.devices@, device_name@) >= 0 {
                        let j = spec_device_index(self.devices@, device_name@);
                        assert(self.devices@[j].device_name@ == device_name@);
                        let oi = if j < i {
                            j
                        } else {
                            j + 1
                        };
                        assert(old(self).devices@[oi] == self.devices@[j]);
                        assert(false);
                    }
                }
                Some(d)
            },
            None => {
                proof {
                    lemma_device_index(self.devices@, device_name@);
                }
                None
            },
        }
    }

    /// Fleet-wide read: the arithmetic mean of the successful per-device
    /// readings, one slot per device; devices that failed are ignored, and
    /// only a fleet with no successful reading at all fails, with
    /// `NoDevices`.
    pub fn get_brightness(&self, readings: Vec<Result<u64, Error>>) -> (r: Result<u64, Error>)
        requires
            readings@.len() == self.devices@.len(),
            forall|i: int|
                0 <= i < readings@.len() ==> ((#[trigger] readings@[i]) matches Ok(v) ==> v
                    <= SCALE),
        ensures
            r is Ok <==> spec_ok_values(readings@).len() > 0,
            r matches Ok(v) ==> v == spec_sum(spec_ok_values(readings@)) / (spec_ok_values(
                readings@,
            ).len() as int) && v <= SCALE,
            r matches Err(e) ==> e.kind == ErrorKind::NoDevices,
    {
        proof {
            lemma_ok_values_le_scale(readings@);
        }
        let values = match accept_single_ok(readings) {
            Ok(values) => values,
            Err(e) => {
                return Err(e);
            },
        };
        Ok(mean_brightness(&values))
    }

    /// Fleet-wide write: succeeds when at least one device accepted the
    /// write, one outcome slot per device; fails with `NoDevices` only when
    /// every device failed.
    pub fn set_brightness(&self, outcomes: Vec<Result<(), Error>>) -> (r: Result<(), Error>)
        requires
            outcomes@.len() == self.devices@.len(),
        ensures
            r is Ok <==> spec_ok_values(outcomes@).len() > 0,
            r matches Err(e) ==> e.kind == ErrorKind::NoDevices,
    {
        match accept_single_ok(outcomes) {
            Ok(_) => Ok(()),
            Err(e) => Err(e),
        }
    }
}

/// Whether `p` lies directly under the devices directory.
pub open spec fn spec_is_depth1(p: Seq<char>) -> bool {
    spec_last_slash(p) >= 0 && spec_parent(p) == spec_devices_path()
}

/// Whether `p` names a brightness file (either of the two names drivers use).
pub open spec fn spec_is_brightness_file(p: Seq<char>) -> bool {
    spec_file_name(p) == spec_file_brightness() || spec_file_name(p) == spec_file_brightness_amd()
}

/// The action, if any, that one path of a creation event yields: a path
/// directly under the devices directory whose name is not yet in the fleet
/// and matches the selector pattern asks for the device to be added.
pub open spec fn spec_create_action(c: Calibright, p: Seq<char>) -> Seq<SpecWatchAction> {
    let name = spec_file_name(p);
    if spec_is_depth1(p) && !c.spec_has_device(name) && regex_pattern_ok(c.device_regex@)
        && regex_is_match(c.device_regex@, name) {
        seq![SpecWatchAction::AddDevice(name)]
    } else {
        Seq::empty()
    }
}

/// The action, if any, that one path of a removal event yields: a path
/// directly under the devices directory whose name is in the fleet asks for
/// the device to be removed.
pub open spec fn spec_remove_action(c: Calibright, p: Seq<char>) -> Seq<SpecWatchAction> {
    let name = spec_file_name(p);
    if spec_is_depth1(p) && c.spec_has_device(name) {
        seq![SpecWatchAction::RemoveDevice(name)]
    } else {
        Seq::empty()
    }
}

/// The action, if any, that one path of a modification event yields: a
/// brightness file of a known device surfaces an external change, unless the
/// fleet itself wrote that device within the poll interval — then the event
/// is only the echo of that write, and is suppressed.
pub open spec fn spec_modify_action(c: Calibright, p: Seq<char>, t_ms: u64) -> Seq<
    SpecWatchAction,
> {
    if spec_is_brightness_file(p) && spec_last_slash(p) >= 0 && (spec_lookup_device(
        c.devices@,
        spec_file_name(spec_parent(p)),
    ) matches Some(d) && spec_last_set_ago(d, t_ms) > c.poll_interval_ms) {
        seq![SpecWatchAction::ExternalChange]
    } else {
        Seq::empty()
    }
}

/// Suppression law: when a brightness file of a known device reports a
/// modification, the event surfaces as exactly one external change if it
/// comes later than the poll interval after this fleet's own last write to
/// that device, and is suppressed — as the mere echo of that write — if it
/// comes within the interval.
pub proof fn lemma_echo_suppression(c: Calibright, p: Seq<char>, t_ms: u64)
    requires
        spec_is_brightness_file(p),
        spec_last_slash(p) >= 0,
        spec_lookup_device(c.devices@, spec_file_name(spec_parent(p))) is Some,
    ensures
        ({
            let d = spec_lookup_device(c.devices@, spec_file_name(spec_parent(p)))->0;
            &&& spec_last_set_ago(d, t_ms) <= c.poll_interval_ms ==> spec_modify_action(c, p, t_ms)
                == Seq::<SpecWatchAction>::empty()
            &&& spec_last_set_ago(d, t_ms) > c.poll_interval_ms ==> spec_modify_action(c, p, t_ms)
                == seq![SpecWatchAction::ExternalChange]
        }),
{
}

/// The actions one path yields, by event kind.
pub open spec fn spec_path_actions(
    c: Calibright,
    kind: WatchEventKind,
    p: Seq<char>,
    t_ms: u64,
) -> Seq<SpecWatchAction> {
    match kind {
        WatchEventKind::Create => spec_create_action(c, p),
        WatchEventKind::Remove => spec_remove_action(c, p),
        WatchEventKind::Modify => spec_modify_action(c, p, t_ms),
        WatchEventKind::Other => Seq::empty(),
    }
}

/// The actions an event yields: those of its paths, in order.
pub open spec fn spec_plan_event(
    c: Calibright,
    kind: WatchEventKind,
    paths: Seq<Vec<char>>,
    t_ms: u64,
) -> Seq<SpecWatchAction>
    decreases paths.len(),
{
    if paths.len() == 0 {
        Seq::empty()
    } else {
        spec_plan_event(c, kind, paths.drop_last(), t_ms) + spec_path_actions(
            c,
            kind,
            paths.last()@,
            t_ms,
        )
    }
}

impl Calibright {
    /// The reconciliation policy, as one step of a state machine: the
    /// actions the fleet asks its caller to perform in answer to one watch
    /// event. The fleet itself is not changed; the caller performs each
    /// action (constructing devices, adding or removing them, watching or
    /// unwatching files, surfacing the change) in order.
    pub fn plan_event(&self, event: &WatchEvent) -> (r: Vec<WatchAction>)
        ensures
            spec_action_views(r@) == spec_plan_event(
                *self,
                event.kind,
                event.paths@,
                event.timestamp_ms,
            ),
    {
        let mut r: Vec<WatchAction> = Vec::new();
        let mut i: usize = 0;
        proof {
            assert(spec_action_views(r@) =~~= spec_plan_event(
                *self,
                event.kind,
                event.paths@.take(0),
                event.timestamp_ms,
            ));
        }
        while i < event.paths.len()
            invariant
                0 <= i <= event.paths@.len(),
                spec_action_views(r@) == spec_plan_event(
                    *self,
                    event.kind,
                    event.paths@.take(i as int),
                    event.timestamp_ms,
                ),
            decreases event.paths@.len() - i,
        {
            proof {
                assert(event.paths@.take(i + 1 as int).drop_last() =~= event.paths@.take(i as int));
                assert(event.paths@.take(i + 1 as int).last() == event.paths@[i as int]);
            }
            let p = &event.paths[i];
            let ghost before = r@;
            match event.kind {
                WatchEventKind::Create => {
                    let name = path_file_name(p);
                    let depth1 = match path_parent(p) {
                        Some(parent) => chars_eq(&parent, &devices_path()),
                        None => false,
                    };
                    if depth1 && self.find_device(&name).is_none() {
                        let matched = match match_device_name(&self.device_regex, &name) {
                            Some(b) => b,
                            None => false,
                        };
                        if matched {
                            r.push(WatchAction::AddDevice { device_name: name });
                        }
                    }
                    proof {
                        assert(spec_action_views(r@) =~~= spec_action_views(before)
                            + spec_create_action(*self, event.paths@[i as int]@));
                    }
                },
                WatchEventKind::Remove => {
                    let name = path_file_name(p);
                    let depth1 = match path_parent(p) {
                        Some(parent) => chars_eq(&parent, &devices_path()),
                        None => false,
                    };
                    if depth1 && self.find_device(&name).is_some() {
                        r.push(WatchAction::RemoveDevice { device_name: name });
                    }
                    proof {
                        assert(spec_action_views(r@) =~~= spec_action_views(before)
                            + spec_remove_action(*self, event.paths@[i as int]@));
                    }
                },
                WatchEventKind::Modify => {
                    let file = path_file_name(p);
                    let is_brightness = chars_eq(&file, &file_brightness()) || chars_eq(
                        &file,
                        &file_brightness_amd(),
                    );
                    if is_brightness {
                        match path_parent(p) {
                            Some(parent) => {
                                let owner = path_file_name(&parent);
                                match self.find_device(&owner) {
                                    Some(idx) => {
                                        proof {
                                            lemma_device_index(self.devices@, owner@);
                                        }
                                        let ago = self.device_at(idx).get_last_set_ago(
                                            event.timestamp_ms,
                                        );
                                        if ago > self.poll_interval_ms {
                                            r.push(WatchAction::ExternalChange);
                                        }
                                    },
                                    None => {
                                        proof {
                                            lemma_device_index(self.devices@, owner@);
                                        }
                                    },
                                }
                            },
                            None => {},
                        }
                    }
                    proof {
                        assert(spec_action_views(r@) =~~= spec_action_views(before)
                            + spec_modify_action(*self, event.paths@[i as int]@, event.timestamp_ms));
                    }
                },
                WatchEventKind::Other => {},
            }
            i += 1;
        }
        proof {
            assert(event.paths@.take(event.paths@.len() as int) =~= event.paths@);
        }
        r
    }
}

/// Used to construct a [`Calibright`] fleet.
pub struct CalibrightBuilder {
    pub device_regex: String,
    pub config: Option<CalibrightConfig>,
    pub poll_interval_ms: u64,
}

impl Default for CalibrightBuilder {
    fn default() -> (r: CalibrightBuilder)
        ensures
            r.device_regex@ == "."@,
            r.config is None,
            r.poll_interval_ms == 2000,
    {
        CalibrightBuilder { device_regex: ".".to_owned(), config: None, poll_interval_ms: 2000 }
    }
}

impl CalibrightBuilder {
    /// A builder with the defaults: every device, the built-in
    /// configuration, a two-second poll interval.
    pub fn new() -> (r: CalibrightBuilder)
        ensures
            r.device_regex@ == "."@,
            r.config is None,
            r.poll_interval_ms == 2000,
    {
        CalibrightBuilder::default()
    }

    /// Defaults to `"."` (matches all devices).
    pub fn with_device_regex(self, device_regex: &str) -> (r: CalibrightBuilder)
        ensures
            r.device_regex@ == device_regex@,
            r.config == self.config,
            r.poll_interval_ms == self.poll_interval_ms,
    {
        CalibrightBuilder { device_regex: device_regex.to_owned(), ..self }
    }

    /// Defaults to the built-in configuration.
    pub fn with_config(self, config: CalibrightConfig) -> (r: CalibrightBuilder)
        ensures
            r.config == Some(config),
            r.device_regex == self.device_regex,
            r.poll_interval_ms == self.poll_interval_ms,
    {
        CalibrightBuilder { config: Some(config), ..self }
    }

    /// Defaults to 2000 ms.
    pub fn with_poll_interval(self, poll_interval_ms: u64) -> (r: CalibrightBuilder)
        ensures
            r.poll_interval_ms == poll_interval_ms,
            r.device_regex == self.device_regex,
            r.config == self.config,
    {
        CalibrightBuilder { poll_interval_ms, ..self }
    }

    /// The constructed [`Calibright`] fleet, from the caller's per-device
    /// construction results (the devices whose names
    /// [`select_device_names`](crate::matching::select_device_names) chose).
    pub fn build(self, construction: Vec<Result<Device, Error>>) -> (r: Result<Calibright, Error>)
        requires
            self.config matches Some(c) ==> c.wf(),
            forall|i: int|
                0 <= i < construction@.len() ==> ((#[trigger] construction@[i]) matches Ok(d)
                    ==> d.wf()),
            forall|i: int, j: int|
                0 <= i < j < construction@.len() && (#[trigger] construction@[i]) is Ok && (
                #[trigger] construction@[j]) is Ok ==> construction@[i]->Ok_0.device_name@
                    != construction@[j]->Ok_0.device_name@,
        ensures
            r is Ok <==> (spec_ok_values(construction@).len() > 0 || construction@.len() == 0),
            r matches Ok(c) ==> ({
                &&& c.wf()
                &&& c.devices@ == spec_ok_values(construction@)
                &&& c.device_regex@ == self.device_regex@
                &&& (self.config matches Some(given) ==> c.config == given)
                &&& (self.config is None ==> c.config.global == spec_default_device_config()
                    && c.config.overrides@.len() == 0)
                &&& c.poll_interval_ms == self.poll_interval_ms
            }),
            r matches Err(e) ==> e.kind == ErrorKind::NoDevices,
    {
        let config = match self.config {
            Some(config) => config,
            None => CalibrightConfig::new(),
        };
        Calibright::new(&self.device_regex, config, self.poll_interval_ms, construction)
    }
}

/// Well-formedness of every success carries over to the collected devices.
proof fn lemma_ok_values_le_wf(s: Seq<Result<Device, Error>>)
    requires
        forall|i: int| 0 <= i < s.len() ==> ((#[trigger] s[i]) matches Ok(d) ==> d.wf()),
    ensures
        forall|k: int| 0 <= k < spec_ok_values(s).len() ==> (#[trigger] spec_ok_values(s)[k]).wf(),
    decreases s.len(),
{
    if s.len() > 0 {
        assert(forall|i: int| 0 <= i < s.len() - 1 ==> #[trigger] s.drop_last()[i] == s[i]);
        lemma_ok_values_le_wf(s.drop_last());
        let okv = spec_ok_values(s);
        let okvp = spec_ok_values(s.drop_last());
        assert forall|k: int| 0 <= k < okv.len() implies (#[trigger] okv[k]).wf() by {
            if k < okvp.len() {
                assert(okv[k] == okvp[k]);
            } else {
                assert(s[s.len() - 1] matches Ok(d) ==> d.wf());
            }
        }
    }
}

} // verus!
