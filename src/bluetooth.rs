//! Locating tracked Bluetooth tags: each node reports the signal strength at
//! which it hears a tag, and the leader places every tag at the location
//! whose recent readings are strongest.
use crate::cluster_nodes::{contains_str, keys_unique, lemma_lookup_absent, lemma_lookup_at, lemma_lookup_push, lemma_lookup_update, lookup};
use crate::device::{Device, DeviceModel, DeviceType, SensorDeviceClass};
use crate::names::normalized;
use crate::registry::DeviceRegistry;
use crate::rolling_vec::{fresh, values, RollingVec};
use crate::text::strs_view;
use vstd::prelude::*;
use vstd::string::*;

verus! {

/// How long readings count towards a tag's location, in milliseconds.
pub const READING_WINDOW_MS: u64 = 90_000;

/// How many of the newest readings are averaged.
pub const AVERAGED_READINGS: usize = 3;

/// A reading is reported lost once more than this many whole seconds old.
pub const LOST_AFTER_SECS: u64 = 60;

/// Whether a reading taken at `taken_ms` counts as lost at `now_ms`: more
/// than sixty whole seconds have passed since.
pub fn reading_lost(taken_ms: u64, now_ms: u64) -> (r: bool)
    ensures
        r == (now_ms >= taken_ms && (now_ms - taken_ms) / 1000 > LOST_AFTER_SECS),
{
    now_ms >= taken_ms && (now_ms - taken_ms) / 1000 > LOST_AFTER_SECS
}

/// Where a tag is placed when no location has a reading for it.
pub const UNKNOWN_LOCATION: &'static str = "Unknown";

/// `a / b` rounded towards zero, as Rust's integer division does.
pub open spec fn trunc_div(a: int, b: int) -> int {
    if a >= 0 {
        a / b
    } else {
        -((-a) / b)
    }
}

pub open spec fn sum_of(s: Seq<i8>) -> int
    decreases s.len(),
{
    if s.len() == 0 {
        0
    } else {
        sum_of(s.drop_last()) + s.last() as int
    }
}

/// The average of the last three values, or of all if there are fewer.
pub open spec fn recent_average(s: Seq<i8>) -> Option<int> {
    let k = if s.len() < AVERAGED_READINGS {
        s.len() as int
    } else {
        AVERAGED_READINGS as int
    };
    if k == 0 {
        None
    } else {
        Some(trunc_div(sum_of(s.subrange(s.len() - k, s.len() as int)), k))
    }
}

/// Tracks as mathematical values: tag address, location, readings.
pub type TrackModel = (Seq<char>, Seq<char>, Seq<(int, i8)>);

/// The best location for `mac` among the tracks, and its average: the first
/// whose average beats every earlier one, starting from an unknown location
/// at the weakest strength.
pub open spec fn best_location(s: Seq<TrackModel>, mac: Seq<char>, now: int) -> (Seq<char>, int)
    decreases s.len(),
{
    if s.len() == 0 {
        (UNKNOWN_LOCATION@, i8::MIN as int)
    } else {
        let b = best_location(s.drop_last(), mac, now);
        let t = s.last();
        match recent_average(values(fresh(t.2, now, READING_WINDOW_MS as int))) {
            Some(a) => if t.0 == mac && a > b.1 {
                (t.1, a)
            } else {
                b
            },
            None => b,
        }
    }
}

/// The tag addresses of the tracks, each once, in order of first appearance.
pub open spec fn tags(s: Seq<TrackModel>) -> Seq<Seq<char>>
    decreases s.len(),
{
    if s.len() == 0 {
        Seq::<Seq<char>>::empty()
    } else {
        let m = tags(s.drop_last());
        if m.contains(s.last().0) {
            m
        } else {
            m.push(s.last().0)
        }
    }
}

/// Every tag with its best location.
pub open spec fn placements(s: Seq<TrackModel>, tag_list: Seq<Seq<char>>, now: int) -> Seq<
    (Seq<char>, Seq<char>),
> {
    Seq::new(tag_list.len(), |i: int| (tag_list[i], best_location(s, tag_list[i], now).0))
}

/// A signal-strength reading of a tag, heard at a location.
#[derive(Debug, Clone)]
pub struct RssiReport {
    pub location: String,
    pub mac_address: String,
    pub rssi: i8,
}

#[derive(Debug)]
struct Track {
    mac: String,
    location: String,
    readings: RollingVec<i8>,
}

/// Recent readings of every tag at every location that reported it.
#[derive(Debug)]
pub struct BluetoothTracker {
    tracks: Vec<Track>,
}

impl View for BluetoothTracker {
    type V = Seq<TrackModel>;

    closed spec fn view(&self) -> Seq<TrackModel> {
        Seq::new(
            self.tracks@.len(),
            |i: int| (self.tracks@[i].mac@, self.tracks@[i].location@, self.tracks@[i].readings@),
        )
    }
}

proof fn lemma_sum_bounds(s: Seq<i8>)
    ensures
        -128 * s.len() <= sum_of(s) <= 127 * s.len(),
    decreases s.len(),
{
    if s.len() > 0 {
        lemma_sum_bounds(s.drop_last());
    }
}

/// The average of the last readings, as `recent_average` states it.
fn average_recent(v: &Vec<i8>) -> (r: Option<i64>)
    ensures
        r matches Some(x) ==> recent_average(v@) == Some(x as int) && -128 <= x <= 127,
        r is None <==> recent_average(v@) is None,
{
    let n = v.len();
    let k: usize = if n < AVERAGED_READINGS {
        n
    } else {
        AVERAGED_READINGS
    };
    if k == 0 {
        return None;
    }
    let mut acc: i64 = 0;
    let mut i: usize = n - k;
    while i < n
        invariant
            n == v@.len(),
            1 <= k <= 3,
            k <= n,
            n - k <= i <= n,
            acc == sum_of(v@.subrange(n - k, i as int)),
        decreases n - i,
    {
        proof {
            let t = v@.subrange(n - k, i + 1);
            assert(t.drop_last() =~= v@.subrange(n - k, i as int));
            lemma_sum_bounds(v@.subrange(n - k, i as int));
        }
        acc = acc + v[i] as i64;
        i = i + 1;
    }
    proof {
        lemma_sum_bounds(v@.subrange(n - k, n as int));
    }
    let avg: i64 = if acc >= 0 {
        ((acc as u64) / (k as u64)) as i64
    } else {
        -((((-acc) as u64) / (k as u64)) as i64)
    };
    assert(-128 <= avg <= 127) by (nonlinear_arith)
        requires
            avg == trunc_div(acc as int, k as int),
            -128 * k <= acc <= 127 * k,
            1 <= k <= 3,
    ;
    Some(avg)
}

impl BluetoothTracker {
    pub fn new() -> (r: Self)
        ensures
            r@ == Seq::<TrackModel>::empty(),
            r.wf(),
    {
        let r = BluetoothTracker { tracks: Vec::new() };
        proof {
            assert(r@ =~= Seq::<TrackModel>::empty());
        }
        r
    }

    pub closed spec fn wf(&self) -> bool {
        &&& keys_unique(self@)
        &&& forall|i: int| 0 <= i < self.tracks@.len() ==> #[trigger] self.tracks@[i].readings.window() == READING_WINDOW_MS
    }

    fn position(&self, mac: &String, location: &String) -> (r: Option<usize>)
        ensures
            r matches Some(i) ==> i < self@.len() && self@[i as int].0 == mac@ && self@[i as int].1
                == location@,
            r is None ==> forall|j: int|
                0 <= j < self@.len() ==> !(self@[j].0 == mac@ && self@[j].1 == location@),
    {
        let mut i: usize = 0;
        while i < self.tracks.len()
            invariant
                i <= self.tracks@.len(),
                forall|j: int| 0 <= j < i ==> !(self@[j].0 == mac@ && self@[j].1 == location@),
            decreases self.tracks@.len() - i,
        {
            if self.tracks[i].mac == *mac && self.tracks[i].location == *location {
                return Some(i);
            }
            i = i + 1;
        }
        None
    }

    /// Adds a reading at `now` to the series of its tag and location.
    pub fn record(&mut self, report: &RssiReport, now: u64)
        requires
            old(self).wf(),
        ensures
            final(self).wf(),
            lookup(final(self)@, report.mac_address@, report.location@) == Some(
                match lookup(old(self)@, report.mac_address@, report.location@) {
                    Some(s) => s,
                    None => Seq::<(int, i8)>::empty(),
                }.push((now as int, report.rssi)),
            ),
            forall|m: Seq<char>, l: Seq<char>|
                !(m == report.mac_address@ && l == report.location@) ==> #[trigger] lookup(
                    final(self)@,
                    m,
                    l,
                ) == lookup(old(self)@, m, l),
    {
        let ghost before = self@;
        let found = self.position(&report.mac_address, &report.location);
        match found {
            Some(i) => {
                proof {
                    lemma_lookup_at(before, i as int);
                }
                self.tracks[i].readings.add(report.rssi, now);
                proof {
                    let x = (report.mac_address@, report.location@, before[i as int].2.push(
                        (now as int, report.rssi),
                    ));
                    assert(self@ =~= before.update(i as int, x));
                    assert forall|m: Seq<char>, l: Seq<char>| true implies #[trigger] lookup(
                        self@,
                        m,
                        l,
                    ) == (if x.0 == m && x.1 == l {
                        Some(x.2)
                    } else {
                        lookup(before, m, l)
                    }) by {
                        lemma_lookup_update(before, i as int, x, m, l);
                    }
                    assert forall|a: int, b: int|
                        0 <= a < self@.len() && 0 <= b < self@.len() && a != b implies !(self@[a].0
                        == self@[b].0 && self@[a].1 == self@[b].1) by {
                        assert(self@[a].0 == before[a].0 && self@[a].1 == before[a].1);
                        assert(self@[b].0 == before[b].0 && self@[b].1 == before[b].1);
                    }
                }
            },
            None => {
                proof {
                    lemma_lookup_absent(before, report.mac_address@, report.location@);
                }
                let mut readings = RollingVec::new(READING_WINDOW_MS);
                readings.add(report.rssi, now);
                self.tracks.push(
                    Track {
                        mac: report.mac_address.clone(),
                        location: report.location.clone(),
                        readings,
                    },
                );
                proof {
                    let x = (report.mac_address@, report.location@, seq![(now as int, report.rssi)]);
                    assert(Seq::<(int, i8)>::empty().push((now as int, report.rssi)) =~= x.2);
                    assert(self@ =~= before.push(x));
                    assert forall|m: Seq<char>, l: Seq<char>| true implies #[trigger] lookup(
                        self@,
                        m,
                        l,
                    ) == (if x.0 == m && x.1 == l {
                        Some(x.2)
                    } else {
                        lookup(before, m, l)
                    }) by {
                        lemma_lookup_push(before, x, m, l);
                    }
                    assert forall|a: int, b: int|
                        0 <= a < self@.len() && 0 <= b < self@.len() && a != b implies !(self@[a].0
                        == self@[b].0 && self@[a].1 == self@[b].1) by {
                        if a < before.len() {
                            assert(self@[a] == before[a]);
                        }
                        if b < before.len() {
                            assert(self@[b] == before[b]);
                        }
                    }
                }
            },
        }
    }

    /// The best location of `mac` at `now`, and its average.
    fn best_for(&self, mac: &String, now: u64) -> (r: (String, i64))
        requires
            self.wf(),
        ensures
            r.0@ == best_location(self@, mac@, now as int).0,
            r.1 == best_location(self@, mac@, now as int).1,
    {
        let ghost s = self@;
        let mut best_loc = String::from_str(UNKNOWN_LOCATION);
        let mut best_val: i64 = i8::MIN as i64;
        let mut j: usize = 0;
        while j < self.tracks.len()
            invariant
                self.wf(),
                s == self@,
                j <= self.tracks@.len(),
                best_loc@ == best_location(s.subrange(0, j as int), mac@, now as int).0,
                best_val == best_location(s.subrange(0, j as int), mac@, now as int).1,
            decreases self.tracks@.len() - j,
        {
            let t = &self.tracks[j];
            proof {
                let u = s.subrange(0, j + 1);
                assert(u.drop_last() =~= s.subrange(0, j as int));
                assert(u.last() == s[j as int]);
                assert(t.readings.window() == READING_WINDOW_MS);
            }
            let vals = t.readings.fresh_values(now);
            let avg = average_recent(&vals);
            match avg {
                Some(a) => {
                    if t.mac == *mac && a > best_val {
                        best_loc = t.location.clone();
                        best_val = a;
                    }
                },
                None => {},
            }
            j = j + 1;
        }
        proof {
            assert(s.subrange(0, s.len() as int) =~= s);
        }
        (best_loc, best_val)
    }

    /// Every tag with the location of its strongest recent readings; a tag
    /// with no reading in the window is placed at an unknown location.
    pub fn locate(&self, now: u64) -> (r: Vec<(String, String)>)
        requires
            self.wf(),
        ensures
            r@.len() == tags(self@).len(),
            forall|i: int|
                0 <= i < r@.len() ==> (#[trigger] r@[i]).0@ == placements(self@, tags(self@), now as int)[i].0
                    && r@[i].1@ == placements(self@, tags(self@), now as int)[i].1,
    {
        let ghost s = self@;
        let mut seen: Vec<String> = Vec::new();
        let mut out: Vec<(String, String)> = Vec::new();
        let mut i: usize = 0;
        while i < self.tracks.len()
            invariant
                self.wf(),
                s == self@,
                i <= self.tracks@.len(),
                seen@.len() == out@.len(),
                Seq::new(seen@.len(), |k: int| seen@[k]@) == tags(s.subrange(0, i as int)),
                forall|k: int|
                    0 <= k < out@.len() ==> (#[trigger] out@[k]).0@ == seen@[k]@ && out@[k].1@
                        == best_location(s, seen@[k]@, now as int).0,
            decreases self.tracks@.len() - i,
        {
            let mac = self.tracks[i].mac.clone();
            let ghost pre = s.subrange(0, i as int);
            let ghost seen_v = Seq::new(seen@.len(), |k: int| seen@[k]@);
            proof {
                let u = s.subrange(0, i + 1);
                assert(u.drop_last() =~= pre);
                assert(u.last().0 == mac@);
            }
            let known = contains_str(&seen, &mac);
            proof {
                assert(strs_view(seen@) =~= seen_v);
            }
            if !known {
                let (loc, _) = self.best_for(&mac, now);
                let ghost prev_seen = seen@;
                let ghost prev_out = out@;
                seen.push(mac.clone());
                out.push((mac, loc));
                proof {
                    assert(Seq::new(seen@.len(), |q: int| seen@[q]@) =~= seen_v.push(mac@));
                    assert forall|q: int| 0 <= q < out@.len() implies (#[trigger] out@[q]).0@
                        == seen@[q]@ && out@[q].1@ == best_location(s, seen@[q]@, now as int).0 by {
                        if q < prev_out.len() {
                            assert(out@[q] == prev_out[q]);
                            assert(seen@[q] == prev_seen[q]);
                        }
                    }
                }
            }
            i = i + 1;
        }
        proof {
            assert(s.subrange(0, s.len() as int) =~= s);
            let tl = tags(s);
            assert forall|q: int| 0 <= q < out@.len() implies (#[trigger] out@[q]).0@ == placements(
                s,
                tl,
                now as int,
            )[q].0 && out@[q].1@ == placements(s, tl, now as int)[q].1 by {
                assert(tl[q] == seen@[q]@);
            }
        }
        out
    }
}

/// The name of the device reporting the signal strength of `mac` at
/// `location`: `{location} {plugin} {mac}`.
pub open spec fn rssi_device_name(location: Seq<char>, plugin: Seq<char>, mac: Seq<char>) -> Seq<char> {
    location + " "@ + plugin + " "@ + mac
}

/// The name of the cluster-wide device placing `mac`: `{plugin} {mac} Location`.
pub open spec fn location_device_name(plugin: Seq<char>, mac: Seq<char>) -> Seq<char> {
    plugin + " "@ + mac + " Location"@
}

/// The device that reports the signal strength of a tag at this node:
/// the one registered under its name, else a new signal-strength sensor in
/// dBm, registered now. Also tells whether its discovery metadata must be
/// published.
pub fn rssi_device(registry: &mut DeviceRegistry, plugin: &str, mac: &str) -> (r: (Device, bool))
    requires
        old(registry).wf(),
    ensures
        final(registry).wf(),
        ({
            let name = rssi_device_name(old(registry)@.location, plugin@, mac@);
            if old(registry)@.by_name.contains_key(name) {
                &&& r.0@ == old(registry)@.by_name[name]
                &&& !r.1
                &&& final(registry)@ == old(registry)@
            } else {
                let d = DeviceModel {
                    id: normalized(name),
                    display_name: name,
                    typ: DeviceType::Sensor(SensorDeviceClass::SignalStrength),
                    cluster_wide: false,
                    location: old(registry)@.location,
                    plugin: plugin@,
                    base_topic: old(registry)@.base_topic,
                    unit_of_measurement: Some("dBm"@),
                };
                &&& r.0@ == d
                &&& r.1 == old(registry)@.publishes(d)
                &&& final(registry)@ == old(registry)@.register(d)
            }
        }),
{
    let mut name = registry.location();
    name.append(" ");
    name.append(plugin);
    name.append(" ");
    name.append(mac);
    match registry.get_by_name(name.as_str()) {
        Some(d) => (d, false),
        None => {
            let d = registry.new_device(
                name,
                DeviceType::Sensor(SensorDeviceClass::SignalStrength),
                String::from_str(plugin),
            ).with_unit_of_measurement(String::from_str("dBm")).build();
            let copy = d.clone();
            let publish = registry.register(d);
            (copy, publish)
        },
    }
}

/// The cluster-wide device that tells where a tag is: the one registered
/// under its name, else a new one, registered now. Also tells whether its
/// discovery metadata must be published.
pub fn location_device(registry: &mut DeviceRegistry, plugin: &str, mac: &str) -> (r: (Device, bool))
    requires
        old(registry).wf(),
    ensures
        final(registry).wf(),
        ({
            let name = location_device_name(plugin@, mac@);
            if old(registry)@.by_name.contains_key(name) {
                &&& r.0@ == old(registry)@.by_name[name]
                &&& !r.1
                &&& final(registry)@ == old(registry)@
            } else {
                let d = DeviceModel {
                    id: normalized(name),
                    display_name: name,
                    typ: DeviceType::Sensor(SensorDeviceClass::Unclassified),
                    cluster_wide: true,
                    location: old(registry)@.location,
                    plugin: plugin@,
                    base_topic: old(registry)@.base_topic,
                    unit_of_measurement: None,
                };
                &&& r.0@ == d
                &&& r.1 == old(registry)@.publishes(d)
                &&& final(registry)@ == old(registry)@.register(d)
            }
        }),
{
    let mut name = String::from_str(plugin);
    name.append(" ");
    name.append(mac);
    name.append(" Location");
    match registry.get_by_name(name.as_str()) {
        Some(d) => (d, false),
        None => {
            let d = registry.new_device(
                name,
                DeviceType::Sensor(SensorDeviceClass::Unclassified),
                String::from_str(plugin),
            ).into_cluster_device().build();
            let copy = d.clone();
            let publish = registry.register(d);
            (copy, publish)
        },
    }
}

} // verus!
