//! Scheduling rules of supervised services: a service runs first after one
//! period unless it starts immediately; a repeating service then runs once
//! per period forever, optionally perturbed by up to a second either way,
//! while a one-shot service runs that single time. Failures never stop a
//! repeating service.
use rand::Rng;
use vstd::prelude::*;
use vstd::string::*;

verus! {

/// Period of the global heartbeat, in milliseconds.
pub const HEARTBEAT_MS: u64 = 10_000;

/// Period of the discovery republication, in milliseconds.
pub const REGISTRY_REFRESH_MS: u64 = 120_000;

/// Jitter draws fall in `0..JITTER_SPAN_MS` and are centred on zero.
pub const JITTER_SPAN_MS: u64 = 2_000;

pub const JITTER_OFFSET_MS: u64 = 1_000;

/// Relies on rand 0.8's `gen_range` on the thread generator: a value in
/// `0..n`; the range is not empty.
#[verifier::external_body]
fn random_below(n: u64) -> (r: u64)
    requires
        n > 0,
    ensures
        r < n,
{
    rand::thread_rng().gen_range(0..n)
}

/// The delay before the next run, after a jitter draw of `draw`
/// milliseconds, kept within the range of `u64`.
pub open spec fn delay_after(duration_ms: u64, add_jitter: bool, draw: u64) -> int {
    if add_jitter {
        let d = duration_ms + draw - JITTER_OFFSET_MS;
        if d < 0 {
            0
        } else if d > u64::MAX {
            u64::MAX as int
        } else {
            d
        }
    } else {
        duration_ms as int
    }
}

/// How a service is scheduled.
#[derive(Debug, Clone)]
pub struct ServiceData {
    pub name: String,
    pub start_immediately: bool,
    pub add_jitter: bool,
    pub duration_ms: u64,
    /// Runs a single time instead of once per period.
    pub run_once: bool,
}

fn string_of(s: &str) -> (r: String)
    ensures
        r@ == s@,
{
    String::from_str(s)
}

impl ServiceData {
    /// A repeating service.
    pub fn new(name: String, duration_ms: u64, start_immediately: bool, add_jitter: bool) -> (r: Self)
        ensures
            r.name@ == name@,
            r.duration_ms == duration_ms,
            r.start_immediately == start_immediately,
            r.add_jitter == add_jitter,
            !r.run_once,
    {
        ServiceData { name, start_immediately, add_jitter, duration_ms, run_once: false }
    }

    /// A service that runs a single time: at once, or after `duration_ms`.
    pub fn one_shot(name: String, duration_ms: u64, start_immediately: bool) -> (r: Self)
        ensures
            r.name@ == name@,
            r.duration_ms == duration_ms,
            r.start_immediately == start_immediately,
            !r.add_jitter,
            r.run_once,
    {
        ServiceData { name, start_immediately, add_jitter: false, duration_ms, run_once: true }
    }

    /// Delay before the first run: none when starting immediately, else one period.
    pub fn initial_delay_ms(&self) -> (r: u64)
        ensures
            r == (if self.start_immediately {
                0
            } else {
                self.duration_ms
            }),
    {
        if self.start_immediately {
            0
        } else {
            self.duration_ms
        }
    }

    /// Delay before the next run, given a jitter draw in milliseconds; the
    /// outcome of the last run plays no part.
    pub fn delay_with_draw(&self, draw: u64) -> (r: u64)
        ensures
            r == delay_after(self.duration_ms, self.add_jitter, draw),
    {
        if self.add_jitter {
            let d = (self.duration_ms as u128) + (draw as u128);
            if d < JITTER_OFFSET_MS as u128 {
                0
            } else if d - (JITTER_OFFSET_MS as u128) > u64::MAX as u128 {
                u64::MAX
            } else {
                (d - (JITTER_OFFSET_MS as u128)) as u64
            }
        } else {
            self.duration_ms
        }
    }

    /// Delay before the next run: one period, or with jitter one period
    /// plus a random offset of less than a second either way.
    pub fn next_delay_ms(&self) -> (r: u64)
        ensures
            !self.add_jitter ==> r == self.duration_ms,
            self.add_jitter ==> exists|draw: u64|
                draw < JITTER_SPAN_MS && r == delay_after(self.duration_ms, true, draw),
    {
        if self.add_jitter {
            let draw = random_below(JITTER_SPAN_MS);
            self.delay_with_draw(draw)
        } else {
            self.duration_ms
        }
    }

    /// The global heartbeat: every ten seconds with jitter, after one period.
    pub fn heartbeat_service() -> (r: Self)
        ensures
            r.name@ == "MQTT Heartbeat"@,
            r.duration_ms == HEARTBEAT_MS,
            !r.start_immediately,
            r.add_jitter,
            !r.run_once,
    {
        ServiceData::new(string_of("MQTT Heartbeat"), HEARTBEAT_MS, false, true)
    }

    /// A plugin's heartbeat: on the global cadence, every ten seconds with
    /// jitter, after one period.
    pub fn plugin_heartbeat_service(plugin: &str) -> (r: Self)
        ensures
            r.name@ == plugin@ + " Plugin Heartbeat"@,
            r.duration_ms == HEARTBEAT_MS,
            !r.start_immediately,
            r.add_jitter,
            !r.run_once,
    {
        let mut name = string_of(plugin);
        name.append(" Plugin Heartbeat");
        ServiceData::new(name, HEARTBEAT_MS, false, true)
    }

    /// The transport's receive loop: started at once, restarted ten seconds
    /// after it ends.
    pub fn transport_service() -> (r: Self)
        ensures
            r.name@ == "MQTT"@,
            r.duration_ms == HEARTBEAT_MS,
            r.start_immediately,
            !r.add_jitter,
            !r.run_once,
    {
        ServiceData::new(string_of("MQTT"), HEARTBEAT_MS, true, false)
    }

    /// Republication of all discovery metadata every two minutes.
    pub fn registry_service() -> (r: Self)
        ensures
            r.name@ == "Device Registry"@,
            r.duration_ms == REGISTRY_REFRESH_MS,
            !r.start_immediately,
            !r.add_jitter,
            !r.run_once,
    {
        ServiceData::new(string_of("Device Registry"), REGISTRY_REFRESH_MS, false, false)
    }
}

/// With jitter every delay stays within a second of the period.
pub proof fn lemma_jitter_bounded(duration_ms: u64, draw: u64)
    requires
        draw < JITTER_SPAN_MS,
        JITTER_OFFSET_MS <= duration_ms <= u64::MAX - JITTER_SPAN_MS,
    ensures
        duration_ms - JITTER_OFFSET_MS <= delay_after(duration_ms, true, draw) < duration_ms
            + JITTER_OFFSET_MS,
{
}

} // verus!
