//! Triggers decide when a plugin's main workload runs: once near startup, or
//! on a fixed period without jitter.
use crate::config::TriggerConfiguration;
use crate::supervisor::ServiceData;
use vstd::prelude::*;
use vstd::string::*;

verus! {

/// Period recorded for the startup trigger, in milliseconds; it starts at
/// once and runs a single time, so no delay is taken.
pub const STARTUP_DELAY_MS: u64 = 2_000;

/// Runs the plugin every `interval` seconds.
#[derive(Debug, Clone)]
pub struct IntervalTrigger {
    interval: u64,
}

/// Runs the plugin once, right after startup; a plugin that wants more runs
/// re-triggers itself.
#[derive(Debug, Clone, Default)]
pub struct OnStartTrigger {}

/// Why a configuration cannot be started.
#[derive(Debug, Clone, Copy, PartialEq, Eq, Structural)]
pub enum ConfigError {
    /// A trigger kind that has no implementation.
    UnsupportedTrigger,
}

/// `interval` seconds in milliseconds, or the largest `u64` if that overflows.
pub open spec fn interval_ms(interval: u64) -> u64 {
    if interval * 1000 <= u64::MAX {
        (interval * 1000) as u64
    } else {
        u64::MAX
    }
}

fn string_of(s: &str) -> (r: String)
    ensures
        r@ == s@,
{
    String::from_str(s)
}

impl IntervalTrigger {
    pub fn new(interval: u64) -> (r: Self)
        ensures
            r.interval() == interval,
    {
        IntervalTrigger { interval }
    }

    pub closed spec fn interval(&self) -> u64 {
        self.interval
    }

    /// The service that runs the plugin: every period, first after one
    /// period, without jitter.
    pub fn init(&self, plugin: &str) -> (r: ServiceData)
        ensures
            r.name@ == plugin@,
            r.duration_ms == interval_ms(self.interval()),
            !r.start_immediately,
            !r.add_jitter,
            !r.run_once,
    {
        let ms = match self.interval.checked_mul(1000) {
            Some(v) => v,
            None => u64::MAX,
        };
        ServiceData::new(string_of(plugin), ms, false, false)
    }
}

impl OnStartTrigger {
    pub fn new() -> (r: Self) {
        OnStartTrigger {}
    }

    /// The service that runs the plugin near startup: a single run, at once.
    pub fn init(&self, plugin: &str) -> (r: ServiceData)
        ensures
            r.name@ == "Startup trigger for "@ + plugin@,
            r.duration_ms == STARTUP_DELAY_MS,
            r.start_immediately,
            !r.add_jitter,
            r.run_once,
    {
        let mut name = string_of("Startup trigger for ");
        name.append(plugin);
        ServiceData::one_shot(name, STARTUP_DELAY_MS, true)
    }
}

/// The trigger of a plugin, one of a closed set.
#[derive(Debug, Clone)]
pub enum Triggers {
    Interval(IntervalTrigger),
    OnStart(OnStartTrigger),
    MQTT(IntervalTrigger),
}

impl Triggers {
    /// The trigger a configuration asks for; topic triggers have no
    /// implementation and are refused.
    pub fn new(cfg: &TriggerConfiguration) -> (r: Result<Self, ConfigError>)
        ensures
            match cfg {
                TriggerConfiguration::Interval { interval } => r matches Ok(Triggers::Interval(t))
                    && t.interval() == interval,
                TriggerConfiguration::Start { .. } => r matches Ok(Triggers::OnStart(_)),
                TriggerConfiguration::MQTT { .. } => r == Err::<Triggers, ConfigError>(
                    ConfigError::UnsupportedTrigger,
                ),
            },
    {
        match cfg {
            TriggerConfiguration::Interval { interval } => Ok(
                Triggers::Interval(IntervalTrigger::new(*interval)),
            ),
            TriggerConfiguration::MQTT { .. } => Err(ConfigError::UnsupportedTrigger),
            TriggerConfiguration::Start { .. } => Ok(Triggers::OnStart(OnStartTrigger::new())),
        }
    }

    /// How the plugin's main workload is scheduled.
    pub fn init(&self, plugin: &str) -> (r: ServiceData)
        ensures
            match self {
                Triggers::Interval(t) => r.name@ == plugin@ && r.duration_ms == interval_ms(
                    t.interval(),
                ) && !r.start_immediately && !r.add_jitter && !r.run_once,
                Triggers::MQTT(t) => r.name@ == plugin@ && r.duration_ms == interval_ms(t.interval())
                    && !r.start_immediately && !r.add_jitter && !r.run_once,
                Triggers::OnStart(_) => r.name@ == "Startup trigger for "@ + plugin@ && r.duration_ms
                    == STARTUP_DELAY_MS && r.start_immediately && !r.add_jitter && r.run_once,
            },
    {
        match self {
            Triggers::Interval(trigger) => trigger.init(plugin),
            Triggers::MQTT(trigger) => trigger.init(plugin),
            Triggers::OnStart(trigger) => trigger.init(plugin),
        }
    }
}

} // verus!
