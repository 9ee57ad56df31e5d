//! Temperature alerts: a latch that needs two consecutive hot samples, the
//! back-off of the NVIDIA driver probe, and the sensor name shown.

use vstd::prelude::*;
use crate::text::{owned, trim, trimmed};

verus! {

/// How long, in nanoseconds, a failed `nvidia-smi` probe is remembered
/// before trying again: five minutes.
pub const NVIDIA_RETRY_INTERVAL_NS: u64 = 300_000_000_000;

/// Remembers whether the NVIDIA driver produced a usable reading, so that a
/// machine without it pays for a failed probe only once per retry interval.
#[derive(Clone, Copy, Debug, PartialEq, Eq, Structural)]
pub struct NvidiaAvailability {
    pub usable: Option<bool>,
    /// When the last probe failed, in nanoseconds on the detector's clock.
    pub last_failed: Option<u64>,
}

impl Default for NvidiaAvailability {
    fn default() -> (a: Self)
        ensures
            a.usable is None,
            a.last_failed is None,
    {
        NvidiaAvailability { usable: None, last_failed: None }
    }
}

/// Whether a probe is due at `now`: always until a probe has failed, then
/// only once the retry interval has passed since that failure.
pub open spec fn probe_due(a: NvidiaAvailability, now: u64) -> bool {
    match a.usable {
        Some(true) | None => true,
        Some(false) => match a.last_failed {
            Some(at) => (if now >= at { now - at } else { 0 }) >= NVIDIA_RETRY_INTERVAL_NS,
            None => false,
        },
    }
}

impl NvidiaAvailability {
    /// Whether to run the probe at `now`.
    pub fn should_probe(&self, now: u64) -> (due: bool)
        ensures
            due == probe_due(*self, now),
    {
        match self.usable {
            Some(true) | None => true,
            Some(false) => match self.last_failed {
                Some(at) => {
                    let since = if now >= at { now - at } else { 0 };
                    since >= NVIDIA_RETRY_INTERVAL_NS
                },
                None => false,
            },
        }
    }

    /// Records the outcome of a probe made at `now`.
    pub fn record(&mut self, usable: bool, now: u64)
        ensures
            final(self).usable == Some(usable),
            final(self).last_failed == if usable { None } else { Some(now) },
    {
        self.usable = Some(usable);
        self.last_failed = if usable { None } else { Some(now) };
    }
}

/// Law: after a failed probe at `at`, the probe is not due again until the
/// retry interval has passed; after a successful probe it is always due.
pub proof fn law_probe_backoff(at: u64, now: u64)
    ensures
        now >= at ==> (probe_due(NvidiaAvailability { usable: Some(false), last_failed: Some(at) }, now)
            <==> now - at >= NVIDIA_RETRY_INTERVAL_NS),
        probe_due(NvidiaAvailability { usable: Some(true), last_failed: None }, now),
{
}

/// One reading of the hottest sensor, compared with the configured threshold
/// (at or above it) and with the re-arm level five degrees below it (at or
/// below that).
#[derive(Clone, Copy, Debug, PartialEq, Eq, Structural)]
pub struct ThermalReading {
    pub at_or_above_threshold: bool,
    pub at_or_below_rearm: bool,
}

/// What one temperature sample leads to.
#[derive(Clone, Copy, Debug, PartialEq, Eq, Structural)]
pub struct TemperatureStep {
    /// Send an overheating alert.
    pub alert: bool,
    /// Report once that no readable sensor exists.
    pub report_unavailable: bool,
}

/// The overheating detector's latch: an alert needs two consecutive hot
/// samples and is not repeated until the temperature falls to the re-arm level.
#[derive(Clone, Copy, Debug, PartialEq, Eq, Structural)]
pub struct TemperatureAlarm {
    pub latched: bool,
    pub consecutive_hot_samples: u8,
    pub warned_unavailable: bool,
}

/// The alarm after a sample, and what the sample leads to.
pub open spec fn temperature_transition(a: TemperatureAlarm, reading: Option<ThermalReading>) -> (TemperatureAlarm, TemperatureStep) {
    match reading {
        None => (
            TemperatureAlarm { consecutive_hot_samples: 0, warned_unavailable: true, ..a },
            TemperatureStep { alert: false, report_unavailable: !a.warned_unavailable },
        ),
        Some(r) => if r.at_or_above_threshold {
            let hot: u8 = if a.consecutive_hot_samples == u8::MAX { u8::MAX } else { (a.consecutive_hot_samples + 1) as u8 };
            let alert = !a.latched && hot >= 2;
            (
                TemperatureAlarm { latched: a.latched || alert, consecutive_hot_samples: hot, warned_unavailable: false },
                TemperatureStep { alert, report_unavailable: false },
            )
        } else {
            (
                TemperatureAlarm {
                    latched: a.latched && !r.at_or_below_rearm,
                    consecutive_hot_samples: 0,
                    warned_unavailable: false,
                },
                TemperatureStep { alert: false, report_unavailable: false },
            )
        },
    }
}

impl TemperatureAlarm {
    /// An armed alarm that has seen no sample.
    pub fn new() -> (a: Self)
        ensures
            !a.latched,
            a.consecutive_hot_samples == 0,
            !a.warned_unavailable,
    {
        TemperatureAlarm { latched: false, consecutive_hot_samples: 0, warned_unavailable: false }
    }

    /// Feeds one sample (`None` when no sensor could be read).
    pub fn step(&mut self, reading: Option<ThermalReading>) -> (step: TemperatureStep)
        ensures
            (*final(self), step) == temperature_transition(*old(self), reading),
    {
        match reading {
            None => {
                self.consecutive_hot_samples = 0;
                let report = !self.warned_unavailable;
                self.warned_unavailable = true;
                TemperatureStep { alert: false, report_unavailable: report }
            },
            Some(r) => {
                self.warned_unavailable = false;
                if r.at_or_above_threshold {
                    self.consecutive_hot_samples = self.consecutive_hot_samples.saturating_add(1);
                    let alert = !self.latched && self.consecutive_hot_samples >= 2;
                    if alert {
                        self.latched = true;
                    }
                    TemperatureStep { alert, report_unavailable: false }
                } else {
                    self.consecutive_hot_samples = 0;
                    if r.at_or_below_rearm {
                        self.latched = false;
                    }
                    TemperatureStep { alert: false, report_unavailable: false }
                }
            },
        }
    }
}

/// Law: an alert needs the previous sample to have been hot as well; a
/// missing sensor never alerts (it is reported as unavailable, not as a
/// reading); and after an alert no further alert comes until a sample at or
/// below the re-arm level.
pub proof fn law_alert_needs_two_hot_samples(a: TemperatureAlarm, r: Option<ThermalReading>, r2: Option<ThermalReading>)
    ensures
        temperature_transition(a, r).1.alert ==> a.consecutive_hot_samples >= 1 && !a.latched,
        !temperature_transition(a, None).1.alert,
        temperature_transition(a, r).1.alert ==> !temperature_transition(temperature_transition(a, r).0, r2).1.alert,
        temperature_transition(a, r).1.alert && !(r2 matches Some(x) && !x.at_or_above_threshold && x.at_or_below_rearm)
            ==> temperature_transition(temperature_transition(a, r).0, r2).0.latched,
{
}

/// The alarm after feeding `readings` in order to a new alarm.
pub open spec fn thermal_after(readings: Seq<Option<ThermalReading>>) -> TemperatureAlarm
    decreases readings.len(),
{
    if readings.len() == 0 {
        TemperatureAlarm { latched: false, consecutive_hot_samples: 0, warned_unavailable: false }
    } else {
        temperature_transition(thermal_after(readings.drop_last()), readings.last()).0
    }
}

/// A reading at or above the threshold.
pub open spec fn is_hot(reading: Option<ThermalReading>) -> bool {
    reading matches Some(r) && r.at_or_above_threshold
}

/// How many readings at the end of `readings` are at or above the threshold
/// in a row.
pub open spec fn hot_run(readings: Seq<Option<ThermalReading>>) -> nat
    decreases readings.len(),
{
    if readings.len() > 0 && is_hot(readings.last()) { hot_run(readings.drop_last()) + 1 } else { 0 }
}

proof fn lemma_hot_count(readings: Seq<Option<ThermalReading>>)
    ensures
        thermal_after(readings).consecutive_hot_samples == (if hot_run(readings) > 255 { 255 } else {
            hot_run(readings)
        }),
    decreases readings.len(),
{
    if readings.len() > 0 {
        lemma_hot_count(readings.drop_last());
    }
}

/// Law: over any run of readings from a new alarm (which starts unlatched),
/// reading `i` alerts exactly when it is at or above the threshold, it ends a
/// run of at least two such readings in a row, and the alarm is not latched
/// before it; a missing reading never alerts and breaks the run. After reading
/// `i` the alarm is latched exactly when that reading alerted, or it was
/// latched and the reading was not a cool one at or below the re-arm level.
pub proof fn law_alert_sequence(readings: Seq<Option<ThermalReading>>, i: int)
    requires
        0 <= i < readings.len(),
    ensures
        !thermal_after(readings.take(0)).latched,
        temperature_transition(thermal_after(readings.take(i)), readings[i]).1.alert == (is_hot(readings[i])
            && hot_run(readings.take(i + 1)) >= 2 && !thermal_after(readings.take(i)).latched),
        readings[i] is None ==> !temperature_transition(thermal_after(readings.take(i)), readings[i]).1.alert
            && hot_run(readings.take(i + 1)) == 0,
        thermal_after(readings.take(i + 1)).latched == (temperature_transition(
            thermal_after(readings.take(i)),
            readings[i],
        ).1.alert || (thermal_after(readings.take(i)).latched && !(readings[i] matches Some(r)
            && !r.at_or_above_threshold && r.at_or_below_rearm))),
{
    assert(readings.take(0) =~= Seq::<Option<ThermalReading>>::empty());
    let s = readings.take(i + 1);
    assert(s.drop_last() =~= readings.take(i));
    assert(s.last() == readings[i]);
    lemma_hot_count(readings.take(i));
}

/// The sensor named in an alert: its trimmed label, or a generic name.
pub open spec fn sensor_display_name(label: Seq<char>) -> Seq<char> {
    if trimmed(label).len() == 0 { "System sensor"@ } else { trimmed(label) }
}

/// Returns the name under which a sensor is shown.
pub fn sensor_name(label: &str) -> (name: String)
    ensures
        name@ == sensor_display_name(label@),
{
    let t = trim(label);
    if t.is_empty() { owned("System sensor") } else { owned(t) }
}

} // verus!
