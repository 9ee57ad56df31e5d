//! Low-battery alerts: an alert when the charge falls to the threshold (or a
//! charger is unplugged at or below it), re-armed only once the charge has
//! risen above the re-arm level three points higher.

use vstd::prelude::*;

verus! {

/// Where a charge lies against the configured threshold and the re-arm
/// level three points above it (at most 100). The re-arm level is never
/// below the threshold, so a charge above it is above the threshold too.
#[derive(Clone, Copy, Debug, PartialEq, Eq, Structural)]
pub enum ChargeLevel {
    /// At or below the threshold.
    AtOrBelowThreshold,
    /// Above the threshold, at or below the re-arm level.
    AboveThreshold,
    /// Above the re-arm level.
    AboveRearm,
}

/// One battery sample: its charge level and whether it is discharging.
#[derive(Clone, Copy, Debug, PartialEq, Eq, Structural)]
pub struct BatteryObservation {
    pub level: ChargeLevel,
    /// The battery is discharging (or its state is empty or unknown).
    pub discharging: bool,
}

impl BatteryObservation {
    /// The charge is above the threshold.
    pub open spec fn above_threshold(self) -> bool {
        self.level != ChargeLevel::AtOrBelowThreshold
    }

    /// The charge is above the re-arm level.
    pub open spec fn above_rearm(self) -> bool {
        self.level == ChargeLevel::AboveRearm
    }
}

/// The low-battery latch and the previous sample.
#[derive(Clone, Copy, Debug, PartialEq, Eq, Structural)]
pub struct BatteryAlarm {
    pub armed: bool,
    pub previous: Option<BatteryObservation>,
}

/// The sample crossed into the low state since the previous one: the charge
/// fell to the threshold, or discharging started at or below it.
pub open spec fn crossed_low(previous: Option<BatteryObservation>, current: BatteryObservation) -> bool {
    match previous {
        None => false,
        Some(last) => (last.above_threshold() && !current.above_threshold())
            || (!last.discharging && current.discharging && !current.above_threshold()),
    }
}

/// Whether a sample sends an alert from alarm state `a`.
pub open spec fn battery_alerts(a: BatteryAlarm, current: BatteryObservation) -> bool {
    (a.armed || current.above_rearm()) && crossed_low(a.previous, current) && current.discharging
}

/// The alarm after a sample whose alert, if any, was delivered.
pub open spec fn battery_transition(a: BatteryAlarm, current: BatteryObservation) -> BatteryAlarm {
    BatteryAlarm {
        armed: (a.armed || current.above_rearm()) && !battery_alerts(a, current),
        previous: Some(current),
    }
}

impl BatteryAlarm {
    /// An armed alarm that has seen no sample.
    pub fn new() -> (a: Self)
        ensures
            a.armed,
            a.previous is None,
    {
        BatteryAlarm { armed: true, previous: None }
    }

    /// Feeds one sample; returns whether to send a low-battery alert. The
    /// alarm disarms when it alerts.
    pub fn step(&mut self, current: BatteryObservation) -> (alert: bool)
        ensures
            alert == battery_alerts(*old(self), current),
            *final(self) == battery_transition(*old(self), current),
    {
        if current.level == ChargeLevel::AboveRearm {
            self.armed = true;
        }
        let crossed = match self.previous {
            None => false,
            Some(last) => {
                let last_above = last.level != ChargeLevel::AtOrBelowThreshold;
                let now_above = current.level != ChargeLevel::AtOrBelowThreshold;
                (last_above && !now_above) || (!last.discharging && current.discharging && !now_above)
            },
        };
        let alert = self.armed && crossed && current.discharging;
        if alert {
            self.armed = false;
        }
        self.previous = Some(current);
        alert
    }
}

/// Law: after an alert, no further alert comes until a sample above the
/// re-arm level has been seen.
pub proof fn law_one_alert_until_rearmed(a: BatteryAlarm, first: BatteryObservation, second: BatteryObservation)
    requires
        battery_alerts(a, first),
        !second.above_rearm(),
    ensures
        !battery_alerts(battery_transition(a, first), second),
{
}

/// Law: the first sample never alerts, since nothing was crossed yet.
pub proof fn law_first_sample_is_silent(current: BatteryObservation)
    ensures
        !battery_alerts(BatteryAlarm { armed: true, previous: None }, current),
{
}

/// Law: an alert is sent exactly when the alarm is
/// armed, a previous sample exists, the battery discharges at or below the
/// threshold, and the previous sample was above the threshold or not
/// discharging; the alarm then disarms, a sample above the re-arm level
/// re-arms it, and nothing else changes whether it is armed.
pub proof fn law_alert_rule(a: BatteryAlarm, current: BatteryObservation)
    ensures
        battery_alerts(a, current) == (a.armed && a.previous is Some && current.discharging
            && !current.above_threshold() && (a.previous->Some_0.above_threshold()
            || !a.previous->Some_0.discharging)),
        battery_transition(a, current).armed == ((a.armed || current.above_rearm()) && !battery_alerts(a, current)),
        battery_transition(a, current).previous == Some(current),
{
}

/// The alarm after feeding `samples` in order to a new alarm.
pub open spec fn alarm_after(samples: Seq<BatteryObservation>) -> BatteryAlarm
    decreases samples.len(),
{
    if samples.len() == 0 {
        BatteryAlarm { armed: true, previous: None }
    } else {
        battery_transition(alarm_after(samples.drop_last()), samples.last())
    }
}

/// Law: over any run of samples from a new alarm, sample `i`
/// alerts exactly when the alarm is armed before it, `i > 0`, the battery
/// discharges at or below the threshold, and sample `i - 1` was above the
/// threshold or not discharging; the alarm starts armed, and after sample `i`
/// it is armed exactly when it was armed or the sample was above the re-arm
/// level, and the sample sent no alert.
pub proof fn law_alert_sequence(samples: Seq<BatteryObservation>, i: int)
    requires
        0 <= i < samples.len(),
    ensures
        alarm_after(samples.take(0)).armed,
        battery_alerts(alarm_after(samples.take(i)), samples[i]) == (alarm_after(samples.take(i)).armed && i > 0
            && samples[i].discharging && !samples[i].above_threshold() && (samples[i - 1].above_threshold()
            || !samples[i - 1].discharging)),
        alarm_after(samples.take(i + 1)).armed == ((alarm_after(samples.take(i)).armed || samples[i].above_rearm())
            && !battery_alerts(alarm_after(samples.take(i)), samples[i])),
{
    assert(samples.take(0) =~= Seq::<BatteryObservation>::empty());
    let before = alarm_after(samples.take(i));
    if i > 0 {
        assert(samples.take(i).drop_last() =~= samples.take(i - 1));
        assert(samples.take(i).last() == samples[i - 1]);
        assert(before.previous == Some(samples[i - 1]));
    } else {
        assert(samples.take(i) =~= Seq::<BatteryObservation>::empty());
        assert(before.previous is None);
    }
    law_alert_rule(before, samples[i]);
    assert(samples.take(i + 1).drop_last() =~= samples.take(i));
    assert(samples.take(i + 1).last() == samples[i]);
}

} // verus!
