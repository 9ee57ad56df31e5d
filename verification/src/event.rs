//! The alert contract shared by every detector and the HUD.

use vstd::prelude::*;
use crate::text::{owned, str_equal};

verus! {

/// The kind of condition an alert reports.
#[derive(Clone, Copy, Debug, PartialEq, Eq, Structural)]
pub enum IonSenseEventType {
    BatteryLow,
    Overheating,
    DownloadFinished,
    NewEmail,
    FriendMessage,
    PackageDelivered,
}

/// How urgently the HUD presents an alert.
#[derive(Clone, Copy, Debug, PartialEq, Eq, Structural)]
pub enum Severity {
    Info,
    Warning,
    Critical,
}

/// One alert travelling from a detector through the dispatcher to the HUD.
#[derive(Debug)]
pub struct IonSenseEvent {
    pub event_type: IonSenseEventType,
    pub message: String,
    pub severity: Severity,
    /// Milliseconds since the Unix epoch at which the alert was created.
    pub timestamp: u64,
}

/// An event as plain values: type, message, severity and timestamp.
pub type EventModel = (IonSenseEventType, Seq<char>, Severity, u64);

/// The plain values of `e`.
pub open spec fn event_model(e: IonSenseEvent) -> EventModel {
    (e.event_type, e.message@, e.severity, e.timestamp)
}

/// The wall-clock reading, in whole milliseconds since the Unix epoch, that an
/// event records: `0` for a clock before the epoch, saturated to `u64::MAX`.
pub open spec fn timestamp_from_reading(reading: Option<u128>) -> u64 {
    match reading {
        None => 0,
        Some(ms) => if ms > u64::MAX as u128 { u64::MAX } else { ms as u64 },
    }
}

/// Turns a reading of the system clock into an event timestamp.
pub fn timestamp_from_epoch_millis(reading: Option<u128>) -> (ts: u64)
    ensures
        ts == timestamp_from_reading(reading),
{
    match reading {
        None => 0,
        Some(ms) => if ms > u64::MAX as u128 { u64::MAX } else { ms as u64 },
    }
}

/// Reads the system clock (`std::time::SystemTime::now`). Nothing is promised
/// of the reading: it is the time of day.
#[verifier::external_body]
fn system_time_now() -> std::time::SystemTime {
    std::time::SystemTime::now()
}

/// Whole milliseconds from the Unix epoch to `t`
/// (`SystemTime::duration_since(UNIX_EPOCH)` then `Duration::as_millis`),
/// `None` when `t` lies before the epoch. The contract states nothing: the
/// value is a reading of the clock.
#[verifier::external_body]
fn millis_since_unix_epoch(t: &std::time::SystemTime) -> Option<u128> {
    match t.duration_since(std::time::UNIX_EPOCH) {
        Ok(since) => Some(since.as_millis()),
        Err(_) => None,
    }
}

#[verifier::external_type_specification]
#[verifier::external_body]
pub struct ExSystemTime(std::time::SystemTime);

/// The current time as an event timestamp.
pub fn unix_timestamp_millis() -> u64 {
    let now = system_time_now();
    timestamp_from_epoch_millis(millis_since_unix_epoch(&now))
}

impl Clone for IonSenseEvent {
    fn clone(&self) -> (copy: Self)
        ensures
            copy.event_type == self.event_type,
            copy.message@ == self.message@,
            copy.severity == self.severity,
            copy.timestamp == self.timestamp,
    {
        IonSenseEvent {
            event_type: self.event_type,
            message: self.message.clone(),
            severity: self.severity,
            timestamp: self.timestamp,
        }
    }
}

impl IonSenseEvent {
    /// Creates an alert stamped with the current wall-clock time.
    pub fn new(event_type: IonSenseEventType, message: String, severity: Severity) -> (event: Self)
        ensures
            event.event_type == event_type,
            event.message@ == message@,
            event.severity == severity,
    {
        IonSenseEvent { event_type, message, severity, timestamp: unix_timestamp_millis() }
    }
}

/// The six sample alerts of the developer test harness, by type name.
pub open spec fn sample_alert(name: Seq<char>) -> Option<(IonSenseEventType, Seq<char>, Severity)> {
    if name == "battery_low"@ {
        Some((IonSenseEventType::BatteryLow, "Battery at 12%. Connect a power source."@, Severity::Warning))
    } else if name == "overheating"@ {
        Some((IonSenseEventType::Overheating, "CPU package temperature reached 94\u{b0}C."@, Severity::Critical))
    } else if name == "download_finished"@ {
        Some((IonSenseEventType::DownloadFinished, "All downloads completed successfully."@, Severity::Info))
    } else if name == "new_email"@ {
        Some((IonSenseEventType::NewEmail, "Maya Chen sent \u{201c}Project Aurora \u{2014} final notes\u{201d}."@, Severity::Info))
    } else if name == "friend_message"@ {
        Some((IonSenseEventType::FriendMessage, "Nadia: \u{201c}You around for a quick co-op run?\u{201d}"@, Severity::Info))
    } else if name == "package_delivered"@ {
        Some((IonSenseEventType::PackageDelivered, "Your parcel was left at the front door."@, Severity::Info))
    } else {
        None
    }
}

/// A sample alert of the developer test harness, stamped now; `None` for an
/// unknown type name.
pub fn mock_event(event_type: &str) -> (event: Option<IonSenseEvent>)
    ensures
        event is Some <==> sample_alert(event_type@) is Some,
        event is Some ==> {
            let (t, m, s) = sample_alert(event_type@)->Some_0;
            &&& event->Some_0.event_type == t
            &&& event->Some_0.message@ == m
            &&& event->Some_0.severity == s
        },
{
    let (t, m, s) = if str_equal(event_type, "battery_low") {
        (IonSenseEventType::BatteryLow, owned("Battery at 12%. Connect a power source."), Severity::Warning)
    } else if str_equal(event_type, "overheating") {
        (IonSenseEventType::Overheating, owned("CPU package temperature reached 94\u{b0}C."), Severity::Critical)
    } else if str_equal(event_type, "download_finished") {
        (IonSenseEventType::DownloadFinished, owned("All downloads completed successfully."), Severity::Info)
    } else if str_equal(event_type, "new_email") {
        (IonSenseEventType::NewEmail, owned("Maya Chen sent \u{201c}Project Aurora \u{2014} final notes\u{201d}."), Severity::Info)
    } else if str_equal(event_type, "friend_message") {
        (IonSenseEventType::FriendMessage, owned("Nadia: \u{201c}You around for a quick co-op run?\u{201d}"), Severity::Info)
    } else if str_equal(event_type, "package_delivered") {
        (IonSenseEventType::PackageDelivered, owned("Your parcel was left at the front door."), Severity::Info)
    } else {
        return None;
    };
    Some(IonSenseEvent::new(t, m, s))
}

} // verus!
