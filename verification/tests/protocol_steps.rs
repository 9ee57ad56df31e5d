use ion_sense::credentials::{
    check_secrets_for_save, next_save_step, save_check_outcome, undo_after, SaveRejection, SaveStage, SaveStepFailure, SaveTransition,
    UndoStep,
};
use ion_sense::detectors::email::{after_session, session_survives_dispatch, SessionFollowUp};
use ion_sense::detectors::overheating::{TemperatureAlarm, ThermalReading};
use ion_sense::detectors::battery_low::{BatteryAlarm, BatteryObservation, ChargeLevel};
use ion_sense::detectors::downloads::{finished_path, temp_extension, PathTable};
use ion_sense::dispatcher::{saturating_nanos, Delivery, DispatchError, EventDispatcher};
use ion_sense::event::{IonSenseEvent, IonSenseEventType, Severity};
use ion_sense::settings::EmailSettings;
use ion_sense::text::trim;
use ion_sense::window::{delivery_step, DeliveryAction, HudState};

fn event(event_type: IonSenseEventType, message: &str) -> IonSenseEvent {
    IonSenseEvent { event_type, message: message.into(), severity: Severity::Info, timestamp: 0 }
}

#[test]
fn offer_reports_a_duplicate_as_suppressed_and_a_full_queue_as_an_error() {
    let (mut dispatcher, _receiver) = EventDispatcher::channel(1);
    assert_eq!(dispatcher.offer_at(event(IonSenseEventType::BatteryLow, "a"), 0), Ok(Delivery::Queued));
    assert_eq!(dispatcher.pending(), 1);
    assert_eq!(dispatcher.offer_at(event(IonSenseEventType::BatteryLow, "a"), 10), Ok(Delivery::Suppressed));
    assert_eq!(dispatcher.pending(), 1);
    assert_eq!(dispatcher.offer_at(event(IonSenseEventType::Overheating, "b"), 20), Err(DispatchError::QueueFull));
    assert_eq!(dispatcher.pending(), 1);
    assert_eq!(dispatcher.try_dispatch_at(event(IonSenseEventType::BatteryLow, "a"), 30), Ok(()));
}

#[test]
fn unfiltered_queueing_skips_the_duplicate_filter() {
    let (mut dispatcher, _receiver) = EventDispatcher::channel(4);
    assert_eq!(dispatcher.offer_at(event(IonSenseEventType::BatteryLow, "a"), 0), Ok(Delivery::Queued));
    assert_eq!(dispatcher.queue_unfiltered(event(IonSenseEventType::BatteryLow, "a")), Ok(()));
    assert_eq!(dispatcher.pending(), 2);
    assert_eq!(dispatcher.remembered_len(), 1);
}

#[test]
fn clock_readings_saturate_at_u64_max() {
    assert_eq!(saturating_nanos(1_234), 1_234);
    assert_eq!(saturating_nanos(u64::MAX as u128), u64::MAX);
    assert_eq!(saturating_nanos(u64::MAX as u128 + 5), u64::MAX);
}

#[test]
fn hud_delivery_completes_redelivers_or_waits() {
    let mut hud = HudState::new();
    hud.deliver(7);
    assert_eq!(delivery_step(&hud, 7), DeliveryAction::Redeliver);
    hud.set_ready(true);
    assert_eq!(delivery_step(&hud, 7), DeliveryAction::Wait);
    assert!(hud.acknowledge(7));
    assert_eq!(delivery_step(&hud, 7), DeliveryAction::Complete);
    hud.set_ready(false);
    assert_eq!(delivery_step(&hud, 7), DeliveryAction::Complete);
}

#[test]
fn failed_saves_undo_earlier_steps_in_order() {
    assert_eq!(
        undo_after(SaveStepFailure::Autostart),
        vec![UndoStep::RollBackImapSecret, UndoStep::RollBackDiscordSecret]
    );
    assert_eq!(
        undo_after(SaveStepFailure::SettingsFile),
        vec![UndoStep::RestoreAutostart, UndoStep::RollBackImapSecret, UndoStep::RollBackDiscordSecret]
    );
}

#[test]
fn a_password_without_user_name_is_refused_for_that_reason_only() {
    assert_eq!(
        check_secrets_for_save(false, "", false, &Some("pw".to_string()), &None).0,
        Err(SaveRejection::ImapUsernameMissing)
    );
    assert_eq!(check_secrets_for_save(false, "me", false, &Some("pw".to_string()), &None).0, Ok(()));
}

#[test]
fn temporary_extensions_and_finished_paths_from_their_parts() {
    assert!(temp_extension("crdownload"));
    assert!(temp_extension("Partial"));
    assert!(temp_extension("DOWNLOAD"));
    assert!(!temp_extension("zip"));
    assert_eq!(
        std::path::PathBuf::from(finished_path("dl/a.zip.part", Some("a.zip".to_string()))),
        std::path::PathBuf::from("dl/a.zip")
    );
    assert_eq!(finished_path("noext", None), "noext");
}

#[test]
fn path_table_treats_equal_paths_as_one_entry() {
    let mut table = PathTable::new();
    table.upsert("dl/a.part".to_string(), 1);
    assert!(table.contains("dl//a.part"));
    table.upsert("dl//a.part".to_string(), 2);
    assert_eq!(table.len(), 1);
    table.remove("dl/./a.part");
    assert_eq!(table.len(), 0);
}

#[test]
fn battery_alarm_alerts_once_until_rearmed() {
    let sample = |percent: u32, discharging: bool| BatteryObservation {
        level: if percent > 23 {
            ChargeLevel::AboveRearm
        } else if percent > 20 {
            ChargeLevel::AboveThreshold
        } else {
            ChargeLevel::AtOrBelowThreshold
        },
        discharging,
    };
    let mut alarm = BatteryAlarm::new();
    assert!(!alarm.step(sample(25, true)));
    assert!(alarm.step(sample(20, true)));
    assert!(!alarm.step(sample(21, true)));
    assert!(!alarm.step(sample(19, true)));
    assert!(!alarm.step(sample(24, true)));
    assert!(alarm.step(sample(18, true)));
}

#[test]
fn trimming_and_email_sanitising_are_idempotent() {
    assert_eq!(trim(trim("  x y \t")), "x y");
    let settings = EmailSettings {
        enabled: true,
        host: " imap.example.com ".to_string(),
        port: 993,
        username: " me ".to_string(),
        mailbox: "   ".to_string(),
        poll_seconds: 1,
    };
    let once = settings.sanitized();
    let twice = once.clone().sanitized();
    assert_eq!(once.mailbox, "INBOX");
    assert_eq!(once.poll_seconds, 15);
    assert_eq!((twice.host, twice.username, twice.mailbox, twice.poll_seconds), (once.host, once.username, once.mailbox, once.poll_seconds));
}

#[test]
fn default_email_settings_are_already_sanitised() {
    let default = EmailSettings::default();
    let sanitised = EmailSettings::default().sanitized();
    assert_eq!(
        (sanitised.host, sanitised.username, sanitised.mailbox, sanitised.poll_seconds, sanitised.port),
        (default.host, default.username, default.mailbox, default.poll_seconds, default.port)
    );
}

#[test]
fn the_queue_receives_the_offered_event_unchanged() {
    let (mut dispatcher, mut receiver) = EventDispatcher::channel(2);
    let offered = IonSenseEvent {
        event_type: IonSenseEventType::NewEmail,
        message: "Mail from Ada".into(),
        severity: Severity::Warning,
        timestamp: 42,
    };
    assert_eq!(dispatcher.offer_at(offered, 0), Ok(Delivery::Queued));
    let received = receiver.try_recv().unwrap();
    assert_eq!(received.event_type, IonSenseEventType::NewEmail);
    assert_eq!(received.message, "Mail from Ada");
    assert_eq!(received.severity, Severity::Warning);
    assert_eq!(received.timestamp, 42);
}

#[test]
fn email_sessions_back_off_and_reset() {
    assert_eq!(after_session(true, true, 40), (SessionFollowUp::Stop, 40));
    assert_eq!(after_session(false, true, 40), (SessionFollowUp::Reconnect, 5));
    assert_eq!(after_session(false, false, 5), (SessionFollowUp::ReconnectAfter(5), 10));
    assert_eq!(after_session(true, false, 200), (SessionFollowUp::ReconnectAfter(200), 300));
    assert_eq!(after_session(false, false, u64::MAX), (SessionFollowUp::ReconnectAfter(u64::MAX), 300));
    assert!(session_survives_dispatch(&Ok(())));
    assert!(session_survives_dispatch(&Err(DispatchError::QueueFull)));
    assert!(!session_survives_dispatch(&Err(DispatchError::QueueClosed)));
}

#[test]
fn the_save_sequence_undoes_only_between_secrets_and_commit() {
    assert_eq!(next_save_step(SaveStage::CheckSecrets, true), SaveTransition::Proceed(SaveStage::WriteSecrets));
    assert_eq!(next_save_step(SaveStage::CheckSecrets, false), SaveTransition::Abort);
    assert_eq!(next_save_step(SaveStage::WriteSecrets, false), SaveTransition::Abort);
    assert_eq!(
        next_save_step(SaveStage::SyncAutostart, false),
        SaveTransition::UndoThenAbort(SaveStepFailure::Autostart)
    );
    assert_eq!(
        next_save_step(SaveStage::WriteSettingsFile, false),
        SaveTransition::UndoThenAbort(SaveStepFailure::SettingsFile)
    );
    assert_eq!(next_save_step(SaveStage::Commit, true), SaveTransition::Proceed(SaveStage::RemoveStaleCredential));
    assert_eq!(next_save_step(SaveStage::RemoveStaleCredential, false), SaveTransition::Finish);
}

#[test]
fn overheating_needs_two_hot_readings_and_a_missing_sensor_breaks_the_run() {
    let hot = Some(ThermalReading { at_or_above_threshold: true, at_or_below_rearm: false });
    let warm = Some(ThermalReading { at_or_above_threshold: false, at_or_below_rearm: false });
    let cool = Some(ThermalReading { at_or_above_threshold: false, at_or_below_rearm: true });
    let mut alarm = TemperatureAlarm::new();
    assert!(!alarm.step(hot).alert);
    assert!(!alarm.step(None).alert);
    assert!(!alarm.step(hot).alert);
    assert!(alarm.step(hot).alert);
    assert!(!alarm.step(hot).alert);
    assert!(!alarm.step(warm).alert);
    assert!(!alarm.step(hot).alert);
    assert!(!alarm.step(hot).alert);
    assert!(!alarm.step(cool).alert);
    assert!(!alarm.step(hot).alert);
    assert!(alarm.step(hot).alert);
}

#[test]
fn the_save_check_follows_the_vault_look_ups() {
    let none: Option<String> = None;
    let pw = Some("pw".to_string());
    assert_eq!(save_check_outcome(true, "me", false, &none, &none, Some(false), None), Err(SaveRejection::ImapPasswordMissing));
    assert_eq!(save_check_outcome(true, "me", false, &none, &none, Some(true), None), Ok(()));
    assert_eq!(save_check_outcome(false, "me", true, &none, &none, None, Some(false)), Err(SaveRejection::DiscordTokenMissing));
    assert_eq!(save_check_outcome(true, "me", true, &pw, &none, None, Some(true)), Ok(()));
    assert_eq!(save_check_outcome(true, "", true, &pw, &none, None, Some(false)), Err(SaveRejection::ImapUsernameMissing));
}
