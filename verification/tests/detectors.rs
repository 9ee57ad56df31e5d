use ion_sense::detectors::battery_low::{BatteryAlarm, BatteryObservation, ChargeLevel};
use ion_sense::detectors::downloads::{
    DownloadTracker, FileStamp, FsEvent, FsEventKind, StabilityProbe,
};
use ion_sense::detectors::email::{email_alert_message, next_backoff, EnvelopeSummary, MailboxCursor};
use ion_sense::detectors::friend_message::{DiscordMessageFilter, IncomingMessage, RecentMessageIds};
use ion_sense::detectors::overheating::{
    sensor_name, NvidiaAvailability, TemperatureAlarm, ThermalReading, NVIDIA_RETRY_INTERVAL_NS,
};
use ion_sense::detectors::{poll_wait_ticks, DetectorPlan};
use ion_sense::settings::{DiscordSettings, DownloadsSettings, EmailSettings};

#[test]
fn recent_message_ids_reject_replays_and_remain_bounded() {
    let mut recent = RecentMessageIds::new(2);
    assert!(recent.accept(10));
    assert!(!recent.accept(10));
    assert!(recent.accept(11));
    assert!(recent.accept(12));
    assert_eq!(recent.order_len(), 2);
    assert_eq!(recent.ids_len(), 2);
    assert!(recent.accept(10));
}

#[test]
fn a_memory_of_no_ids_accepts_every_replay() {
    let mut recent = RecentMessageIds::new(0);
    assert!(recent.accept(7));
    assert!(recent.accept(7));
    assert_eq!(recent.order_len(), 0);
}

#[test]
fn probes_first_then_backs_off_until_the_retry_interval_elapses() {
    let now = 1_000_000;
    let mut availability = NvidiaAvailability::default();
    assert!(availability.should_probe(now));

    availability.record(false, now);
    assert!(!availability.should_probe(now + 1_000_000_000));
    assert!(!availability.should_probe(now + NVIDIA_RETRY_INTERVAL_NS - 1_000_000_000));
    assert!(availability.should_probe(now + NVIDIA_RETRY_INTERVAL_NS));

    availability.record(true, now);
    assert!(availability.should_probe(now + 1_000_000_000));
}

#[test]
fn a_successful_probe_is_never_cached_as_a_failure() {
    let now = 1_000_000;
    let mut availability = NvidiaAvailability::default();
    availability.record(true, now);
    assert!(availability.usable == Some(true));
    assert!(availability.last_failed.is_none());
}

fn hot() -> Option<ThermalReading> {
    Some(ThermalReading { at_or_above_threshold: true, at_or_below_rearm: false })
}

fn warm() -> Option<ThermalReading> {
    Some(ThermalReading { at_or_above_threshold: false, at_or_below_rearm: false })
}

fn cool() -> Option<ThermalReading> {
    Some(ThermalReading { at_or_above_threshold: false, at_or_below_rearm: true })
}

#[test]
fn temperature_alert_needs_two_hot_samples_and_rearms_when_cool() {
    let mut alarm = TemperatureAlarm::new();
    assert!(!alarm.step(hot()).alert);
    assert!(alarm.step(hot()).alert);
    assert!(!alarm.step(hot()).alert);
    assert!(!alarm.step(warm()).alert);
    assert!(!alarm.step(hot()).alert);
    assert!(!alarm.step(hot()).alert, "still latched: never cooled to the re-arm level");
    assert!(!alarm.step(cool()).alert);
    assert!(!alarm.step(hot()).alert);
    assert!(alarm.step(hot()).alert);
}

#[test]
fn a_missing_sensor_is_reported_once() {
    let mut alarm = TemperatureAlarm::new();
    assert!(alarm.step(None).report_unavailable);
    assert!(!alarm.step(None).report_unavailable);
    alarm.step(warm());
    assert!(alarm.step(None).report_unavailable);
}

#[test]
fn sensor_names_fall_back_for_blank_labels() {
    assert_eq!(sensor_name("  CPU Package "), "CPU Package");
    assert_eq!(sensor_name("   "), "System sensor");
}

fn battery(above_threshold: bool, above_rearm: bool, discharging: bool) -> BatteryObservation {
    let level = if above_rearm {
        ChargeLevel::AboveRearm
    } else if above_threshold {
        ChargeLevel::AboveThreshold
    } else {
        ChargeLevel::AtOrBelowThreshold
    };
    BatteryObservation { level, discharging }
}

#[test]
fn battery_alerts_once_when_the_threshold_is_crossed() {
    let mut alarm = BatteryAlarm::new();
    assert!(!alarm.step(battery(true, true, true)));
    assert!(alarm.step(battery(false, false, true)));
    assert!(!alarm.step(battery(false, false, true)));
    // Plugging in and out again below the threshold does not re-alert until re-armed.
    assert!(!alarm.step(battery(false, false, false)));
    assert!(!alarm.step(battery(false, false, true)));
    // Charged above the re-arm level, then crossing again alerts.
    assert!(!alarm.step(battery(true, true, false)));
    assert!(!alarm.step(battery(true, true, true)));
    assert!(alarm.step(battery(false, false, true)));
}

#[test]
fn unplugging_at_or_below_the_threshold_alerts() {
    let mut alarm = BatteryAlarm::new();
    assert!(!alarm.step(battery(false, false, false)));
    assert!(alarm.step(battery(false, false, true)));
}

#[test]
fn a_charging_battery_never_alerts() {
    let mut alarm = BatteryAlarm::new();
    assert!(!alarm.step(battery(true, true, false)));
    assert!(!alarm.step(battery(false, false, false)));
}

fn fs(kind: FsEventKind, paths: &[&str]) -> FsEvent {
    FsEvent { kind, paths: paths.iter().map(|p| p.to_string()).collect() }
}

#[test]
fn a_browser_rename_completes_the_download() {
    let mut tracker = DownloadTracker::new();
    assert!(tracker
        .completion_candidates(&fs(FsEventKind::CreateOrRenameTo, &["/d/a.zip.crdownload"]), 0)
        .is_empty());
    assert_eq!(tracker.temp_files.len(), 1);
    let done = tracker.completion_candidates(
        &fs(FsEventKind::RenameBoth, &["/d/a.zip.crdownload", "/d/a.zip"]),
        10,
    );
    assert_eq!(done, vec!["/d/a.zip".to_string()]);
    assert_eq!(tracker.temp_files.len(), 0);
}

#[test]
fn a_removed_partial_file_completes_its_target() {
    let mut tracker = DownloadTracker::new();
    let done = tracker.completion_candidates(&fs(FsEventKind::Remove, &["/d/v.mp4.part", "/d/x.txt"]), 0);
    assert_eq!(done, vec!["/d/v.mp4".to_string()]);
    assert_eq!(tracker.temp_files.len(), 0);
}

#[test]
fn a_created_file_is_a_candidate_and_retires_its_download() {
    let mut tracker = DownloadTracker::new();
    tracker.completion_candidates(&fs(FsEventKind::Other, &["/d/b.iso.part"]), 0);
    let other = tracker.completion_candidates(&fs(FsEventKind::CreateOrRenameTo, &["/d/other.iso"]), 1);
    assert_eq!(other, vec!["/d/other.iso".to_string()]);
    assert_eq!(tracker.temp_files.len(), 1);
    let done = tracker.completion_candidates(
        &fs(FsEventKind::CreateOrRenameTo, &["/d/b.iso", "/d/c.iso.download"]),
        2,
    );
    assert_eq!(done, vec!["/d/b.iso".to_string()]);
    assert_eq!(tracker.temp_files.len(), 1);
}

#[test]
fn announcements_are_remembered_for_a_minute() {
    let mut tracker = DownloadTracker::new();
    tracker.record_emitted("/d/a.zip".to_string(), 0);
    assert!(tracker.already_emitted("/d/a.zip"));
    tracker.prune(60_000_000_000);
    assert!(tracker.already_emitted("/d/a.zip"));
    tracker.prune(60_000_000_001);
    assert!(!tracker.already_emitted("/d/a.zip"));
}

#[test]
fn stale_downloads_in_progress_are_forgotten_after_an_hour() {
    let mut tracker = DownloadTracker::new();
    tracker.completion_candidates(&fs(FsEventKind::Other, &["/d/c.bin.part"]), 0);
    tracker.prune(3_600_000_000_000);
    assert_eq!(tracker.temp_files.len(), 1);
    tracker.prune(3_600_000_000_001);
    assert_eq!(tracker.temp_files.len(), 0);
}

#[test]
fn a_file_is_stable_after_three_equal_samples() {
    let stamp = FileStamp { size: 10, modified: Some(5) };
    let grown = FileStamp { size: 11, modified: Some(6) };
    let mut probe = StabilityProbe::new();
    assert!(!probe.observe(Some(stamp)));
    assert!(!probe.observe(Some(grown)));
    assert!(!probe.observe(Some(grown)));
    assert!(probe.observe(Some(grown)));

    let mut missing = StabilityProbe::new();
    for _ in 0..5 {
        assert!(!missing.exhausted());
        assert!(!missing.observe(None));
    }
    assert!(missing.exhausted());
}

#[test]
fn the_configured_downloads_folder_wins_unless_blank() {
    let configured = DownloadsSettings { enabled: true, directory: Some("/data/in".into()) };
    assert_eq!(ion_sense::detectors::downloads::downloads_directory(&configured), Some("/data/in".to_string()));
}

#[test]
fn email_cursor_reports_only_new_uids_in_order() {
    let mut cursor = MailboxCursor::default();
    assert!(cursor.needs_baseline(Some(7)));
    cursor.rebaseline(Some(7), &vec![3, 9, 4]);
    assert_eq!(cursor.last_uid, Some(9));
    assert!(!cursor.needs_baseline(Some(7)));
    assert!(cursor.needs_baseline(Some(8)));
    assert_eq!(cursor.first_new_uid(), 10);
    assert_eq!(cursor.new_uids(&vec![12, 9, 10, 2, 11]), vec![10, 11, 12]);
    cursor.record_seen(10);
    assert_eq!(cursor.last_uid, Some(10));
    cursor.record_seen(4);
    assert_eq!(cursor.last_uid, Some(10));
}

#[test]
fn an_empty_mailbox_baselines_to_no_uid() {
    let mut cursor = MailboxCursor::default();
    cursor.rebaseline(None, &vec![]);
    assert_eq!(cursor.last_uid, None);
    assert_eq!(cursor.first_new_uid(), 1);
    assert_eq!(cursor.new_uids(&vec![2, 1]), vec![1, 2]);
    let top = MailboxCursor { uid_validity: None, last_uid: Some(u32::MAX) };
    assert_eq!(top.first_new_uid(), u32::MAX);
}

#[test]
fn reconnect_backoff_doubles_up_to_five_minutes() {
    assert_eq!(next_backoff(5), 10);
    assert_eq!(next_backoff(100), 200);
    assert_eq!(next_backoff(160), 300);
    assert_eq!(next_backoff(300), 300);
}

#[test]
fn email_alert_text_names_sender_and_subject() {
    let full = EnvelopeSummary {
        subject: Some(b"Quarterly report".to_vec()),
        sender_name: Some(b"Maya Chen".to_vec()),
        sender_mailbox: Some(b"maya".to_vec()),
    };
    assert_eq!(email_alert_message(&full), "Maya Chen sent “Quarterly report”.");
    let bare = EnvelopeSummary { subject: Some(b"   ".to_vec()), sender_name: None, sender_mailbox: Some(b"ops".to_vec()) };
    assert_eq!(email_alert_message(&bare), "ops sent “(no subject)”.");
    let nothing = EnvelopeSummary { subject: None, sender_name: None, sender_mailbox: None };
    assert_eq!(email_alert_message(&nothing), "A sender sent “(no subject)”.");
    let invalid = EnvelopeSummary { subject: Some(vec![0xff, b'a']), sender_name: None, sender_mailbox: None };
    assert_eq!(email_alert_message(&invalid), "A sender sent “\u{fffd}a”.");
}

fn message(in_guild: bool, channel_id: u64, message_id: u64) -> IncomingMessage {
    IncomingMessage {
        author_is_bot: false,
        from_webhook: false,
        in_guild,
        channel_id,
        message_id,
        author_name: "Nadia".into(),
        content: "ready?".into(),
    }
}

#[test]
fn discord_filter_reports_direct_and_allowed_channel_messages_once() {
    let mut filter = DiscordMessageFilter::new(&vec![5, 6]);
    assert_eq!(filter.alert_for(&message(false, 99, 1)), Some("Nadia: ready?".to_string()));
    assert_eq!(filter.alert_for(&message(false, 99, 1)), None);
    assert_eq!(filter.alert_for(&message(true, 5, 2)), Some("Nadia: ready?".to_string()));
    assert_eq!(filter.alert_for(&message(true, 7, 3)), None);
    let mut bot = message(false, 0, 4);
    bot.author_is_bot = true;
    assert_eq!(filter.alert_for(&bot), None);
    let mut hook = message(false, 0, 5);
    hook.from_webhook = true;
    assert_eq!(filter.alert_for(&hook), None);
}

#[test]
fn the_detector_plan_follows_the_settings() {
    let mut email = EmailSettings::default();
    email.enabled = true;
    email.username = "   ".into();
    let plan = DetectorPlan::for_settings(true, false, &DownloadsSettings::default(), &email, &DiscordSettings::default());
    assert!(plan.battery && !plan.temperature && plan.downloads && !plan.email && !plan.discord);
    email.username = "me@example.com".into();
    let plan = DetectorPlan::for_settings(false, true, &DownloadsSettings::default(), &email, &DiscordSettings::default());
    assert!(plan.email);
    assert_eq!(poll_wait_ticks(0), 1);
    assert_eq!(poll_wait_ticks(30), 30);
}
