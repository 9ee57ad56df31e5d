use ion_sense::credentials::{
    credential_account, check_secrets_for_save, nonempty_secret, roll_back_secret, set_secret, stale_imap_account,
    write_new_secrets, CredentialError, SaveRejection, SecretChange, SecretKind, SecretWriteFailure,
};
use ion_sense::event::{mock_event, timestamp_from_epoch_millis, IonSenseEventType, Severity};
use ion_sense::settings::{
    sanitize_battery_poll_seconds, sanitize_temperature_poll_seconds, sorted_unique, DiscordSettings, EmailSettings,
};
use ion_sense::window::{HudState, SettingsWindowState};

#[test]
fn credential_accounts_are_namespaced() {
    assert_eq!(
        credential_account(SecretKind::ImapPassword, "  me@example.com "),
        "com.ionsense.desktop:me@example.com"
    );
    assert_eq!(
        credential_account(SecretKind::DiscordBotToken, "ignored"),
        "com.ionsense.desktop:discord-bot"
    );
    assert_eq!(SecretKind::ImapPassword.service(), "com.ionsense.desktop.imap");
    assert_eq!(SecretKind::DiscordBotToken.service(), "com.ionsense.desktop.discord");
}

#[test]
fn empty_accounts_and_secrets_are_refused_before_the_vault() {
    assert!(matches!(
        set_secret(SecretKind::ImapPassword, "  ", "pw").0,
        Err(CredentialError::EmptyAccount)
    ));
    assert!(matches!(
        set_secret(SecretKind::ImapPassword, "acct", "").0,
        Err(CredentialError::EmptySecret)
    ));
}

#[test]
fn a_password_needs_a_username() {
    assert_eq!(
        check_secrets_for_save(false, "", false, &Some("pw".into()), &None).0,
        Err(SaveRejection::ImapUsernameMissing)
    );
    assert_eq!(check_secrets_for_save(false, "me", false, &Some("pw".into()), &Some("tok".into())).0, Ok(()));
    assert_eq!(nonempty_secret(Some(String::new())), None);
    assert_eq!(nonempty_secret(Some("x".into())), Some("x".to_string()));
}

#[test]
fn a_changed_username_leaves_its_old_account_behind() {
    assert_eq!(stale_imap_account("old@x", "new@x"), Some("com.ionsense.desktop:old@x".to_string()));
    assert_eq!(stale_imap_account("same", "same"), None);
    assert_eq!(stale_imap_account("  ", "new"), None);
}

#[test]
fn email_settings_are_trimmed_and_bounded() {
    let raw = EmailSettings {
        enabled: true,
        host: " imap.example.com ".into(),
        port: 993,
        username: " me ".into(),
        mailbox: "   ".into(),
        poll_seconds: 1,
    };
    let clean = raw.sanitized();
    assert_eq!(clean.host, "imap.example.com");
    assert_eq!(clean.username, "me");
    assert_eq!(clean.mailbox, "INBOX");
    assert_eq!(clean.poll_seconds, 15);
    let defaults = EmailSettings::default();
    assert_eq!(defaults.mailbox, "INBOX");
    assert_eq!(defaults.port, 993);
    assert_eq!(defaults.poll_seconds, 60);
}

#[test]
fn poll_intervals_are_clamped() {
    assert_eq!(sanitize_battery_poll_seconds(0), 5);
    assert_eq!(sanitize_battery_poll_seconds(10_000), 3_600);
    assert_eq!(sanitize_temperature_poll_seconds(1), 2);
    assert_eq!(sanitize_temperature_poll_seconds(301), 300);
    assert_eq!(sanitize_temperature_poll_seconds(30), 30);
}

#[test]
fn channel_ids_are_sorted_and_deduplicated_idempotently() {
    let once = DiscordSettings { enabled: true, allowed_channel_ids: vec![9, 3, 9, 1, 3] }.sanitized();
    assert_eq!(once.allowed_channel_ids, vec![1, 3, 9]);
    let twice = once.sanitized();
    assert_eq!(twice.allowed_channel_ids, vec![1, 3, 9]);
    assert_eq!(sorted_unique(&vec![]), Vec::<u64>::new());
}

#[test]
fn sample_alerts_match_the_harness_names() {
    let event = mock_event("battery_low").unwrap();
    assert_eq!(event.event_type, IonSenseEventType::BatteryLow);
    assert_eq!(event.message, "Battery at 12%. Connect a power source.");
    assert_eq!(event.severity, Severity::Warning);
    assert_eq!(mock_event("overheating").unwrap().message, "CPU package temperature reached 94°C.");
    assert!(mock_event("package_delivered").is_some());
    assert!(mock_event("unknown").is_none());
    assert!(event.timestamp > 1_600_000_000_000);
}

#[test]
fn timestamps_saturate_and_default_to_zero() {
    assert_eq!(timestamp_from_epoch_millis(None), 0);
    assert_eq!(timestamp_from_epoch_millis(Some(42)), 42);
    assert_eq!(timestamp_from_epoch_millis(Some(u128::MAX)), u64::MAX);
}

#[test]
fn settings_popover_presents_only_the_current_open() {
    let mut state = SettingsWindowState::new();
    let (generation, ready) = state.begin_open();
    assert!(!ready);
    assert!(!state.try_present(generation), "page not ready yet");
    assert_eq!(state.mark_ready(), Some(generation));
    assert!(state.try_present(generation));
    assert!(!state.try_present(generation), "presented once");
    let close = state.begin_close().unwrap();
    assert!(state.begin_close().is_none());
    assert!(!state.try_hide(close + 1));
    assert!(state.try_hide(close));
    assert!(!state.close_fallback(close));
}

#[test]
fn a_page_reload_requires_a_fresh_present() {
    let mut state = SettingsWindowState::new();
    state.mark_ready();
    let (generation, _) = state.begin_open();
    state.reset_on_page_load(true);
    assert!(!state.ready);
    assert_eq!(state.mark_ready(), Some(generation + 1));
    assert!(!state.try_present(generation));
    assert!(state.try_present(generation + 1));
}

#[test]
fn hud_acknowledges_only_the_delivered_event() {
    let mut hud = HudState::new();
    hud.set_ready(true);
    hud.deliver(42);
    assert!(hud.is_current(42));
    assert!(!hud.has_followup(42, 1));
    assert!(hud.has_followup(42, 2));
    assert!(!hud.acknowledge(41));
    assert!(!hud.is_acknowledged(42));
    assert!(hud.acknowledge(42));
    assert!(hud.is_acknowledged(42));
}

fn change(kind: SecretKind, account: &str, new_secret: Option<&str>, prior: Option<&str>) -> SecretChange {
    SecretChange {
        kind,
        account: account.to_string(),
        new_secret: new_secret.map(|s| s.to_string()),
        prior: prior.map(|s| s.to_string()),
    }
}

#[test]
fn roll_back_leaves_an_unchanged_secret_alone_and_refuses_an_empty_prior() {
    let untouched = change(SecretKind::ImapPassword, "com.ionsense.desktop:me", None, Some("old"));
    assert!(roll_back_secret(&untouched).0.is_ok());
    let empty_prior = change(SecretKind::ImapPassword, "com.ionsense.desktop:me", Some("new"), Some(""));
    assert!(matches!(roll_back_secret(&empty_prior).0, Err(CredentialError::EmptySecret)));
    let blank_account = change(SecretKind::ImapPassword, "  ", Some("new"), Some("old"));
    assert!(matches!(roll_back_secret(&blank_account).0, Err(CredentialError::EmptyAccount)));
}

#[test]
fn writing_secrets_refuses_blank_accounts_and_empty_secrets_first() {
    let none_imap = change(SecretKind::ImapPassword, "", None, None);
    let none_discord = change(SecretKind::DiscordBotToken, "", None, None);
    assert!(write_new_secrets(&none_imap, &none_discord).0.is_ok());

    let blank_imap = change(SecretKind::ImapPassword, " ", Some("pw"), None);
    assert!(matches!(
        write_new_secrets(&blank_imap, &none_discord).0,
        Err((SecretWriteFailure::Imap(CredentialError::EmptyAccount), None))
    ));
    let empty_imap = change(SecretKind::ImapPassword, "com.ionsense.desktop:me", Some(""), None);
    assert!(matches!(
        write_new_secrets(&empty_imap, &none_discord).0,
        Err((SecretWriteFailure::Imap(CredentialError::EmptySecret), None))
    ));
    let blank_discord = change(SecretKind::DiscordBotToken, "", Some("token"), None);
    assert!(matches!(
        write_new_secrets(&none_imap, &blank_discord).0,
        Err((SecretWriteFailure::Discord(CredentialError::EmptyAccount), None))
    ));
    let empty_discord = change(SecretKind::DiscordBotToken, "com.ionsense.desktop:discord-bot", Some(""), None);
    assert!(matches!(
        write_new_secrets(&none_imap, &empty_discord).0,
        Err((SecretWriteFailure::Discord(CredentialError::EmptySecret), None))
    ));
}
