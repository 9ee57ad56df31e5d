use ion_sense::detectors::downloads::{is_temp, without_temp_extension};
use ion_sense::detectors::friend_message::alert_text;
use ion_sense::paths::eq_ignore_ascii_case;
use ion_sense::text::{blank, joined, normalize_template, str_equal, trim, truncate};

#[test]
fn recognizes_only_supported_browser_temp_extensions() {
    assert!(is_temp("archive.zip.crdownload"));
    assert!(is_temp("video.mp4.PART"));
    assert!(!is_temp("notes.txt"));
    assert!(!is_temp("random.tmp"));
}

#[test]
fn strips_one_download_temp_suffix() {
    assert_eq!(
        std::path::PathBuf::from(without_temp_extension("C:/Downloads/archive.zip.crdownload")),
        std::path::PathBuf::from("C:/Downloads/archive.zip")
    );
}

#[test]
fn truncation_never_slices_inside_utf8() {
    assert_eq!(truncate("hello", 5), "hello");
    assert_eq!(truncate("🙂🙂🙂", 2), "🙂🙂…");
}

#[test]
fn truncation_cuts_long_text_and_marks_it() {
    assert_eq!(truncate("abcdef", 3), "abc…");
    assert_eq!(truncate("", 0), "");
    assert_eq!(truncate("x", 0), "…");
}

#[test]
fn documented_partial_and_download_extensions_are_in_progress_files() {
    assert!(is_temp("report.pdf.partial"));
    assert!(is_temp("setup.exe.DOWNLOAD"));
    assert_eq!(without_temp_extension("/d/report.pdf.partial"), "/d/report.pdf");
}

#[test]
fn a_file_without_extension_is_not_a_download_in_progress() {
    assert!(!is_temp("C:/Downloads/README"));
    assert!(!is_temp(".part"));
    assert!(is_temp("movie.Part"));
    assert_eq!(without_temp_extension("C:/Downloads/README"), "C:/Downloads/README");
}

#[test]
fn ascii_case_is_ignored_but_nothing_else() {
    assert!(eq_ignore_ascii_case("CrDownload", "crdownload"));
    assert!(!eq_ignore_ascii_case("part", "parts"));
    assert!(!eq_ignore_ascii_case("Ä", "ä"));
}

#[test]
fn trimming_and_blank_text() {
    assert_eq!(trim("  mail.example.com \n"), "mail.example.com");
    assert!(blank(" \t "));
    assert!(!blank(" a "));
    assert_eq!(joined("a", "b"), "ab");
    assert!(str_equal("same", "same"));
    assert!(!str_equal("same", "Same"));
}

#[test]
fn discord_alert_text_uses_trimmed_content_or_a_placeholder() {
    assert_eq!(alert_text("Nadia", "  ready?  "), "Nadia: ready?");
    assert_eq!(
        alert_text("Nadia", "   "),
        "Nadia: (attachment, embed, or message content unavailable)"
    );
    let long = "x".repeat(200);
    let text = alert_text("Tarek", &long);
    assert_eq!(text, format!("Tarek: {}…", "x".repeat(160)));
}

#[test]
fn normalizing_a_template_again_changes_nothing() {
    for message in ["Battery at 12%.", "GPU 7 of 8 at 99°C", "#1 in queue", "no digits"] {
        let once = normalize_template(message);
        assert!(!once.chars().any(|c| c.is_ascii_digit()));
        assert_eq!(normalize_template(&once), once);
    }
}

#[test]
fn trimming_removes_unicode_white_space_only() {
    assert_eq!(trim("\u{3000}\u{85} mail\u{a0}box\t\u{2029}"), "mail\u{a0}box");
    assert_eq!(trim("\u{200b}x\u{200b}"), "\u{200b}x\u{200b}");
    assert_eq!(trim(" \u{2000}\u{200a} "), "");
}
