use chute::apple::{
    automation_failure_detail, background_launch_args, calendar_osascript_args, container_or_default,
    note_osascript_args, reminder_osascript_args, AppleApp,
};
use chute::hotkey::{
    prepare_capture_hotkey, settle_capture_hotkey, shortcut_from_text, HOTKEY_EMPTY_MESSAGE,
    HOTKEY_INVALID_MESSAGE,
};
use chute::links::{external_url_target, URL_EMPTY_MESSAGE};

fn strs(v: &[String]) -> Vec<&str> {
    v.iter().map(|s| s.as_str()).collect()
}

#[test]
fn reminder_with_a_due_date() {
    let args = reminder_osascript_args("  Work ", "Call", "About \"it\"", Some("2026-06-15T14:00:00"));
    assert_eq!(
        strs(&args),
        vec!["-", "Work", "Call", "About \"it\"", "true", "2026", "6", "15", "14", "0", "0"]
    );
}

#[test]
fn reminder_without_a_usable_due_date() {
    let args = reminder_osascript_args("", "Call", "", None);
    assert_eq!(strs(&args), vec!["-", "Chute", "Call", "", "false"]);
    let args = reminder_osascript_args(" \t", "Call", "b", Some("tomorrow"));
    assert_eq!(strs(&args), vec!["-", "Chute", "Call", "b", "false"]);
}

#[test]
fn note_arguments() {
    let args = note_osascript_args("Ideas", " T ", "<p>x</p>");
    assert_eq!(strs(&args), vec!["-", "Ideas", " T ", "<p>x</p>"]);
    let args = note_osascript_args("   ", "T", "B");
    assert_eq!(strs(&args), vec!["-", "Chute", "T", "B"]);
}

#[test]
fn calendar_arguments() {
    let args = calendar_osascript_args(" Home ", "Dentist", "bring card", "2026-06-15T09:00:00", "2026-06-15T09:30", Some(15))
        .expect("times read");
    assert_eq!(
        strs(&args),
        vec![
            "-", "Home", "Dentist", "bring card", "15", "2026", "6", "15", "9", "0", "0", "2026", "6", "15", "9", "30", "0"
        ]
    );
    let args = calendar_osascript_args("", "x", "", "1-2-3T4:5:6", "7-8-9T10:11:12", None).expect("times read");
    assert_eq!(strs(&args), vec!["-", "", "x", "", "", "1", "2", "3", "4", "5", "6", "7", "8", "9", "10", "11", "12"]);
    let args = calendar_osascript_args("", "x", "", "1-2-3T4:5", "1-2-3T4:5", Some(-30)).expect("times read");
    assert_eq!(args[4], "-30");
}

#[test]
fn calendar_refuses_unreadable_times_start_first() {
    assert_eq!(
        calendar_osascript_args("", "x", "", "bad", "2026-06-15T09:00", None),
        Err("Event start time was invalid.".to_string())
    );
    assert_eq!(
        calendar_osascript_args("", "x", "", "2026-06-15T09:00", "bad", None),
        Err("Event end time was invalid.".to_string())
    );
    assert_eq!(
        calendar_osascript_args("", "x", "", "bad", "worse", None),
        Err("Event start time was invalid.".to_string())
    );
}

#[test]
fn failure_detail_prefers_the_error_output() {
    assert_eq!(
        automation_failure_detail(AppleApp::Notes, "  execution error: -1743\n"),
        "execution error: -1743"
    );
    assert_eq!(
        automation_failure_detail(AppleApp::Reminders, " \n"),
        "Apple Reminders automation failed. Grant Chute permission to control Reminders in System Settings > Privacy & Security > Automation."
    );
    assert_eq!(
        automation_failure_detail(AppleApp::Notes, ""),
        "Apple Notes automation failed. Grant Chute permission to control Notes in System Settings > Privacy & Security > Automation."
    );
    assert_eq!(
        automation_failure_detail(AppleApp::Calendar, ""),
        "Apple Calendar automation failed. Grant Chute permission to control Calendar in System Settings > Privacy & Security > Automation."
    );
}

#[test]
fn application_names_messages_and_scripts() {
    assert_eq!(strs(&background_launch_args(AppleApp::Calendar)), vec!["-g", "-j", "-a", "Calendar"]);
    assert_eq!(AppleApp::Reminders.name(), "Reminders");
    assert_eq!(AppleApp::Notes.unavailable_message(), "Apple Notes is only available on macOS.");
    assert_eq!(AppleApp::Reminders.unavailable_message(), "Apple Reminders is only available on macOS.");
    assert_eq!(AppleApp::Calendar.unavailable_message(), "Apple Calendar is only available on macOS.");
    for app in [AppleApp::Reminders, AppleApp::Notes, AppleApp::Calendar] {
        assert!(app.script().starts_with("on run argv\n"));
        assert!(app.script().ends_with("end run"));
    }
    assert!(AppleApp::Reminders.script().contains("tell application \"Reminders\""));
    assert!(AppleApp::Calendar.script().contains("set alarmMin to item 4 of argv"));
}

#[test]
fn container_names_fall_back_to_chute() {
    assert_eq!(container_or_default(""), "Chute");
    assert_eq!(container_or_default(" \u{3000}"), "Chute");
    assert_eq!(container_or_default(" Inbox\n"), "Inbox");
}

#[test]
fn capture_hotkey_is_trimmed_and_checked() {
    let (normalized, shortcut) = prepare_capture_hotkey("  Ctrl+Shift+Space ").expect("a shortcut");
    assert_eq!(normalized, "Ctrl+Shift+Space");
    assert_eq!(Some(shortcut), shortcut_from_text("Ctrl+Shift+Space"));
    assert_ne!(Some(shortcut), shortcut_from_text("F1"));
    assert_eq!(prepare_capture_hotkey("   ").err(), Some(HOTKEY_EMPTY_MESSAGE.to_string()));
    assert_eq!(prepare_capture_hotkey("Ctrl+").err(), Some(HOTKEY_INVALID_MESSAGE.to_string()));
    assert_eq!(prepare_capture_hotkey("NotAKey").err(), Some(HOTKEY_INVALID_MESSAGE.to_string()));
    assert_eq!(
        prepare_capture_hotkey("Ctrl+Shift+Space").err(),
        None
    );
    assert_eq!(HOTKEY_INVALID_MESSAGE, "Invalid hotkey format. Example: Ctrl+Shift+Space");
    assert_eq!(HOTKEY_EMPTY_MESSAGE, "Hotkey cannot be empty");
}

#[test]
fn shortcut_text_is_read_by_global_hotkey() {
    assert!(shortcut_from_text("Alt+K").is_some());
    assert!(shortcut_from_text("CmdOrCtrl+Shift+L").is_some());
    assert!(shortcut_from_text("Shift+Alt").is_none());
    assert!(shortcut_from_text("").is_none());
}

#[test]
fn successful_registration_stores_the_new_hotkey() {
    let out = settle_capture_hotkey("Alt+K", Ok(()), "Ctrl+Shift+Space", shortcut_from_text("Ctrl+Shift+Space"));
    assert!(out.register_fallback.is_none());
    assert_eq!(out.stored.as_deref(), Some("Alt+K"));
    assert_eq!(out.reply, Ok(()));
}

#[test]
fn failed_registration_falls_back_to_the_default() {
    let fallback = shortcut_from_text("Ctrl+Shift+Space");
    let out = settle_capture_hotkey("Alt+K", Err("taken".to_string()), "Ctrl+Shift+Space", fallback);
    assert_eq!(out.register_fallback, fallback);
    assert_eq!(out.stored.as_deref(), Some("Ctrl+Shift+Space"));
    assert_eq!(out.reply, Err("taken".to_string()));
    let out = settle_capture_hotkey("Alt+K", Err("taken".to_string()), "??", None);
    assert!(out.register_fallback.is_none());
    assert!(out.stored.is_none());
    assert_eq!(out.reply, Err("taken".to_string()));
}

#[test]
fn links_are_trimmed_and_blank_ones_refused() {
    assert_eq!(external_url_target("  https://example.com \n"), Ok("https://example.com".to_string()));
    assert_eq!(external_url_target(" "), Err(URL_EMPTY_MESSAGE.to_string()));
    assert_eq!(URL_EMPTY_MESSAGE, "URL cannot be empty");
}
