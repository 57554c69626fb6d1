use temm1e::heartbeat::{is_within_active_hours, parse_active_hours};

#[test]
fn parse_active_hours_normal() {
    assert_eq!(parse_active_hours("08:00-22:00"), Some((8, 0, 22, 0)));
    assert_eq!(parse_active_hours("09:30-17:45"), Some((9, 30, 17, 45)));
}

#[test]
fn parse_active_hours_overnight() {
    assert_eq!(parse_active_hours("22:00-06:00"), Some((22, 0, 6, 0)));
}

#[test]
fn parse_active_hours_invalid() {
    assert_eq!(parse_active_hours("invalid"), None);
    assert_eq!(parse_active_hours("08:00"), None);
    assert_eq!(parse_active_hours(""), None);
}

#[test]
fn active_hours_always_true_for_bad_format() {
    // Invalid format should not block heartbeats
    // Invalid format should not block heartbeats, at any time of day.
    for (h, m) in [(0, 0), (3, 0), (12, 30), (23, 59)] {
        assert!(is_within_active_hours("garbage", h, m));
    }
}

use temm1e::heartbeat::{
    checklist_message, heartbeat_message_id, interval_secs, keeps_running,
    tick_step, HeartbeatConfig, HeartbeatRunner, SendOutcome, TickStep,
};

#[test]
fn parse_active_hours_trims_and_accepts_plus() {
    assert_eq!(parse_active_hours(" 08:00 - +22:05 "), Some((8, 0, 22, 5)));
    assert_eq!(parse_active_hours("08:00-22:00-23:00"), None);
    assert_eq!(parse_active_hours("8:0:0-9:00"), None);
    assert_eq!(parse_active_hours("08:00-22:-1"), None);
    assert_eq!(parse_active_hours("4294967296:00-1:00"), None);
    assert_eq!(parse_active_hours("4294967295:00-1:00"), Some((4294967295, 0, 1, 0)));
}

#[test]
fn window_normal_and_overnight() {
    assert!(is_within_active_hours("08:00-22:00", 8, 0));
    assert!(!is_within_active_hours("08:00-22:00", 22, 0));
    assert!(!is_within_active_hours("08:00-22:00", 7, 59));
    assert!(is_within_active_hours("22:00-06:00", 23, 30));
    assert!(is_within_active_hours("22:00-06:00", 5, 59));
    assert!(!is_within_active_hours("22:00-06:00", 6, 0));
    assert!(is_within_active_hours("garbage", 3, 0));
}

#[test]
fn window_and_reverse_split_the_day() {
    for (h, m) in [(0, 0), (7, 59), (8, 0), (12, 30), (21, 59), (22, 0), (23, 59)] {
        let a = is_within_active_hours("08:00-22:00", h, m);
        let b = is_within_active_hours("22:00-08:00", h, m);
        assert!(a != b);
    }
    assert!(!is_within_active_hours("09:00-09:00", 9, 0));
}

#[test]
fn whole_day_and_empty_windows() {
    for (h, m) in [(0, 0), (12, 0), (23, 59)] {
        assert!(is_within_active_hours("00:00-24:00", h, m));
        assert!(!is_within_active_hours("00:00-00:00", h, m));
    }
}

#[test]
fn tick_decisions() {
    assert_eq!(tick_step(false, true), TickStep::Skip);
    assert_eq!(tick_step(true, true), TickStep::RemoveOkMarker);
    assert_eq!(tick_step(true, false), TickStep::ReadChecklist);
    assert!(keeps_running(SendOutcome::Sent));
    assert!(keeps_running(SendOutcome::Full));
    assert!(!keeps_running(SendOutcome::Closed));
}

#[test]
fn checklist_message_text() {
    assert!(checklist_message(None).is_none());
    assert!(checklist_message(Some(" \n\t ")).is_none());
    let text = checklist_message(Some("- [ ] Do something\n- [ ] Do another thing")).unwrap();
    assert!(text.starts_with("HEARTBEAT — You are running autonomously."));
    assert!(text.contains("\n\n---\n\n- [ ] Do something\n- [ ] Do another thing\n\n---\n\nInstructions:\n"));
    assert!(text.ends_with("- Be concise in responses — this is autonomous execution"));
}

#[test]
fn message_ids() {
    assert_eq!(heartbeat_message_id(1700000000), "heartbeat-1700000000");
    assert_eq!(heartbeat_message_id(0), "heartbeat-0");
    assert_eq!(heartbeat_message_id(-5), "heartbeat--5");
    assert_eq!(heartbeat_message_id(i64::MIN), "heartbeat--9223372036854775808");
}

#[test]
fn intervals() {
    assert_eq!(interval_secs("1s"), 1);
    assert_eq!(interval_secs("30m"), 1800);
    assert_eq!(interval_secs(" 2h "), 7200);
    assert_eq!(interval_secs("1d"), 86400);
    assert_eq!(interval_secs("abc"), 1800);
    assert_eq!(interval_secs("m"), 1800);
    assert_eq!(interval_secs("99999999999999999999s"), 1800);
}

#[test]
fn runner_keeps_its_settings() {
    let config = HeartbeatConfig {
        enabled: true,
        interval: "1s".to_string(),
        checklist: "HEARTBEAT.md".to_string(),
        report_to: None,
        active_hours: None,
    };
    let runner = HeartbeatRunner::new(config, std::path::PathBuf::from("/tmp/ws"), "test-chat".to_string());
    assert_eq!(runner.chat_id(), "test-chat");
    assert_eq!(runner.config().checklist, "HEARTBEAT.md");
    assert!(runner.active_at(3, 0));
    let night = HeartbeatConfig {
        enabled: true,
        interval: "1s".to_string(),
        checklist: "HEARTBEAT.md".to_string(),
        report_to: None,
        active_hours: Some("08:00-22:00".to_string()),
    };
    let runner = HeartbeatRunner::new(night, std::path::PathBuf::from("/tmp/ws"), "test-chat".to_string());
    assert!(!runner.active_at(3, 0));
    assert!(runner.active_at(9, 15));
}

#[test]
fn heartbeat_skips_when_no_checklist() {
    // In the window, no marker: the checklist is read; it is missing, so
    // nothing is sent.
    assert_eq!(tick_step(true, false), TickStep::ReadChecklist);
    assert!(checklist_message(None).is_none());
}

#[test]
fn heartbeat_sends_when_checklist_exists() {
    assert_eq!(tick_step(true, false), TickStep::ReadChecklist);
    let runner = HeartbeatRunner::new(test_config(), std::path::PathBuf::from("/tmp/ws"), "test-chat".to_string());
    let msg = runner
        .tick_message(Some("- [ ] Do something\n- [ ] Do another thing"), 1700000000)
        .expect("Should send heartbeat");
    assert_eq!(msg.channel, "heartbeat");
    assert!(msg.text.unwrap().contains("Do something"));
}

#[test]
fn heartbeat_ok_suppression() {
    // First tick: the marker is present, so it is removed and the tick skipped.
    assert_eq!(tick_step(true, true), TickStep::RemoveOkMarker);
    // Second tick: the marker is gone, so the checklist is sent.
    assert_eq!(tick_step(true, false), TickStep::ReadChecklist);
    let msg = checklist_message(Some("- [ ] Task")).expect("Should send after suppression");
    assert!(msg.contains("Task"));
}

fn test_config() -> HeartbeatConfig {
    HeartbeatConfig {
        enabled: true,
        interval: "1s".to_string(),
        checklist: "HEARTBEAT.md".to_string(),
        report_to: None,
        active_hours: None,
    }
}

#[test]
fn tick_message_fields() {
    let runner = HeartbeatRunner::new(test_config(), std::path::PathBuf::from("/tmp/ws"), "test-chat".to_string());
    assert!(runner.tick_message(None, 5).is_none());
    assert!(runner.tick_message(Some("  \n "), 5).is_none());
    let m = runner.tick_message(Some("- [ ] Task"), 1700000000).unwrap();
    assert_eq!(m.id, "heartbeat-1700000000");
    assert_eq!(m.channel, "heartbeat");
    assert_eq!(m.chat_id, "test-chat");
    assert_eq!(m.user_id, "system");
    assert!(m.username.is_none());
    assert!(m.attachments.is_empty());
    assert!(m.reply_to.is_none());
    assert_eq!(m.timestamp, 1700000000);
    assert_eq!(m.text, checklist_message(Some("- [ ] Task")));
}
