use dropnote::clock::{format_clock_label, LocalTime};
use dropnote::hotkey::{hotkey_fired, hotkey_hint};
use dropnote::store::{matches_query, Entry};
use dropnote::tray::{icon_event_action, menu_event_action, IconEvent, TrayEvent};
use dropnote::view::{id_label, react, shown_in_list, SubmitOutcome};

#[test]
fn id_labels() {
    assert_eq!(id_label(5), "#5");
    assert_eq!(id_label(1234567890), "#1234567890");
    assert_eq!(id_label(0), "#0");
    assert_eq!(id_label(-3), "#-3");
    assert_eq!(id_label(i64::MIN), "#-9223372036854775808");
}

#[test]
fn hotkey_hints() {
    assert_eq!(hotkey_hint(false), "Ctrl+Shift+J");
    assert_eq!(hotkey_hint(true), "⌘⇧J");
}

#[test]
fn hotkey_fires_only_on_own_press() {
    assert!(!hotkey_fired(&vec![], 7));
    assert!(!hotkey_fired(&vec![(7, false), (8, true)], 7));
    assert!(hotkey_fired(&vec![(8, true), (7, true), (7, false)], 7));
}

#[test]
fn clock_labels() {
    assert_eq!(format_clock_label(0), "0:00");
    assert_eq!(format_clock_label((9 * 60 + 14) * 60_000), "9:14");
    assert_eq!(format_clock_label((17 * 60 + 42) * 60_000 + 59_999), "17:42");
    // Before the epoch: 1969-12-31 23:59.
    assert_eq!(format_clock_label(-1), "23:59");
    assert_eq!(format_clock_label(-86_400_000 + 60_000), "0:01");
}

#[test]
fn time_label_follows_local_clock() {
    let e = Entry {
        id: 1,
        text: "x".into(),
        created_at: 1_700_000_000_000,
        due_today: false,
        last_resurfaced_at: None,
    };
    let t = LocalTime::at(e.created_at);
    let local_ms = t.utc_ms + t.offset_secs as i64 * 1000;
    assert_eq!(e.time_label(), format_clock_label(local_ms));
    let now = LocalTime::at(e.created_at);
    assert!(!e.is_due_today_now(now));
    let due = Entry { due_today: true, ..e.clone() };
    assert!(due.is_due_today_now(now));
    assert!(!due.is_due_today_now(LocalTime::at(e.created_at + 3 * 86_400_000)));
}

#[test]
fn query_matching() {
    assert!(matches_query("PR レビュー", "pr"));
    assert!(matches_query("abc", ""));
    assert!(!matches_query("abc", "abd"));
    assert!(shown_in_list("anything", false, "zzz"));
    assert!(!shown_in_list("anything", true, "zzz"));
    assert!(shown_in_list("Milk Tea", true, "milk"));
}

#[test]
fn tray_menu_quits_only_from_quit_item() {
    assert_eq!(menu_event_action("quit-1", "quit-1"), Some(TrayEvent::QuitRequested));
    assert_eq!(menu_event_action("other", "quit-1"), None);
    assert_eq!(menu_event_action("", "quit-1"), None);
}

#[test]
fn tray_icon_left_release_activates() {
    let click = |left_button, button_up| IconEvent::Click { left_button, button_up };
    assert_eq!(icon_event_action(click(true, true)), Some(TrayEvent::Activated));
    assert_eq!(icon_event_action(click(true, false)), None);
    assert_eq!(icon_event_action(click(false, true)), None);
    assert_eq!(icon_event_action(IconEvent::Other), None);
}

#[test]
fn reactions_to_submitted_lines() {
    let r = react(SubmitOutcome::Saved, "", "");
    assert!(r.clear_input && r.status.is_none() && !r.clear_resurface);

    let r = react(SubmitOutcome::SaveFailed, "disk full", "");
    assert!(!r.clear_input);
    assert_eq!(r.status.as_deref(), Some("保存失敗: disk full"));

    let r = react(SubmitOutcome::NotFound(42), "", "");
    assert!(!r.clear_input);
    assert_eq!(r.status.as_deref(), Some("#42 が見つかりません"));

    let r = react(SubmitOutcome::DeleteFailed, "locked", "");
    assert_eq!(r.status.as_deref(), Some("削除失敗: locked"));

    assert_eq!(react(SubmitOutcome::DelUsage, "", "").status.as_deref(), Some("/del <ID> で削除"));
    assert_eq!(react(SubmitOutcome::DelBadId, "", "").status.as_deref(), Some("ID は数字"));

    let r = react(SubmitOutcome::Searched, "", "");
    assert!(!r.clear_input && r.status.is_none());
    assert!(react(SubmitOutcome::SearchCleared, "", "").clear_input);
    assert!(react(SubmitOutcome::DevModeSet, "", "").clear_input);
}

#[test]
fn deleting_the_shown_resurfaced_entry_clears_its_panel() {
    let r = react(SubmitOutcome::Deleted(7), "", "#7");
    assert!(r.clear_input && r.clear_resurface && r.status.is_none());
    assert!(!react(SubmitOutcome::Deleted(7), "", "#70").clear_resurface);
    assert!(!react(SubmitOutcome::Deleted(7), "", "").clear_resurface);
    assert!(!react(SubmitOutcome::NotFound(7), "", "#7").clear_resurface);
}
