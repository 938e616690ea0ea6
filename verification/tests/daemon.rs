use hyprkbd::channel::{
    run_write_attempts, switch_layout_command, write_step, WriteAttempt, WriteDecision,
    WriteOutcome,
};
use hyprkbd::events::{parse_event, Event};
use hyprkbd::layout::{default_layout, Layout};
use hyprkbd::state::{AssocTable, DispatcherState};
use hyprkbd::text::{split_after_comma, str_eq, str_has_prefix, trim_str};

#[test]
fn code_of_known_layouts() {
    assert_eq!(Layout::new("English (US)".to_string()).code(), Some("0"));
    assert_eq!(Layout::new("Russian".to_string()).code(), Some("1"));
}

#[test]
fn code_of_unknown_layouts() {
    assert_eq!(Layout::new("German".to_string()).code(), None);
    assert_eq!(Layout::new("".to_string()).code(), None);
    assert_eq!(Layout::new("english (us)".to_string()).code(), None);
    assert_eq!(Layout::new("Russian ".to_string()).code(), None);
}

#[test]
fn layout_name_is_kept_verbatim() {
    let l = Layout::new("AT Translated Set 2".to_string());
    assert_eq!(l.get_layout().as_str(), "AT Translated Set 2");
    let c = l.clone();
    assert_eq!(c.get_layout().as_str(), "AT Translated Set 2");
}

#[test]
fn default_layout_name_and_code() {
    let l = default_layout();
    assert_eq!(l.get_layout().as_str(), "English (US)");
    assert_eq!(l.code(), Some("0"));
}

#[test]
fn switch_command_has_exact_form() {
    let russian = Layout::new("Russian".to_string());
    assert_eq!(
        switch_layout_command(&russian).as_deref(),
        Some("switchxkblayout current 1\n")
    );
    let english = Layout::new("English (US)".to_string());
    assert_eq!(
        switch_layout_command(&english).as_deref(),
        Some("switchxkblayout current 0\n")
    );
    let unknown = Layout::new("German".to_string());
    assert!(switch_layout_command(&unknown).is_none());
}

#[test]
fn parse_focus_change_line() {
    match parse_event("activewindowv2>>5934ef0\n") {
        Event::FocusChange { window_id } => assert_eq!(window_id, "5934ef0"),
        _ => panic!("expected a focus-change event"),
    }
}

#[test]
fn parse_layout_change_line() {
    match parse_event("activelayout>>AT Translated Set 2 keyboard,Russian\n") {
        Event::LayoutChange { layout_name } => assert_eq!(layout_name, "Russian"),
        _ => panic!("expected a layout-change event"),
    }
}

#[test]
fn parse_layout_change_keeps_comma_in_name() {
    match parse_event("activelayout>>kbd,English (US),extra\n") {
        Event::LayoutChange { layout_name } => assert_eq!(layout_name, "English (US),extra"),
        _ => panic!("expected a layout-change event"),
    }
}

#[test]
fn parse_layout_change_without_comma_is_ignored() {
    assert!(matches!(
        parse_event("activelayout>>nocomma\n"),
        Event::Ignored
    ));
}

#[test]
fn parse_close_window_line() {
    match parse_event("closewindow>>5934ef0\n") {
        Event::WindowClose { window_id } => assert_eq!(window_id, "5934ef0"),
        _ => panic!("expected a window-close event"),
    }
}

#[test]
fn parse_overlay_open_line() {
    assert!(matches!(parse_event("openlayer>>wofi\n"), Event::OverlayOpen));
}

#[test]
fn parse_unknown_line_is_ignored() {
    assert!(matches!(parse_event("monitoradded>>DP-1\n"), Event::Ignored));
    assert!(matches!(parse_event("\n"), Event::Ignored));
    assert!(matches!(parse_event(""), Event::Ignored));
}

#[test]
fn assoc_table_set_get_remove() {
    let mut t = AssocTable::new();
    assert!(t.get("w1").is_none());
    t.set("w1".to_string(), Layout::new("Russian".to_string()));
    t.set("w2".to_string(), Layout::new("English (US)".to_string()));
    assert_eq!(t.get("w1").unwrap().get_layout().as_str(), "Russian");
    assert_eq!(t.get("w2").unwrap().get_layout().as_str(), "English (US)");
    t.set("w1".to_string(), Layout::new("German".to_string()));
    assert_eq!(t.get("w1").unwrap().get_layout().as_str(), "German");
    t.remove("w1");
    assert!(t.get("w1").is_none());
    assert_eq!(t.get("w2").unwrap().get_layout().as_str(), "English (US)");
    t.remove("never-seen");
    assert_eq!(t.get("w2").unwrap().get_layout().as_str(), "English (US)");
}

#[test]
fn first_focus_assigns_default_and_switches_once() {
    let mut s = DispatcherState::new();
    let action = s.dispatch("activewindowv2>>W1\n");
    let layout = action.expect("first focus must trigger exactly one switch");
    assert_eq!(layout.get_layout().as_str(), "English (US)");
    let stored = s.windows_layouts.get("W1").expect("W1 must be tracked");
    assert_eq!(stored.get_layout().as_str(), "English (US)");
    assert_eq!(s.current_active_window_id.as_deref(), Some("W1"));
}

#[test]
fn layout_change_updates_only_the_focused_window() {
    let mut s = DispatcherState::new();
    s.dispatch("activewindowv2>>W1\n");
    s.dispatch("activewindowv2>>W2\n");
    let action = s.dispatch("activelayout>>kbd,Russian\n");
    assert!(action.is_none());
    assert_eq!(
        s.windows_layouts.get("W2").unwrap().get_layout().as_str(),
        "Russian"
    );
    assert_eq!(
        s.windows_layouts.get("W1").unwrap().get_layout().as_str(),
        "English (US)"
    );
}

#[test]
fn layout_change_without_focus_changes_nothing() {
    let mut s = DispatcherState::new();
    let action = s.dispatch("activelayout>>kbd,Russian\n");
    assert!(action.is_none());
    assert!(s.windows_layouts.get("kbd").is_none());
    assert!(s.windows_layouts.get("Russian").is_none());
    assert!(s.current_active_window_id.is_none());
}

#[test]
fn close_removes_the_window_and_unknown_close_is_a_noop() {
    let mut s = DispatcherState::new();
    s.dispatch("activewindowv2>>W1\n");
    s.dispatch("activewindowv2>>W2\n");
    let action = s.dispatch("closewindow>>W1\n");
    assert!(action.is_none());
    assert!(s.windows_layouts.get("W1").is_none());
    assert!(s.windows_layouts.get("W2").is_some());
    let action = s.dispatch("closewindow>>never-seen\n");
    assert!(action.is_none());
    assert!(s.windows_layouts.get("W2").is_some());
}

#[test]
fn refocus_switches_to_the_stored_layout() {
    let mut s = DispatcherState::new();
    s.dispatch("activewindowv2>>W1\n");
    s.dispatch("activelayout>>kbd,Russian\n");
    s.dispatch("activewindowv2>>W2\n");
    let action = s.dispatch("activewindowv2>>W1\n");
    let layout = action.expect("re-focus must trigger a switch");
    assert_eq!(layout.get_layout().as_str(), "Russian");
    assert_eq!(
        switch_layout_command(&layout).as_deref(),
        Some("switchxkblayout current 1\n")
    );
}

#[test]
fn overlay_open_switches_to_default_and_touches_nothing() {
    let mut s = DispatcherState::new();
    s.dispatch("activewindowv2>>W1\n");
    s.dispatch("activelayout>>kbd,Russian\n");
    let action = s.dispatch("openlayer>>wofi\n");
    let layout = action.expect("overlay open must trigger a switch");
    assert_eq!(layout.get_layout().as_str(), "English (US)");
    assert_eq!(
        s.windows_layouts.get("W1").unwrap().get_layout().as_str(),
        "Russian"
    );
    assert_eq!(s.current_active_window_id.as_deref(), Some("W1"));
}

#[test]
fn end_to_end_scenario() {
    let mut s = DispatcherState::new();
    let a1 = s.dispatch("activewindowv2>>W1\n");
    assert_eq!(a1.unwrap().get_layout().as_str(), "English (US)");
    let a2 = s.dispatch("activelayout>>kbd,Russian\n");
    assert!(a2.is_none());
    let a3 = s.dispatch("activewindowv2>>W2\n");
    assert_eq!(a3.unwrap().get_layout().as_str(), "English (US)");
    let a4 = s.dispatch("activewindowv2>>W1\n");
    assert_eq!(a4.unwrap().get_layout().as_str(), "Russian");
    let a5 = s.dispatch("closewindow>>W2\n");
    assert!(a5.is_none());
    let a6 = s.dispatch("closewindow>>W1\n");
    assert!(a6.is_none());
    assert!(s.windows_layouts.get("W1").is_none());
    assert!(s.windows_layouts.get("W2").is_none());
}

#[test]
fn write_step_decisions() {
    assert_eq!(write_step(&WriteAttempt::Accepted), WriteDecision::Done);
    assert_eq!(write_step(&WriteAttempt::WouldBlock), WriteDecision::Retry);
    assert_eq!(write_step(&WriteAttempt::Fatal), WriteDecision::Abort);
}

#[test]
fn write_retry_sends_exactly_once_after_n_blocks() {
    let mut attempts = vec![WriteAttempt::WouldBlock; 5];
    attempts.push(WriteAttempt::Accepted);
    attempts.push(WriteAttempt::Accepted);
    attempts.push(WriteAttempt::Fatal);
    let r = run_write_attempts(&attempts);
    assert_eq!(r, WriteOutcome::Sent { attempts_used: 6 });
}

#[test]
fn write_retry_immediate_success_and_failure() {
    assert_eq!(
        run_write_attempts(&vec![WriteAttempt::Accepted]),
        WriteOutcome::Sent { attempts_used: 1 }
    );
    assert_eq!(
        run_write_attempts(&vec![WriteAttempt::WouldBlock, WriteAttempt::Fatal]),
        WriteOutcome::Failed { attempts_used: 2 }
    );
    assert_eq!(
        run_write_attempts(&vec![WriteAttempt::WouldBlock; 3]),
        WriteOutcome::Exhausted
    );
    assert_eq!(run_write_attempts(&Vec::new()), WriteOutcome::Exhausted);
}

#[test]
fn text_helpers() {
    assert!(str_eq("abc", "abc"));
    assert!(!str_eq("abc", "abd"));
    assert!(!str_eq("abc", "ab"));
    assert!(str_has_prefix("activewindowv2>>W1", "activewindowv2>>"));
    assert!(!str_has_prefix("active", "activewindowv2>>"));
    assert_eq!(trim_str("  a b\t\n"), "a b");
    assert_eq!(trim_str("\n"), "");
    assert_eq!(split_after_comma("kbd,Russian"), Some("Russian".to_string()));
    assert_eq!(split_after_comma("a,b,c"), Some("b,c".to_string()));
    assert_eq!(split_after_comma("nocomma"), None);
    assert_eq!(split_after_comma("ends,"), Some("".to_string()));
}
