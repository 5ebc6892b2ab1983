use mbox_viewer::search::Email;
use mbox_viewer::shortcuts::{KeyTarget, ShortcutAction, ShortcutState};
use mbox_viewer::ui::{
    attachment_url, build_search_url, date_display, encode_uri_component, filtered_labels,
    sender_initial, sidebar_lists, LabelPicker, ListState, UiState, LIST_PAGE_SIZE,
};

fn strings(xs: &[&str]) -> Vec<String> {
    xs.iter().map(|x| x.to_string()).collect()
}

fn email(id: &str) -> Email {
    Email {
        id: id.to_string(),
        subject: String::new(),
        sender: String::new(),
        date: String::new(),
        snippet: String::new(),
        labels: vec![],
        has_attachment: false,
    }
}

fn list_of(n: usize) -> ListState {
    let mut l = ListState::new();
    l.apply_page(1, (0..n).map(|i| email(&format!("e{}", i))).collect());
    l
}

fn some(s: &str) -> Option<String> {
    Some(s.to_string())
}

#[test]
fn g_sequences_and_single_keys() {
    let mut st = ShortcutState::new();
    let o = st.handle_key("g", KeyTarget::Other);
    assert_eq!(o.action, None);
    let o = st.handle_key("i", KeyTarget::Other);
    assert_eq!(o.action, Some(ShortcutAction::GoToInbox));
    // The sequence is over: `i` alone does nothing.
    assert_eq!(st.handle_key("i", KeyTarget::Other).action, None);
    assert_eq!(st.handle_key("j", KeyTarget::Nothing).action, Some(ShortcutAction::NextThread));
    assert_eq!(st.handle_key("k", KeyTarget::Other).action, Some(ShortcutAction::PrevThread));
    assert_eq!(st.handle_key("Enter", KeyTarget::Other).action, Some(ShortcutAction::OpenThread));
    assert_eq!(st.handle_key("u", KeyTarget::Other).action, Some(ShortcutAction::BackToList));
    st.handle_key("g", KeyTarget::Other);
    assert_eq!(st.handle_key("#", KeyTarget::Other).action, Some(ShortcutAction::GoToTrash));
    st.handle_key("g", KeyTarget::Other);
    assert_eq!(st.handle_key("n", KeyTarget::Other).action, Some(ShortcutAction::GoToNextPage));
}

#[test]
fn unknown_second_key_ends_the_sequence() {
    let mut st = ShortcutState::new();
    st.handle_key("g", KeyTarget::Other);
    assert_eq!(st.handle_key("x", KeyTarget::Other).action, None);
    assert_eq!(st.handle_key("j", KeyTarget::Other).action, Some(ShortcutAction::NextThread));
}

#[test]
fn help_and_search_keys() {
    let mut st = ShortcutState::new();
    let o = st.handle_key("?", KeyTarget::Other);
    assert_eq!(o.action, Some(ShortcutAction::Help));
    assert!(!o.prevent_default);
    let o = st.handle_key("/", KeyTarget::Other);
    assert_eq!(o.action, Some(ShortcutAction::Search));
    assert!(o.prevent_default);
}

#[test]
fn typing_is_left_alone_but_escape() {
    let mut st = ShortcutState::new();
    assert_eq!(st.handle_key("j", KeyTarget::Input).action, None);
    assert_eq!(st.handle_key("?", KeyTarget::TextArea).action, None);
    let o = st.handle_key("Escape", KeyTarget::Input);
    assert_eq!(o.action, Some(ShortcutAction::CloseHelp));
    assert!(o.blur_target);
    let o = st.handle_key("Esc", KeyTarget::TextArea);
    assert_eq!(o.action, Some(ShortcutAction::CloseHelp));
    assert!(!o.blur_target);
}

#[test]
fn escape_resets_a_pending_g() {
    let mut st = ShortcutState::new();
    st.handle_key("g", KeyTarget::Other);
    st.handle_key("Escape", KeyTarget::Other);
    assert_eq!(st.handle_key("i", KeyTarget::Other).action, None);
}

#[test]
fn shortcuts_change_the_interface_state() {
    let mut ui = UiState::new();
    assert_eq!(ui.selected_label, "Inbox");
    ui.submit_search("hello".to_string());
    assert_eq!(ui.selected_label, "");
    ui.select_email("m1".to_string());
    assert!(!ui.apply_shortcut(ShortcutAction::GoToSent));
    assert_eq!(ui.selected_label, "Sent");
    assert_eq!(ui.search_query, "");
    assert!(ui.selected_email_id.is_none());
    assert!(ui.apply_shortcut(ShortcutAction::Search));
    ui.apply_shortcut(ShortcutAction::Help);
    assert!(ui.help_open);
    ui.apply_shortcut(ShortcutAction::Help);
    assert!(!ui.help_open);
    ui.apply_shortcut(ShortcutAction::GoToLabel);
    assert!(ui.label_selector_open);
    ui.apply_shortcut(ShortcutAction::NextThread);
    assert_eq!(ui.last_shortcut, Some(ShortcutAction::NextThread));
    ui.apply_shortcut(ShortcutAction::GoToAll);
    assert_eq!(ui.selected_label, "ALL");
    ui.select_email("m2".to_string());
    ui.apply_shortcut(ShortcutAction::BackToList);
    assert!(ui.selected_email_id.is_none());
}

#[test]
fn empty_search_keeps_the_label() {
    let mut ui = UiState::new();
    ui.submit_search(String::new());
    assert_eq!(ui.selected_label, "Inbox");
}

#[test]
fn list_navigation() {
    let l = list_of(25);
    assert_eq!(l.navigate(&None, ShortcutAction::NextThread), some("e0"));
    assert_eq!(l.navigate(&some("e3"), ShortcutAction::NextThread), some("e4"));
    assert_eq!(l.navigate(&some("e24"), ShortcutAction::NextThread), None);
    assert_eq!(l.navigate(&some("e0"), ShortcutAction::PrevThread), some("e0"));
    assert_eq!(l.navigate(&some("e5"), ShortcutAction::PrevThread), some("e4"));
    assert_eq!(l.navigate(&some("e3"), ShortcutAction::GoToNextPage), some("e23"));
    assert_eq!(l.navigate(&some("e10"), ShortcutAction::GoToNextPage), some("e24"));
    assert_eq!(l.navigate(&some("e22"), ShortcutAction::GoToPrevPage), some("e2"));
    assert_eq!(l.navigate(&some("e20"), ShortcutAction::GoToPrevPage), some("e0"));
    assert_eq!(l.navigate(&some("zz"), ShortcutAction::NextThread), some("e0"));
    assert_eq!(l.navigate(&some("e3"), ShortcutAction::OpenThread), None);
    assert_eq!(list_of(0).navigate(&None, ShortcutAction::NextThread), None);
}

#[test]
fn list_paging() {
    let mut l = list_of(LIST_PAGE_SIZE);
    assert!(l.has_more);
    assert_eq!(l.emails.len(), 50);
    assert!(!l.maybe_next_page());
    l.sentinel_visible = true;
    assert!(l.maybe_next_page());
    assert_eq!(l.page, 2);
    l.apply_page(2, vec![email("x"), email("y"), email("z")]);
    assert_eq!(l.emails.len(), 53);
    assert!(!l.has_more);
    assert!(!l.wants_more());
    l.reset();
    assert_eq!(l.page, 1);
    assert!(l.emails.is_empty());
    assert!(l.has_more);
}

#[test]
fn search_urls() {
    let e = String::new();
    assert_eq!(
        build_search_url(2, &"Inbox".to_string(), &e, &e, &e),
        "http://localhost:8001/search?page=2&size=50&label=Inbox"
    );
    assert_eq!(
        build_search_url(1, &e, &"a b&c".to_string(), &"2024-01-01".to_string(), &e),
        "http://localhost:8001/search?page=1&size=50&q=a%20b%26c&start_date=2024-01-01"
    );
    assert_eq!(
        build_search_url(-3, &e, &e, &e, &"2024-02-01".to_string()),
        "http://localhost:8001/search?page=-3&size=50&end_date=2024-02-01"
    );
}

#[test]
fn uri_components() {
    assert_eq!(encode_uri_component("a b&c"), "a%20b%26c");
    assert_eq!(encode_uri_component("é"), "%C3%A9");
    assert_eq!(encode_uri_component("-_.!~*'()"), "-_.!~*'()");
    assert_eq!(encode_uri_component("a=b?c#d+e/f"), "a%3Db%3Fc%23d%2Be%2Ff");
    for c in encode_uri_component("x y&z=ü#?").chars() {
        assert!(c.is_ascii_alphanumeric() || "-_.!~*'()%".contains(c));
    }
}

#[test]
fn small_formatting_helpers() {
    assert_eq!(date_display("2025-12-30T12:00:00+00:00"), "2025-12-30");
    assert_eq!(date_display("abc"), "abc");
    assert_eq!(sender_initial("alice"), "A");
    assert_eq!(sender_initial(""), "?");
    assert_eq!(sender_initial("ßig"), "SS");
    assert_eq!(attachment_url("abc/file.pdf"), "http://localhost:8001/attachment/abc/file.pdf");
}

#[test]
fn label_picker() {
    let labels = strings(&["Inbox", "Work", "Workshop", "Personal"]);
    assert_eq!(filtered_labels(&labels, "WORK"), strings(&["Work", "Workshop"]));
    assert_eq!(filtered_labels(&labels, ""), labels);
    assert!(filtered_labels(&labels, "zzz").is_empty());

    let listed = filtered_labels(&labels, "work");
    let mut p = LabelPicker::new();
    p.set_filter("work".to_string());
    let o = p.key("ArrowDown", &listed);
    assert!(o.prevent_default && o.chosen.is_none() && !o.close);
    assert_eq!(p.selected_index, 1);
    p.key("ArrowDown", &listed);
    assert_eq!(p.selected_index, 1);
    p.key("ArrowUp", &listed);
    assert_eq!(p.selected_index, 0);
    p.key("ArrowUp", &listed);
    assert_eq!(p.selected_index, 0);
    p.hover(&"Workshop".to_string(), &listed);
    assert_eq!(p.selected_index, 1);
    p.hover(&"Inbox".to_string(), &listed);
    assert_eq!(p.selected_index, 1);
    let o = p.key("Enter", &listed);
    assert_eq!(o.chosen, some("Workshop"));
    assert!(o.close && o.prevent_default);
    let o = p.key("Escape", &listed);
    assert!(o.close && o.chosen.is_none() && !o.prevent_default);
    let o = p.key("a", &listed);
    assert!(!o.close && o.chosen.is_none() && !o.prevent_default);
    let o = p.key("Enter", &vec![]);
    assert!(!o.close && o.chosen.is_none());
    p.open();
    assert_eq!((p.filter.as_str(), p.selected_index), ("", 0));
}

#[test]
fn sidebar_splits_standard_and_other_labels() {
    let labels = strings(&["Work", "Inbox", "Starred", "Personal", "Sent"]);
    let s = sidebar_lists(&labels);
    assert_eq!(s.standard, strings(&["Inbox", "Sent", "Starred"]));
    assert_eq!(s.others, strings(&["Work", "Personal"]));
    for l in &labels {
        assert!(s.standard.contains(l) != s.others.contains(l));
    }
}
