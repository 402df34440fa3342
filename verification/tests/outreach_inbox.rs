use termsuite::outreach::db::CachedEmail;
use termsuite::outreach::tui::{
    cell, email_text, list_date, list_row, pad_right, sender_label, strip_html, subject_label,
    truncate, unread_marker, App, Focus, Key,
};

fn mail(id: &str) -> CachedEmail {
    CachedEmail {
        id: id.to_string(),
        subject: Some(format!("Subject {}", id)),
        from_name: None,
        from_addr: Some("bob@example.org".to_string()),
        preview: Some("preview".to_string()),
        body: None,
        content_type: None,
        received_at: Some("2024-05-06T07:08:09Z".to_string()),
        is_read: false,
    }
}

fn inbox(n: usize) -> App {
    App::new((0..n).map(|i| mail(&i.to_string())).collect())
}

#[test]
fn strip_html_drops_tags() {
    assert_eq!(strip_html("<p>Hello <b>world</b></p>"), "Hello world\n");
    assert_eq!(strip_html("a<br>b"), "ab\n");
    assert_eq!(strip_html(""), "");
    assert_eq!(strip_html("line1\r\nline2"), "line1\nline2\n");
}

#[test]
fn strip_html_collapses_blank_lines() {
    assert_eq!(strip_html("a\n\n\n\n\nb"), "a\n\n\nb\n");
    assert_eq!(strip_html("a\n \n\t\nb"), "a\n\n\nb\n");
    assert_eq!(strip_html("\n\n\n\nx"), "\n\nx\n");
    let out = strip_html("<div>\n\n\n\n<p>t</p>\n\n\n\n\n</div>");
    assert!(!out.contains("\n\n\n\n"));
    assert!(!out.contains('<') && !out.contains('>'));
}

#[test]
fn truncate_cuts_by_bytes() {
    assert_eq!(truncate("hello", 10), "hello");
    assert_eq!(truncate("hello", 3), "hel");
    assert_eq!(truncate("héllo", 3), "hé");
    assert_eq!(pad_right("ab", 5), "ab   ");
    assert_eq!(pad_right("abcdef", 3), "abcdef");
    assert_eq!(pad_right("é", 3), "é  ");
    assert_eq!(cell("abcdef", 4), "abcd");
    assert_eq!(cell("ab", 4), "ab  ");
}

#[test]
fn list_columns() {
    let m = mail("1");
    assert_eq!(sender_label(&m), "bob@example.org");
    assert_eq!(subject_label(&m), "Subject 1");
    assert_eq!(unread_marker(&m), "● ");
    assert_eq!(list_date(&m), "2024-05-06");
    let row = list_row(&m);
    assert_eq!(row.marker, "● ");
    assert_eq!(row.from, format!("{:<20}", "bob@example.org"));
    assert_eq!(row.subject, format!("{:<40}", "Subject 1"));
    assert_eq!(row.date, "  2024-05-06");
    let mut read = mail("2");
    read.is_read = true;
    read.from_name = Some("A very long sender name indeed".to_string());
    read.subject = None;
    read.received_at = Some("short".to_string());
    let row = list_row(&read);
    assert_eq!(row.marker, "  ");
    assert_eq!(row.from, "A very long sender n");
    assert_eq!(row.subject, format!("{:<40}", "(no subject)"));
    assert_eq!(row.date, "  ");
    let mut anon = mail("3");
    anon.from_addr = None;
    anon.received_at = None;
    assert_eq!(sender_label(&anon), "Unknown");
    assert_eq!(list_date(&anon), "");
}

#[test]
fn body_panel_text() {
    assert_eq!(email_text(None), "No email selected.");
    let mut m = mail("1");
    m.body = Some("<p>Hi</p>".to_string());
    let t = email_text(Some(&m));
    let expected = format!(
        "Subject: Subject 1\nFrom:    bob@example.org\nDate:    2024-05-06T07:08:09Z\n{}\n\nHi\n",
        "─".repeat(60)
    );
    assert_eq!(t, expected);
    let mut bare = mail("2");
    bare.subject = None;
    bare.preview = None;
    bare.received_at = None;
    let t = email_text(Some(&bare));
    assert!(t.starts_with("Subject: (no subject)\n"));
    assert!(t.contains("Date:    Unknown date\n"));
    assert!(t.ends_with("\n\n(no content)\n"));
}

#[test]
fn new_inbox_selects_first_email() {
    let a = inbox(3);
    assert_eq!(a.selected, Some(0));
    assert_eq!(a.focus, Focus::EmailList);
    assert_eq!(a.selected_email().unwrap().id, "0");
    let empty = inbox(0);
    assert_eq!(empty.selected, None);
    assert!(empty.selected_email().is_none());
}

#[test]
fn navigation_stays_in_the_list() {
    let mut a = inbox(3);
    a.prev_email();
    assert_eq!(a.selected, Some(0));
    a.next_email();
    a.next_email();
    a.next_email();
    assert_eq!(a.selected, Some(2));
    let mut empty = inbox(0);
    empty.next_email();
    assert_eq!(empty.selected, Some(0));
    assert!(empty.selected_email().is_none());
}

#[test]
fn down_then_up_returns() {
    let mut a = inbox(3);
    assert!(!a.handle_key(Key::Down, false));
    assert_eq!(a.selected, Some(1));
    assert!(!a.handle_key(Key::Char('k'), false));
    assert_eq!(a.selected, Some(0));
}

#[test]
fn keys_switch_focus_and_scroll() {
    let mut a = inbox(2);
    a.handle_key(Key::Char('j'), false);
    a.scroll_offset = 7;
    a.handle_key(Key::Enter, false);
    assert_eq!(a.focus, Focus::EmailBody);
    assert_eq!(a.scroll_offset, 0);
    a.handle_key(Key::Down, false);
    a.handle_key(Key::Char('j'), false);
    assert_eq!(a.scroll_offset, 6);
    a.handle_key(Key::Up, false);
    assert_eq!(a.scroll_offset, 3);
    a.handle_key(Key::Char('k'), false);
    a.handle_key(Key::Char('k'), false);
    assert_eq!(a.scroll_offset, 0);
    assert_eq!(a.selected, Some(1));
    a.handle_key(Key::Esc, false);
    assert_eq!(a.focus, Focus::EmailList);
    a.handle_key(Key::Tab, false);
    assert_eq!(a.focus, Focus::EmailBody);
    a.handle_key(Key::Tab, false);
    assert_eq!(a.focus, Focus::EmailList);
    a.scroll_offset = u16::MAX - 1;
    a.scroll_down();
    assert_eq!(a.scroll_offset, u16::MAX);
}

#[test]
fn quit_keys() {
    let mut a = inbox(1);
    assert!(a.handle_key(Key::Char('q'), false));
    assert!(!a.handle_key(Key::Char('c'), false));
    assert!(a.handle_key(Key::Char('c'), true));
    a.handle_key(Key::Enter, false);
    assert!(a.handle_key(Key::Char('q'), false));
    assert!(!a.handle_key(Key::Other, false));
}

#[test]
fn strip_html_splits_lines_like_str_lines() {
    for x in ["a\r", "a\r\nb", "a\nb\r\n", "x\r\r\ny", "\ra\n", "one", "é\nü\r\n"] {
        let expected: String = x.lines().map(|l| format!("{}\n", l)).collect();
        assert_eq!(strip_html(x), expected, "for {:?}", x);
    }
}
