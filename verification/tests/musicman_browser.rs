use termsuite::musicman::app::{ActivePanel, App, AppMode, Effect};
use termsuite::musicman::config::Config;
use termsuite::musicman::file_browser::{sort_listing, DirEntry, FileBrowser, FileNode, FolderAction};
use termsuite::musicman::view::{
    action_row, centered_origin, confirm_text, key_bar_text, recent_messages, row_label,
    status_line,
};

fn entry(path: &str, is_dir: bool) -> DirEntry {
    DirEntry { path: path.to_string(), is_dir }
}

fn root_listing() -> Vec<DirEntry> {
    vec![
        entry("/m/zeta.mp3", false),
        entry("/m/Beta", true),
        entry("/m/alpha.flac", false),
        entry("/m/Alpha", true),
    ]
}

fn paths(b: &FileBrowser) -> Vec<String> {
    b.nodes.iter().map(|n| n.path.clone()).collect()
}

#[test]
fn listing_puts_directories_first_then_names() {
    let sorted = sort_listing(root_listing());
    let order: Vec<&str> = sorted.iter().map(|e| e.path.as_str()).collect();
    assert_eq!(order, vec!["/m/Alpha", "/m/Beta", "/m/alpha.flac", "/m/zeta.mp3"]);
}

#[test]
fn listing_sort_is_stable_for_equal_names() {
    let sorted = sort_listing(vec![entry("/x/a", false), entry("/y/a", false), entry("/x/0", false)]);
    let order: Vec<&str> = sorted.iter().map(|e| e.path.as_str()).collect();
    assert_eq!(order, vec!["/x/0", "/x/a", "/y/a"]);
}

#[test]
fn new_node_takes_name_from_path() {
    let n = FileNode::new("/music/Album/01 Song.mp3".to_string(), 2, false);
    assert_eq!(n.name, "01 Song.mp3");
    assert_eq!(n.depth, 2);
    assert!(!n.expanded && !n.children_loaded && !n.date_order_enabled);
    let r = FileNode::new("..".to_string(), 0, true);
    assert_eq!(r.name, "..");
}

#[test]
fn actions_depend_on_directories() {
    assert_eq!(FolderAction::available_for(true).len(), 6);
    assert_eq!(
        FolderAction::available_for(false),
        vec![FolderAction::FetchMetadata, FolderAction::CleanMetadata, FolderAction::ConvertToM4A]
    );
    assert_eq!(FolderAction::WriteBack.label(), "[w] Write back to source");
}

#[test]
fn moving_stays_inside_the_rows() {
    let mut b = FileBrowser::new("/m".to_string(), root_listing());
    assert_eq!(b.selected, 0);
    b.move_up();
    assert_eq!(b.selected, 0);
    for _ in 0..10 {
        b.move_down();
    }
    assert_eq!(b.selected, 3);
    assert_eq!(b.selected_path().map(|s| s.as_str()), Some("/m/zeta.mp3"));
}

#[test]
fn expand_then_collapse_restores_rows() {
    let mut b = FileBrowser::new("/m".to_string(), root_listing());
    let before = paths(&b);
    b.expand_selected(vec![entry("/m/Alpha/02.mp3", false), entry("/m/Alpha/01.mp3", false)]);
    assert_eq!(
        paths(&b),
        vec!["/m/Alpha", "/m/Alpha/01.mp3", "/m/Alpha/02.mp3", "/m/Beta", "/m/alpha.flac", "/m/zeta.mp3"]
    );
    assert!(b.nodes[0].expanded && b.nodes[0].children_loaded);
    assert_eq!(b.nodes[1].depth, 1);
    b.collapse_selected();
    assert_eq!(paths(&b), before);
    assert!(!b.nodes[0].expanded);
    assert!(b.nodes[0].children_loaded);
}

#[test]
fn collapsing_a_child_collapses_its_parent() {
    let mut b = FileBrowser::new("/m".to_string(), root_listing());
    b.expand_selected(vec![entry("/m/Alpha/01.mp3", false)]);
    b.move_down();
    assert_eq!(b.selected, 1);
    b.collapse_selected();
    assert_eq!(b.selected, 0);
    assert_eq!(b.nodes.len(), 4);
}

#[test]
fn expanding_a_file_does_nothing() {
    let mut b = FileBrowser::new("/m".to_string(), root_listing());
    b.move_down();
    b.move_down();
    b.expand_selected(vec![entry("/m/alpha.flac/x", false)]);
    assert_eq!(b.nodes.len(), 4);
}

#[test]
fn toggling_twice_restores_the_flag() {
    let mut b = FileBrowser::new("/m".to_string(), root_listing());
    b.toggle_date_order();
    assert!(b.nodes[0].date_order_enabled);
    b.toggle_date_order();
    assert!(!b.nodes[0].date_order_enabled);
}

#[test]
fn empty_browser_has_no_selection() {
    let mut b = FileBrowser::new("/empty".to_string(), vec![]);
    assert_eq!(b.selected_path(), None);
    b.move_down();
    b.collapse_selected();
    b.toggle_date_order();
    assert_eq!(b.nodes.len(), 0);
    assert_eq!(status_line(&b), "No selection");
}

fn app() -> App {
    App::new(Config::default(), "/m".to_string(), "/w".to_string(), root_listing())
}

#[test]
fn app_starts_with_greeting() {
    let a = app();
    assert_eq!(
        a.status_messages,
        vec![
            "Welcome to musicman! Navigate with hjkl, Tab to switch panels.".to_string(),
            "Source: /m".to_string(),
            "Working copy: /w".to_string(),
        ]
    );
    assert!(matches!(a.mode, AppMode::Normal));
    assert_eq!(a.active_panel, ActivePanel::Browser);
}

#[test]
fn keys_drive_the_browser() {
    let mut a = app();
    assert!(matches!(a.handle_key('j', true), Effect::Nothing));
    assert_eq!(a.browser.selected, 1);
    assert!(matches!(a.handle_key('k', true), Effect::Nothing));
    match a.handle_key('l', true) {
        Effect::ListDirectory(p) => assert_eq!(p, "/m/Alpha"),
        _ => panic!("expected a listing request"),
    }
    a.finish_expand(vec![entry("/m/Alpha/a.mp3", false)]);
    assert_eq!(a.status_messages.last().unwrap(), "Expanded: Alpha (1 items)");
    assert!(matches!(a.handle_key('h', true), Effect::Nothing));
    assert_eq!(a.status_messages.last().unwrap(), "Collapsed.");
    assert_eq!(a.browser.nodes.len(), 4);
    a.handle_key('q', true);
    assert!(a.should_quit);
}

#[test]
fn tab_switches_panels_and_back() {
    let mut a = app();
    a.handle_key('\t', true);
    assert_eq!(a.active_panel, ActivePanel::Actions);
    a.handle_key('\t', true);
    assert_eq!(a.active_panel, ActivePanel::Browser);
}

#[test]
fn action_shortcuts_ask_for_work() {
    let mut a = app();
    a.handle_key('\t', true);
    match a.handle_key('c', true) {
        Effect::CleanDirectory(p) => assert_eq!(p, "/m/Alpha"),
        _ => panic!("expected a clean request"),
    }
    assert_eq!(a.status_messages.last().unwrap(), "[ ] Cleaning metadata: /m/Alpha");
    a.finish_clean(Ok(3));
    assert_eq!(a.status_messages.last().unwrap(), "[✓] Cleaned 3 files.");
    a.finish_clean(Err("boom".to_string()));
    assert_eq!(a.status_messages.last().unwrap(), "[✗] Clean failed: boom");
    assert!(matches!(a.handle_key('v', true), Effect::Nothing));
    assert_eq!(
        a.status_messages.last().unwrap(),
        "[!] Conversion is disabled in config.toml (conversion.enabled = false). Enable it first."
    );
    a.handle_key('f', true);
    let n = a.status_messages.len();
    assert_eq!(a.status_messages[n - 2], "[ ] Fetching metadata for Alpha ...");
    assert_eq!(a.status_messages[n - 1], "[!] Metadata fetch not yet wired to async runtime.");
}

#[test]
fn conversion_uses_the_configured_bitrate() {
    let mut config = Config::default();
    config.conversion.enabled = true;
    let mut a = App::new(config, "/m".to_string(), "/w".to_string(), root_listing());
    a.handle_key('\t', true);
    match a.handle_key('v', true) {
        Effect::ConvertDirectory(p, b) => {
            assert_eq!(p, "/m/Alpha");
            assert_eq!(b, "320k");
        }
        _ => panic!("expected a conversion request"),
    }
    assert_eq!(a.status_messages.last().unwrap(), "[ ] Converting FLAC→M4A in Alpha ...");
    a.finish_convert(Ok(2));
    assert_eq!(a.status_messages.last().unwrap(), "[✓] Converted 2 files.");
}

#[test]
fn date_order_toggles_and_reports() {
    let mut a = app();
    a.handle_key('\t', true);
    match a.handle_key('d', true) {
        Effect::DateOrder(p) => assert_eq!(p, "/m/Alpha"),
        _ => panic!("expected a date-order request"),
    }
    assert!(a.browser.nodes[0].date_order_enabled);
    a.finish_date_order(Ok(5));
    assert_eq!(a.status_messages.last().unwrap(), "[✓] Numbered 5 tracks by date.");
    assert!(matches!(a.handle_key('d', true), Effect::Nothing));
    assert!(!a.browser.nodes[0].date_order_enabled);
    assert_eq!(
        a.status_messages.last().unwrap(),
        "Date-order track numbering disabled for this folder."
    );
}

#[test]
fn write_back_asks_first() {
    let mut a = app();
    a.handle_key('\t', true);
    a.handle_key('w', true);
    match &a.mode {
        AppMode::ConfirmDialog { message, .. } => {
            assert_eq!(message, "Write working copy back to source? This modifies original files.")
        }
        _ => panic!("expected a confirmation"),
    }
    a.handle_key('x', true);
    assert!(matches!(a.mode, AppMode::ConfirmDialog { .. }));
    a.handle_key('n', true);
    assert!(matches!(a.mode, AppMode::Normal));
    assert_eq!(a.status_messages.last().unwrap(), "Cancelled.");
    a.handle_key('w', true);
    a.handle_key('Y', true);
    assert!(matches!(a.mode, AppMode::Normal));
    assert_eq!(a.status_messages.last().unwrap(), "[!] Write-back not yet implemented.");
}

#[test]
fn export_popup_opens_and_closes() {
    let mut a = app();
    a.handle_key('\t', true);
    a.handle_key('e', true);
    assert!(matches!(a.mode, AppMode::ExportPopup));
    a.handle_key('x', true);
    assert!(matches!(a.mode, AppMode::ExportPopup));
    a.handle_key('\x1b', true);
    assert!(matches!(a.mode, AppMode::Normal));
}

#[test]
fn action_cursor_moves_within_the_list() {
    let mut a = app();
    a.handle_key('\t', true);
    a.handle_key('k', false);
    assert_eq!(a.action_cursor, 0);
    for _ in 0..10 {
        a.handle_key('j', false);
    }
    assert_eq!(a.action_cursor, 2);
    match a.handle_key('\r', false) {
        Effect::Nothing => {}
        _ => panic!("convert is disabled by default"),
    }
}

#[test]
fn status_log_keeps_the_last_hundred() {
    let mut a = app();
    for i in 0..150 {
        a.push_status(format!("m{}", i));
    }
    assert_eq!(a.status_messages.len(), 100);
    assert_eq!(a.status_messages[0], "m50");
    assert_eq!(a.status_messages[99], "m149");
    let recent = recent_messages(&a.status_messages);
    assert_eq!(recent.len(), 20);
    assert_eq!(recent[0], "m130");
    assert_eq!(recent[19], "m149");
}

#[test]
fn screen_texts() {
    let mut b = FileBrowser::new("/m".to_string(), root_listing());
    assert_eq!(row_label(&b.nodes[0]), "▶ Alpha");
    assert_eq!(status_line(&b), "Directory: /m/Alpha");
    b.toggle_date_order();
    assert_eq!(status_line(&b), "Directory: /m/Alpha | Date-order: ON");
    assert_eq!(row_label(&b.nodes[0]), "▶ Alpha [D]");
    b.expand_selected(vec![entry("/m/Alpha/x.mp3", false)]);
    assert_eq!(row_label(&b.nodes[0]), "▼ Alpha [D]");
    assert_eq!(row_label(&b.nodes[1]), "    x.mp3");
    assert_eq!(action_row(FolderAction::DateOrderTracknumbers, true), "[d] Date-order track numbers  ✓ ON");
    assert_eq!(action_row(FolderAction::DateOrderTracknumbers, false), "[d] Date-order track numbers");
    assert_eq!(action_row(FolderAction::ExportToIpod, true), "[e] Export to iPod");
    assert_eq!(
        key_bar_text(ActivePanel::Browser, 'q'),
        " hjkl: navigate/expand  Tab: → Actions  q: quit"
    );
    assert_eq!(confirm_text("Sure?"), "Sure?\n\n[y] Yes   [n] No");
    assert_eq!(centered_origin(80, 24, 50, 5), (15, 9));
    assert_eq!(centered_origin(40, 3, 50, 5), (0, 0));
}

#[test]
fn enter_runs_the_action_under_the_cursor() {
    let mut a = app();
    a.handle_key('\t', true);
    for _ in 0..4 {
        a.handle_key('j', true);
    }
    assert_eq!(a.action_cursor, 4);
    a.handle_key('\r', true);
    assert!(matches!(a.mode, AppMode::ExportPopup));
    let mut b = app();
    b.handle_key('\t', true);
    for _ in 0..9 {
        b.handle_key('j', true);
    }
    assert_eq!(b.action_cursor, 5);
    b.handle_key('k', true);
    assert_eq!(b.action_cursor, 4);
}

#[test]
fn shortcuts_work_from_the_browser_panel() {
    let mut a = app();
    assert_eq!(a.active_panel, ActivePanel::Browser);
    a.handle_key('e', true);
    assert!(matches!(a.mode, AppMode::ExportPopup));
    a.handle_key('q', true);
    assert!(matches!(a.mode, AppMode::Normal));
    match a.handle_key('c', true) {
        Effect::CleanDirectory(p) => assert_eq!(p, "/m/Alpha"),
        _ => panic!("expected a clean request"),
    }
    assert!(matches!(a.handle_key('x', true), Effect::Nothing));
    let mut empty = App::new(Config::default(), "/m".to_string(), "/w".to_string(), vec![]);
    empty.handle_key('f', true);
    assert_eq!(empty.status_messages.last().unwrap(), "No file or folder selected.");
}
