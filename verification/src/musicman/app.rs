//! The application state and its reaction to keys.
//!
//! A key is handled in two steps where outside work is needed: `handle_key`
//! updates the state and returns the [`Effect`] to perform (listing a
//! directory, cleaning tags, converting files, numbering tracks); the caller
//! performs it and hands the outcome to the matching `finish_*` method.
use vstd::prelude::*;
use crate::musicman::config::{Config, KeybindConfig};
use crate::musicman::file_browser::{
    actions_for, entry_views, listing_nodes, sorted_listing, DirEntry, FileBrowser, FolderAction,
};
use crate::paths::{file_name_or_empty, file_name_text};
use crate::text::{decimal, owned, push_str, push_u64};

verus! {

broadcast use vstd::string::group_string_axioms;

#[derive(Clone, Copy, Debug, PartialEq, Eq, Structural)]
pub enum ConfirmAction {
    WriteBack,
    DeleteOriginals,
}

#[derive(Clone, Copy, Debug, PartialEq, Eq, Structural)]
pub enum ActivePanel {
    Browser,
    Actions,
}

pub enum AppMode {
    Normal,
    ExportPopup,
    ConfirmDialog { message: String, on_confirm: ConfirmAction },
}

/// Outside work that a key asks for; its outcome goes to the `finish_*`
/// method named below.
pub enum Effect {
    /// Nothing to do.
    Nothing,
    /// List this directory (`finish_expand`).
    ListDirectory(String),
    /// Clean the tags of the audio files under this path (`finish_clean`).
    CleanDirectory(String),
    /// Convert the FLAC files in this directory at this bitrate (`finish_convert`).
    ConvertDirectory(String, String),
    /// Number the tracks in this directory by creation date (`finish_date_order`).
    DateOrder(String),
}

pub struct App {
    pub config: Config,
    pub mode: AppMode,
    pub active_panel: ActivePanel,
    pub browser: FileBrowser,
    pub status_messages: Vec<String>,
    pub should_quit: bool,
    pub working_dir: String,
    /// Currently highlighted action in the right panel
    pub action_cursor: usize,
}

/// The most messages the status log keeps.
pub open spec fn log_capacity() -> nat {
    100
}

/// The log after appending one message: the oldest message goes once the
/// log would hold more than 100.
pub open spec fn log_push(log: Seq<Seq<char>>, m: Seq<char>) -> Seq<Seq<char>> {
    if log.len() + 1 > log_capacity() {
        log.push(m).drop_first()
    } else {
        log.push(m)
    }
}

/// Appending to a log within its capacity keeps it within capacity, puts
/// the new message last, and keeps the messages before it in order.
pub proof fn lemma_log_push(log: Seq<Seq<char>>, m: Seq<char>)
    requires
        log.len() <= log_capacity(),
    ensures
        log_push(log, m).len() <= log_capacity(),
        log_push(log, m).last() == m,
        log_push(log, m) == log.push(m).skip(log.push(m).len() - log_push(log, m).len()),
{
    if log.len() + 1 > log_capacity() {
        assert(log.push(m).drop_first() =~= log.push(m).skip(1));
    } else {
        assert(log.push(m).skip(0) =~= log.push(m));
    }
}

/// The log after appending two messages in turn.
pub open spec fn log_push2(log: Seq<Seq<char>>, m1: Seq<char>, m2: Seq<char>) -> Seq<Seq<char>> {
    log_push(log_push(log, m1), m2)
}

/// The views of a list of messages.
pub open spec fn views_of(v: Seq<String>) -> Seq<Seq<char>> {
    v.map_values(|s: String| s@)
}

// Messages ------------------------------------------------------------------

pub open spec fn msg_welcome() -> Seq<char> {
    "Welcome to musicman! Navigate with hjkl, Tab to switch panels."@
}

pub open spec fn msg_source(dir: Seq<char>) -> Seq<char> {
    "Source: "@ + dir
}

pub open spec fn msg_working(dir: Seq<char>) -> Seq<char> {
    "Working copy: "@ + dir
}

pub open spec fn msg_expanded(name: Seq<char>, n: nat) -> Seq<char> {
    "Expanded: "@ + name + " ("@ + decimal(n) + " items)"@
}

pub open spec fn msg_collapsed() -> Seq<char> {
    "Collapsed."@
}

pub open spec fn msg_no_selection() -> Seq<char> {
    "No file or folder selected."@
}

pub open spec fn msg_fetching(name: Seq<char>) -> Seq<char> {
    "[ ] Fetching metadata for "@ + name + " ..."@
}

pub open spec fn msg_fetch_unwired() -> Seq<char> {
    "[!] Metadata fetch not yet wired to async runtime."@
}

pub open spec fn msg_cleaning(path: Seq<char>) -> Seq<char> {
    "[ ] Cleaning metadata: "@ + path
}

pub open spec fn msg_cleaned(n: nat) -> Seq<char> {
    "[✓] Cleaned "@ + decimal(n) + " files."@
}

pub open spec fn msg_clean_failed(e: Seq<char>) -> Seq<char> {
    "[✗] Clean failed: "@ + e
}

pub open spec fn msg_conversion_disabled() -> Seq<char> {
    "[!] Conversion is disabled in config.toml (conversion.enabled = false). Enable it first."@
}

pub open spec fn msg_converting(name: Seq<char>) -> Seq<char> {
    "[ ] Converting FLAC→M4A in "@ + name + " ..."@
}

pub open spec fn msg_converted(n: nat) -> Seq<char> {
    "[✓] Converted "@ + decimal(n) + " files."@
}

pub open spec fn msg_convert_failed(e: Seq<char>) -> Seq<char> {
    "[✗] Conversion failed: "@ + e
}

pub open spec fn msg_dating(name: Seq<char>) -> Seq<char> {
    "[ ] Applying date-order track numbers to "@ + name + " ..."@
}

pub open spec fn msg_dated(n: nat) -> Seq<char> {
    "[✓] Numbered "@ + decimal(n) + " tracks by date."@
}

pub open spec fn msg_date_failed(e: Seq<char>) -> Seq<char> {
    "[✗] Date-order failed: "@ + e
}

pub open spec fn msg_date_disabled() -> Seq<char> {
    "Date-order track numbering disabled for this folder."@
}

pub open spec fn msg_write_back_prompt() -> Seq<char> {
    "Write working copy back to source? This modifies original files."@
}

pub open spec fn msg_cancelled() -> Seq<char> {
    "Cancelled."@
}

pub open spec fn msg_confirmed(a: ConfirmAction) -> Seq<char> {
    match a {
        ConfirmAction::WriteBack => "[!] Write-back not yet implemented."@,
        ConfirmAction::DeleteOriginals => "[!] Delete originals not yet implemented."@,
    }
}

/// The action a shortcut key fires, from either panel.
pub open spec fn shortcut(key: char) -> Option<FolderAction> {
    if key == 'f' {
        Some(FolderAction::FetchMetadata)
    } else if key == 'c' {
        Some(FolderAction::CleanMetadata)
    } else if key == 'v' {
        Some(FolderAction::ConvertToM4A)
    } else if key == 'd' {
        Some(FolderAction::DateOrderTracknumbers)
    } else if key == 'e' {
        Some(FolderAction::ExportToIpod)
    } else if key == 'w' {
        Some(FolderAction::WriteBack)
    } else {
        None
    }
}

/// The action a shortcut key fires (`f`, `c`, `v`, `d`, `e`, `w`).
fn shortcut_action(key: char) -> (r: Option<FolderAction>)
    ensures
        r == shortcut(key),
{
    match key {
        'f' => Some(FolderAction::FetchMetadata),
        'c' => Some(FolderAction::CleanMetadata),
        'v' => Some(FolderAction::ConvertToM4A),
        'd' => Some(FolderAction::DateOrderTracknumbers),
        'e' => Some(FolderAction::ExportToIpod),
        'w' => Some(FolderAction::WriteBack),
        _ => None,
    }
}

fn concat2(a: &str, b: &str) -> (r: String)
    ensures
        r@ == a@ + b@,
{
    let mut s = owned(a);
    push_str(&mut s, b);
    s
}

fn concat3(a: &str, b: &str, c: &str) -> (r: String)
    ensures
        r@ == a@ + b@ + c@,
{
    let mut s = owned(a);
    push_str(&mut s, b);
    push_str(&mut s, c);
    s
}

fn with_count(a: &str, n: u64, c: &str) -> (r: String)
    ensures
        r@ == a@ + decimal(n as nat) + c@,
{
    let mut s = owned(a);
    push_u64(&mut s, n);
    push_str(&mut s, c);
    s
}

impl App {
    /// The messages in the status log.
    pub open spec fn log(self) -> Seq<Seq<char>> {
        views_of(self.status_messages@)
    }

    /// The browser is well formed, the log is within its capacity and the
    /// action cursor is within the longest list of actions.
    pub open spec fn wf(self) -> bool {
        &&& self.browser.wf()
        &&& self.status_messages.len() <= log_capacity()
        &&& self.action_cursor < 6
    }

    /// The state `self` becomes when only the log changes, by `msgs`.
    pub open spec fn logs(self, after: App, log: Seq<Seq<char>>) -> bool {
        &&& after == App { status_messages: after.status_messages, ..self }
        &&& after.log() == log
    }

    /// The last component of the selected path (empty when it has none).
    pub open spec fn selected_name(self) -> Seq<char> {
        file_name_or_empty(self.browser.rows()[self.browser.selected as int].path)
    }

    /// The selected path.
    pub open spec fn selected_path_view(self) -> Seq<char> {
        self.browser.rows()[self.browser.selected as int].path
    }

    /// The application at start: normal mode, browser panel, the three
    /// greeting lines, the browser over `source_dir` with its listing.
    pub fn new(config: Config, source_dir: String, working_dir: String, listing: Vec<DirEntry>) -> (r:
        App)
        ensures
            r.wf(),
            r.config == config,
            r.mode is Normal,
            r.active_panel == ActivePanel::Browser,
            r.browser.root@ == source_dir@,
            r.browser.selected == 0,
            r.browser.rows() == listing_nodes(sorted_listing(entry_views(listing@)), 0),
            r.log() == seq![msg_welcome(), msg_source(source_dir@), msg_working(working_dir@)],
            !r.should_quit,
            r.working_dir@ == working_dir@,
            r.action_cursor == 0,
    {
        let mut status_messages: Vec<String> = Vec::new();
        status_messages.push(owned("Welcome to musicman! Navigate with hjkl, Tab to switch panels."));
        status_messages.push(concat2("Source: ", source_dir.as_str()));
        status_messages.push(concat2("Working copy: ", working_dir.as_str()));
        let ghost sd = source_dir@;
        let browser = FileBrowser::new(source_dir, listing);
        let r = App {
            config,
            mode: AppMode::Normal,
            active_panel: ActivePanel::Browser,
            browser,
            status_messages,
            should_quit: false,
            working_dir,
            action_cursor: 0,
        };
        assert(r.log() =~= seq![msg_welcome(), msg_source(sd), msg_working(r.working_dir@)]);
        r
    }

    /// After `push_status(m)`.
    pub open spec fn pushed(self, after: App, m: Seq<char>) -> bool {
        self.logs(after, log_push(self.log(), m))
    }

    /// Appends a message to the status log, dropping the oldest message once
    /// the log holds more than 100.
    pub fn push_status(&mut self, msg: String)
        ensures
            old(self).pushed(*final(self), msg@),
            old(self).status_messages.len() <= log_capacity() ==> final(self).status_messages.len()
                <= log_capacity(),
    {
        let ghost before = self.status_messages@;
        self.status_messages.push(msg);
        if self.status_messages.len() > 100 {
            self.status_messages.remove(0);
            assert(self.log() =~= views_of(before).push(msg@).drop_first());
        } else {
            assert(self.log() =~= views_of(before).push(msg@));
        }
    }

    /// After a key in normal mode.
    pub open spec fn normal_step(self, after: App, key: char, selected_is_dir: bool, eff: Effect) -> bool {
        let kb = self.config.keybinds;
        if key == kb.quit {
            after == App { should_quit: true, ..self } && eff is Nothing
        } else if key == '\t' {
            after == App {
                active_panel: match self.active_panel {
                    ActivePanel::Browser => ActivePanel::Actions,
                    ActivePanel::Actions => ActivePanel::Browser,
                },
                ..self
            } && eff is Nothing
        } else if self.active_panel == ActivePanel::Browser {
            self.browser_step(after, key, eff)
        } else {
            self.actions_step(after, key, selected_is_dir, eff)
        }
    }

    /// After a key in the browser panel.
    pub open spec fn browser_step(self, after: App, key: char, eff: Effect) -> bool {
        let kb = self.config.keybinds;
        if key == kb.navigate_up {
            &&& after == App { browser: after.browser, action_cursor: 0, ..self }
            &&& self.browser.moved_up(after.browser)
            &&& eff is Nothing
        } else if key == kb.navigate_down {
            &&& after == App { browser: after.browser, action_cursor: 0, ..self }
            &&& self.browser.moved_down(after.browser)
            &&& eff is Nothing
        } else if key == kb.expand {
            &&& after == self
            &&& if self.browser.can_expand() {
                eff matches Effect::ListDirectory(p) && p@ == self.selected_path_view()
            } else {
                eff is Nothing
            }
        } else if key == kb.collapse {
            &&& after == App {
                browser: after.browser,
                status_messages: after.status_messages,
                ..self
            }
            &&& self.browser.collapsed(after.browser)
            &&& after.log() == log_push(self.log(), msg_collapsed())
            &&& eff is Nothing
        } else {
            match shortcut(key) {
                Some(a) => self.fire_step(after, a, eff),
                None => after == self && eff is Nothing,
            }
        }
    }

    /// The actions offered for the selection.
    pub open spec fn offered(self, selected_is_dir: bool) -> Seq<FolderAction> {
        if self.browser.selected < self.browser.nodes.len() {
            actions_for(selected_is_dir)
        } else {
            Seq::empty()
        }
    }

    /// After a key in the actions panel.
    pub open spec fn actions_step(self, after: App, key: char, selected_is_dir: bool, eff: Effect) -> bool {
        let kb = self.config.keybinds;
        let actions = self.offered(selected_is_dir);
        if actions.len() == 0 {
            after == self && eff is Nothing
        } else if key == kb.navigate_up {
            after == App {
                action_cursor: if self.action_cursor > 0 {
                    (self.action_cursor - 1) as usize
                } else {
                    self.action_cursor
                },
                ..self
            } && eff is Nothing
        } else if key == kb.navigate_down {
            after == App {
                action_cursor: if self.action_cursor + 1 < actions.len() {
                    (self.action_cursor + 1) as usize
                } else {
                    self.action_cursor
                },
                ..self
            } && eff is Nothing
        } else if key == '\r' {
            if self.action_cursor < actions.len() {
                self.fire_step(after, actions[self.action_cursor as int], eff)
            } else {
                after == self && eff is Nothing
            }
        } else {
            match shortcut(key) {
                Some(a) => self.fire_step(after, a, eff),
                None => after == self && eff is Nothing,
            }
        }
    }

    /// After firing an action on the selection.
    pub open spec fn fire_step(self, after: App, a: FolderAction, eff: Effect) -> bool {
        let name = self.selected_name();
        let path = self.selected_path_view();
        if self.browser.selected >= self.browser.nodes.len() {
            self.pushed(after, msg_no_selection()) && eff is Nothing
        } else {
            match a {
                FolderAction::FetchMetadata => self.logs(
                    after,
                    log_push2(self.log(), msg_fetching(name), msg_fetch_unwired()),
                ) && eff is Nothing,
                FolderAction::CleanMetadata => self.pushed(after, msg_cleaning(path)) && (
                eff matches Effect::CleanDirectory(p) && p@ == path),
                FolderAction::ConvertToM4A => if !self.config.conversion.enabled {
                    self.pushed(after, msg_conversion_disabled()) && eff is Nothing
                } else {
                    self.pushed(after, msg_converting(name)) && (eff matches Effect::ConvertDirectory(
                        p,
                        b,
                    ) && p@ == path && b@ == self.config.conversion.bitrate@)
                },
                FolderAction::DateOrderTracknumbers => {
                    let on = !self.browser.rows()[self.browser.selected as int].date_order_enabled;
                    &&& after == App {
                        browser: after.browser,
                        status_messages: after.status_messages,
                        ..self
                    }
                    &&& self.browser.toggled(after.browser)
                    &&& if on {
                        after.log() == log_push(self.log(), msg_dating(name)) && (
                        eff matches Effect::DateOrder(p) && p@ == path)
                    } else {
                        after.log() == log_push(self.log(), msg_date_disabled()) && eff is Nothing
                    }
                },
                FolderAction::ExportToIpod => after == App { mode: AppMode::ExportPopup, ..self }
                    && eff is Nothing,
                FolderAction::WriteBack => {
                    &&& after == App { mode: after.mode, ..self }
                    &&& after.mode matches AppMode::ConfirmDialog { message, on_confirm }
                    &&& message@ == msg_write_back_prompt()
                    &&& on_confirm == ConfirmAction::WriteBack
                    &&& eff is Nothing
                },
            }
        }
    }

    /// After a key in the export popup.
    pub open spec fn export_step(self, after: App, key: char) -> bool {
        if key == 'q' || key == '\x1b' {
            after == App { mode: AppMode::Normal, ..self }
        } else {
            after == self
        }
    }

    /// After a key in a confirmation dialog for `action`.
    pub open spec fn confirm_step(self, after: App, key: char, action: ConfirmAction) -> bool {
        if key == 'y' || key == 'Y' {
            &&& after == App { mode: AppMode::Normal, status_messages: after.status_messages, ..self }
            &&& after.log() == log_push(self.log(), msg_confirmed(action))
        } else if key == 'n' || key == 'N' || key == '\x1b' {
            &&& after == App { mode: AppMode::Normal, status_messages: after.status_messages, ..self }
            &&& after.log() == log_push(self.log(), msg_cancelled())
        } else {
            after == self
        }
    }

    /// After any key.
    pub open spec fn key_step(self, after: App, key: char, selected_is_dir: bool, eff: Effect) -> bool {
        match self.mode {
            AppMode::Normal => self.normal_step(after, key, selected_is_dir, eff),
            AppMode::ExportPopup => self.export_step(after, key) && eff is Nothing,
            AppMode::ConfirmDialog { on_confirm, .. } => self.confirm_step(after, key, on_confirm)
                && eff is Nothing,
        }
    }

    /// Tab switches panels, so pressing it twice in normal mode comes back to
    /// the same state (unless Tab is the quit key).
    pub proof fn lemma_tab_twice(a: App, b: App, c: App, d1: bool, d2: bool, e1: Effect, e2: Effect)
        requires
            a.mode is Normal,
            a.config.keybinds.quit != '\t',
            a.key_step(b, '\t', d1, e1),
            b.key_step(c, '\t', d2, e2),
        ensures
            c == a,
            b.active_panel != a.active_panel,
            e1 is Nothing && e2 is Nothing,
    {
    }

    /// In the actions panel, the navigation keys move the action cursor
    /// within the offered actions: up stops at the first, down at the last;
    /// nothing else changes and no work is asked for.
    pub proof fn lemma_action_cursor(a: App, b: App, key: char, is_dir: bool, e: Effect)
        requires
            a.mode is Normal,
            a.active_panel == ActivePanel::Actions,
            a.offered(is_dir).len() > 0,
            a.action_cursor < a.offered(is_dir).len(),
            key == a.config.keybinds.navigate_up || key == a.config.keybinds.navigate_down,
            key != a.config.keybinds.quit,
            key != '\t',
            a.key_step(b, key, is_dir, e),
        ensures
            b == (App {
                action_cursor: if key == a.config.keybinds.navigate_up {
                    if a.action_cursor > 0 {
                        (a.action_cursor - 1) as usize
                    } else {
                        0usize
                    }
                } else if a.action_cursor + 1 < a.offered(is_dir).len() {
                    (a.action_cursor + 1) as usize
                } else {
                    (a.offered(is_dir).len() - 1) as usize
                },
                ..a
            }),
            b.action_cursor < a.offered(is_dir).len(),
            e is Nothing,
    {
    }

    /// A shortcut key fires its action from either panel (in the actions
    /// panel once there are actions on offer), unless the key is also bound
    /// to quitting or moving.
    pub proof fn lemma_shortcut_fires(a: App, b: App, key: char, is_dir: bool, e: Effect)
        requires
            a.mode is Normal,
            shortcut(key) is Some,
            key != a.config.keybinds.quit,
            key != a.config.keybinds.navigate_up,
            key != a.config.keybinds.navigate_down,
            key != a.config.keybinds.expand,
            key != a.config.keybinds.collapse,
            a.active_panel == ActivePanel::Actions ==> a.offered(is_dir).len() > 0,
            a.key_step(b, key, is_dir, e),
        ensures
            a.fire_step(b, shortcut(key)->0, e),
    {
    }

    /// In the actions panel, Enter runs the action under the cursor: the
    /// step is exactly that action's step.
    pub proof fn lemma_enter_fires(a: App, b: App, is_dir: bool, e: Effect)
        requires
            a.mode is Normal,
            a.active_panel == ActivePanel::Actions,
            a.action_cursor < a.offered(is_dir).len(),
            a.config.keybinds.quit != '\r',
            a.config.keybinds.navigate_up != '\r',
            a.config.keybinds.navigate_down != '\r',
            a.key_step(b, '\r', is_dir, e),
        ensures
            a.fire_step(b, a.offered(is_dir)[a.action_cursor as int], e),
    {
    }

    /// Reacts to a key. `selected_is_dir` is whether the selected path is a
    /// directory on disk (it decides which actions are offered).
    pub fn handle_key(&mut self, key: char, selected_is_dir: bool) -> (eff: Effect)
        requires
            old(self).wf(),
        ensures
            final(self).wf(),
            old(self).key_step(*final(self), key, selected_is_dir, eff),
    {
        match &self.mode {
            AppMode::Normal => self.handle_normal_key(key, selected_is_dir),
            AppMode::ExportPopup => {
                self.handle_export_key(key);
                Effect::Nothing
            },
            AppMode::ConfirmDialog { .. } => {
                self.handle_confirm_key(key);
                Effect::Nothing
            },
        }
    }

    fn handle_normal_key(&mut self, key: char, selected_is_dir: bool) -> (eff: Effect)
        requires
            old(self).wf(),
        ensures
            final(self).wf(),
            old(self).normal_step(*final(self), key, selected_is_dir, eff),
    {
        let kb: KeybindConfig = self.config.keybinds;
        if key == kb.quit {
            self.should_quit = true;
            return Effect::Nothing;
        }
        // Tab always switches panels regardless of which is active
        if key == '\t' {
            self.active_panel = match self.active_panel {
                ActivePanel::Browser => ActivePanel::Actions,
                ActivePanel::Actions => ActivePanel::Browser,
            };
            return Effect::Nothing;
        }
        match self.active_panel {
            ActivePanel::Browser => {
                if key == kb.navigate_up {
                    self.browser.move_up();
                    self.action_cursor = 0;
                } else if key == kb.navigate_down {
                    self.browser.move_down();
                    self.action_cursor = 0;
                } else if key == kb.expand {
                    return match self.browser.expand_target() {
                        Some(p) => Effect::ListDirectory(p),
                        None => Effect::Nothing,
                    };
                } else if key == kb.collapse {
                    self.browser.collapse_selected();
                    self.push_status(owned("Collapsed."));
                } else {
                    // Direct keybind shortcuts work from either panel
                    return match shortcut_action(key) {
                        Some(a) => self.fire_action(a),
                        None => Effect::Nothing,
                    };
                }
                Effect::Nothing
            },
            ActivePanel::Actions => {
                let actions = self.selected_actions(selected_is_dir);
                if actions.len() == 0 {
                    return Effect::Nothing;
                }
                if key == kb.navigate_up {
                    if self.action_cursor > 0 {
                        self.action_cursor -= 1;
                    }
                    Effect::Nothing
                } else if key == kb.navigate_down {
                    if self.action_cursor + 1 < actions.len() {
                        self.action_cursor += 1;
                    }
                    Effect::Nothing
                } else if key == '\r' {
                    // Enter fires the highlighted action
                    if self.action_cursor < actions.len() {
                        let action = actions[self.action_cursor];
                        self.fire_action(action)
                    } else {
                        Effect::Nothing
                    }
                } else {
                    // Direct keybind shortcuts work from either panel
                    match shortcut_action(key) {
                        Some(a) => self.fire_action(a),
                        None => Effect::Nothing,
                    }
                }
            },
        }
    }

    fn fire_action(&mut self, action: FolderAction) -> (eff: Effect)
        requires
            old(self).wf(),
        ensures
            final(self).wf(),
            old(self).fire_step(*final(self), action, eff),
    {
        let path = match self.browser.selected_path() {
            Some(p) => p.clone(),
            None => {
                self.push_status(owned("No file or folder selected."));
                return Effect::Nothing;
            },
        };
        match action {
            FolderAction::FetchMetadata => {
                let name = file_name_text(path.as_str());
                self.push_status(concat3("[ ] Fetching metadata for ", name.as_str(), " ..."));
                self.push_status(owned("[!] Metadata fetch not yet wired to async runtime."));
                Effect::Nothing
            },
            FolderAction::CleanMetadata => {
                self.push_status(concat2("[ ] Cleaning metadata: ", path.as_str()));
                Effect::CleanDirectory(path)
            },
            FolderAction::ConvertToM4A => {
                if !self.config.conversion.enabled {
                    self.push_status(
                        owned(
                            "[!] Conversion is disabled in config.toml (conversion.enabled = false). Enable it first.",
                        ),
                    );
                    return Effect::Nothing;
                }
                let bitrate = self.config.conversion.bitrate.clone();
                let name = file_name_text(path.as_str());
                self.push_status(concat3("[ ] Converting FLAC→M4A in ", name.as_str(), " ..."));
                Effect::ConvertDirectory(path, bitrate)
            },
            FolderAction::DateOrderTracknumbers => {
                // Toggle the flag on the node, then apply if turning on
                self.browser.toggle_date_order();
                let sel = self.browser.selected;
                let enabled = self.browser.nodes[sel].date_order_enabled;
                assert(self.browser.rows()[sel as int] == self.browser.nodes@[sel as int]@);
                if enabled {
                    let name = file_name_text(path.as_str());
                    self.push_status(
                        concat3("[ ] Applying date-order track numbers to ", name.as_str(), " ..."),
                    );
                    Effect::DateOrder(path)
                } else {
                    self.push_status(owned("Date-order track numbering disabled for this folder."));
                    Effect::Nothing
                }
            },
            FolderAction::ExportToIpod => {
                self.mode = AppMode::ExportPopup;
                Effect::Nothing
            },
            FolderAction::WriteBack => {
                self.mode = AppMode::ConfirmDialog {
                    message: owned("Write working copy back to source? This modifies original files."),
                    on_confirm: ConfirmAction::WriteBack,
                };
                Effect::Nothing
            },
        }
    }

    fn handle_export_key(&mut self, key: char)
        requires
            old(self).wf(),
        ensures
            final(self).wf(),
            old(self).export_step(*final(self), key),
    {
        if key == 'q' || key == '\x1b' {
            self.mode = AppMode::Normal;
        }
    }

    fn handle_confirm_key(&mut self, key: char)
        requires
            old(self).wf(),
            old(self).mode is ConfirmDialog,
        ensures
            final(self).wf(),
            old(self).confirm_step(*final(self), key, old(self).mode->on_confirm),
    {
        if key == 'y' || key == 'Y' {
            let action = match &self.mode {
                AppMode::ConfirmDialog { on_confirm, .. } => *on_confirm,
                _ => ConfirmAction::WriteBack,
            };
            self.execute_confirm(action);
            self.mode = AppMode::Normal;
        } else if key == 'n' || key == 'N' || key == '\x1b' {
            self.mode = AppMode::Normal;
            self.push_status(owned("Cancelled."));
        }
    }

    fn execute_confirm(&mut self, action: ConfirmAction)
        ensures
            old(self).pushed(*final(self), msg_confirmed(action)),
            old(self).status_messages.len() <= log_capacity() ==> final(self).status_messages.len()
                <= log_capacity(),
    {
        match action {
            ConfirmAction::WriteBack => {
                self.push_status(owned("[!] Write-back not yet implemented."));
            },
            ConfirmAction::DeleteOriginals => {
                self.push_status(owned("[!] Delete originals not yet implemented."));
            },
        }
    }

    pub fn open_export_popup(&mut self)
        ensures
            *final(self) == (App { mode: AppMode::ExportPopup, ..*old(self) }),
    {
        self.mode = AppMode::ExportPopup;
    }

    pub fn selected_path(&self) -> (r: Option<&String>)
        ensures
            match r {
                Some(p) => self.browser.selected < self.browser.nodes.len() && p@
                    == self.selected_path_view(),
                None => self.browser.selected >= self.browser.nodes.len(),
            },
    {
        self.browser.selected_path()
    }

    /// The actions offered for the selection; `selected_is_dir` is whether
    /// the selected path is a directory on disk.
    pub fn selected_actions(&self, selected_is_dir: bool) -> (r: Vec<FolderAction>)
        ensures
            r@ == self.offered(selected_is_dir),
    {
        if let Some(_path) = self.browser.selected_path() {
            FolderAction::available_for(selected_is_dir)
        } else {
            Vec::new()
        }
    }

    /// Completes an expansion with the listing of the directory that
    /// `Effect::ListDirectory` named (an empty listing when it could not be
    /// read): the browser expands, and when rows were added the log says how
    /// many.
    pub fn finish_expand(&mut self, listing: Vec<DirEntry>)
        requires
            old(self).wf(),
        ensures
            final(self).wf(),
            *final(self) == (App {
                browser: final(self).browser,
                status_messages: final(self).status_messages,
                ..*old(self)
            }),
            old(self).browser.expanded_with(final(self).browser, entry_views(listing@)),
            final(self).browser.nodes.len() > old(self).browser.nodes.len() ==> final(self).log()
                == log_push(
                old(self).log(),
                msg_expanded(
                    final(self).browser.rows()[final(self).browser.selected as int].name,
                    (final(self).browser.nodes.len() - old(self).browser.nodes.len()) as nat,
                ),
            ),
            final(self).browser.nodes.len() <= old(self).browser.nodes.len() ==> final(self).log()
                == old(self).log(),
    {
        let before = self.browser.nodes.len();
        self.browser.expand_selected(listing);
        let after = self.browser.nodes.len();
        if after > before {
            let sel = self.browser.selected;
            proof {
                assert(self.browser.selected < self.browser.nodes.len());
                assert(self.browser.rows()[sel as int] == self.browser.nodes@[sel as int]@);
            }
            let mut m = concat2("Expanded: ", self.browser.nodes[sel].name.as_str());
            push_str(&mut m, " (");
            push_u64(&mut m, (after - before) as u64);
            push_str(&mut m, " items)");
            self.push_status(m);
        }
    }

    /// Completes `Effect::CleanDirectory` with the number of files cleaned
    /// or the error's text.
    pub fn finish_clean(&mut self, outcome: Result<usize, String>)
        requires
            old(self).wf(),
        ensures
            final(self).wf(),
            old(self).pushed(
                *final(self),
                match outcome {
                    Ok(n) => msg_cleaned(n as nat),
                    Err(e) => msg_clean_failed(e@),
                },
            ),
    {
        match outcome {
            Ok(n) => self.push_status(with_count("[✓] Cleaned ", n as u64, " files.")),
            Err(e) => self.push_status(concat2("[✗] Clean failed: ", e.as_str())),
        }
    }

    /// Completes `Effect::ConvertDirectory` with the number of files
    /// converted or the error's text.
    pub fn finish_convert(&mut self, outcome: Result<usize, String>)
        requires
            old(self).wf(),
        ensures
            final(self).wf(),
            old(self).pushed(
                *final(self),
                match outcome {
                    Ok(n) => msg_converted(n as nat),
                    Err(e) => msg_convert_failed(e@),
                },
            ),
    {
        match outcome {
            Ok(n) => self.push_status(with_count("[✓] Converted ", n as u64, " files.")),
            Err(e) => self.push_status(concat2("[✗] Conversion failed: ", e.as_str())),
        }
    }

    /// Completes `Effect::DateOrder` with the number of tracks numbered or
    /// the error's text.
    pub fn finish_date_order(&mut self, outcome: Result<usize, String>)
        requires
            old(self).wf(),
        ensures
            final(self).wf(),
            old(self).pushed(
                *final(self),
                match outcome {
                    Ok(n) => msg_dated(n as nat),
                    Err(e) => msg_date_failed(e@),
                },
            ),
    {
        match outcome {
            Ok(n) => self.push_status(with_count("[✓] Numbered ", n as u64, " tracks by date.")),
            Err(e) => self.push_status(concat2("[✗] Date-order failed: ", e.as_str())),
        }
    }
}

} // verus!
