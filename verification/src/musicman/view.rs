//! The text the screen shows: browser rows, the status panel, the action
//! list, the key hints and the dialogs.
use vstd::prelude::*;
use crate::musicman::app::ActivePanel;
use crate::musicman::config::{string_views, Config};
use crate::musicman::file_browser::{action_label, FileBrowser, FileNode, FolderAction};
use crate::text::{owned, push_char, push_repeat, push_str, repeat_spec, to_uppercase,
    unicode_uppercase};

verus! {

broadcast use vstd::string::group_string_axioms;

/// The marker before a row's name: an open or closed triangle for a
/// directory, blanks for a file.
pub open spec fn row_icon(is_dir: bool, expanded: bool) -> Seq<char> {
    if is_dir {
        if expanded {
            "▼ "@
        } else {
            "▶ "@
        }
    } else {
        "  "@
    }
}

/// A browser row: two spaces per level of depth, the marker, the name, and
/// ` [D]` when the folder numbers its tracks by date.
pub open spec fn row_label_spec(n: FileNode) -> Seq<char> {
    repeat_spec("  "@, n.depth as nat) + row_icon(n.is_dir, n.expanded) + n.name@ + if n.date_order_enabled {
        " [D]"@
    } else {
        ""@
    }
}

pub fn row_label(n: &FileNode) -> (r: String)
    ensures
        r@ == row_label_spec(*n),
{
    let mut s = String::new();
    push_repeat(&mut s, "  ", n.depth);
    let icon = if n.is_dir {
        if n.expanded {
            "▼ "
        } else {
            "▶ "
        }
    } else {
        "  "
    };
    push_str(&mut s, icon);
    push_str(&mut s, n.name.as_str());
    if n.date_order_enabled {
        push_str(&mut s, " [D]");
    } else {
        push_str(&mut s, "");
    }
    s
}

/// The first line of the status panel: the kind and path of the selected
/// row, with ` | Date-order: ON` when its folder numbers by date, or
/// `No selection`.
pub open spec fn status_line_spec(b: FileBrowser) -> Seq<char> {
    if b.selected < b.nodes.len() {
        let n = b.nodes@[b.selected as int];
        (if n.is_dir {
            "Directory"@
        } else {
            "File"@
        }) + ": "@ + n.path@ + if n.date_order_enabled {
            " | Date-order: ON"@
        } else {
            ""@
        }
    } else {
        "No selection"@
    }
}

pub fn status_line(b: &FileBrowser) -> (r: String)
    ensures
        r@ == status_line_spec(*b),
{
    if b.selected < b.nodes.len() {
        let n = &b.nodes[b.selected];
        let mut s = owned(
            if n.is_dir {
                "Directory"
            } else {
                "File"
            },
        );
        push_str(&mut s, ": ");
        push_str(&mut s, n.path.as_str());
        push_str(
            &mut s,
            if n.date_order_enabled {
                " | Date-order: ON"
            } else {
                ""
            },
        );
        s
    } else {
        owned("No selection")
    }
}

/// The messages the status panel shows: the last twenty, oldest first.
pub open spec fn recent_spec(log: Seq<Seq<char>>) -> Seq<Seq<char>> {
    if log.len() > 20 {
        log.skip(log.len() - 20)
    } else {
        log
    }
}

pub fn recent_messages(log: &Vec<String>) -> (r: Vec<String>)
    ensures
        string_views(r@) == recent_spec(string_views(log@)),
{
    let start = if log.len() > 20 {
        log.len() - 20
    } else {
        0
    };
    let mut r: Vec<String> = Vec::new();
    let ghost lv = string_views(log@);
    for i in start..log.len()
        invariant
            start <= log.len(),
            lv == string_views(log@),
            string_views(r@) == lv.subrange(start as int, i as int),
    {
        let ghost before = r@;
        r.push(log[i].clone());
        assert(string_views(r@) =~= string_views(before).push(lv[i as int]));
        assert(lv.subrange(start as int, i + 1) =~= lv.subrange(start as int, i as int).push(
            lv[i as int],
        ));
    }
    assert(lv.subrange(start as int, log.len() as int) =~= recent_spec(lv));
    r
}

/// The label of an action row; the date-order action shows `✓ ON` when the
/// selected folder has it on.
pub open spec fn action_row_spec(a: FolderAction, date_order_on: bool) -> Seq<char> {
    if a == FolderAction::DateOrderTracknumbers && date_order_on {
        "[d] Date-order track numbers  ✓ ON"@
    } else {
        action_label(a)
    }
}

pub fn action_row(a: FolderAction, date_order_on: bool) -> (r: String)
    ensures
        r@ == action_row_spec(a, date_order_on),
{
    if a == FolderAction::DateOrderTracknumbers && date_order_on {
        owned("[d] Date-order track numbers  ✓ ON")
    } else {
        owned(a.label())
    }
}

/// Whether the selected row's folder numbers its tracks by date (`false`
/// when nothing is selected).
pub fn selected_date_order(b: &FileBrowser) -> (r: bool)
    ensures
        r == (b.selected < b.nodes.len() && b.nodes@[b.selected as int].date_order_enabled),
{
    if b.selected < b.nodes.len() {
        b.nodes[b.selected].date_order_enabled
    } else {
        false
    }
}

/// The key hints of the bottom bar for the focused panel, each a key and
/// what it does.
pub open spec fn hints_spec(panel: ActivePanel) -> Seq<(Seq<char>, Seq<char>)> {
    match panel {
        ActivePanel::Browser => seq![("hjkl"@, "navigate/expand"@), ("Tab"@, "→ Actions"@)],
        ActivePanel::Actions => seq![
            ("jk"@, "select action"@),
            ("Enter"@, "run"@),
            ("f/c/v/d/e/w"@, "shortcut"@),
            ("Tab"@, "→ Browser"@),
        ],
    }
}

pub open spec fn pair_views(v: Seq<(&str, &str)>) -> Seq<(Seq<char>, Seq<char>)> {
    v.map_values(|p: (&str, &str)| (p.0@, p.1@))
}

pub fn key_hints(panel: ActivePanel) -> (r: Vec<(&'static str, &'static str)>)
    ensures
        pair_views(r@) == hints_spec(panel),
{
    let r: Vec<(&'static str, &'static str)> = match panel {
        ActivePanel::Browser => vec![("hjkl", "navigate/expand"), ("Tab", "→ Actions")],
        ActivePanel::Actions => vec![
            ("jk", "select action"),
            ("Enter", "run"),
            ("f/c/v/d/e/w", "shortcut"),
            ("Tab", "→ Browser"),
        ],
    };
    assert(pair_views(r@) =~= hints_spec(panel));
    r
}

/// The text of the whole key bar: a blank, each hint as `key: what  `,
/// then the quit key and `: quit`.
pub open spec fn hint_text(hints: Seq<(Seq<char>, Seq<char>)>) -> Seq<char>
    decreases hints.len(),
{
    if hints.len() == 0 {
        Seq::empty()
    } else {
        hint_text(hints.drop_last()) + hints.last().0 + ": "@ + hints.last().1 + "  "@
    }
}

pub open spec fn key_bar_spec(panel: ActivePanel, quit: char) -> Seq<char> {
    " "@ + hint_text(hints_spec(panel)) + seq![quit] + ": quit"@
}

pub fn key_bar_text(panel: ActivePanel, quit: char) -> (r: String)
    ensures
        r@ == key_bar_spec(panel, quit),
{
    let hints = key_hints(panel);
    let ghost hv = pair_views(hints@);
    let mut s = owned(" ");
    let ghost start = s@;
    for i in 0..hints.len()
        invariant
            hv == pair_views(hints@),
            s@ == start + hint_text(hv.take(i as int)),
    {
        let (k, d) = hints[i];
        push_str(&mut s, k);
        push_str(&mut s, ": ");
        push_str(&mut s, d);
        push_str(&mut s, "  ");
        assert(hv.take(i + 1).drop_last() =~= hv.take(i as int));
        assert(hv.take(i + 1).last() == (k@, d@));
    }
    assert(hv.take(hints.len() as int) =~= hv);
    push_char(&mut s, quit);
    push_str(&mut s, ": quit");
    s
}

/// The confirmation dialog's text: the question, a blank line, the answers.
pub fn confirm_text(message: &str) -> (r: String)
    ensures
        r@ == message@ + "\n\n[y] Yes   [n] No"@,
{
    let mut s = owned(message);
    push_str(&mut s, "\n\n[y] Yes   [n] No");
    s
}

/// Where a box of `w` by `h` cells goes to sit in the middle of an area of
/// `area_w` by `area_h` (a box larger than the area sits at the corner).
pub fn centered_origin(area_w: u16, area_h: u16, w: u16, h: u16) -> (r: (u16, u16))
    ensures
        r.0 == (if area_w > w {
            area_w - w
        } else {
            0
        }) / 2,
        r.1 == (if area_h > h {
            area_h - h
        } else {
            0
        }) / 2,
{
    (area_w.saturating_sub(w) / 2, area_h.saturating_sub(h) / 2)
}

/// The export popup's lines: the drive prompt, a placeholder, the layout,
/// the art format in capitals and the close hint.
pub open spec fn export_lines_spec(c: Config) -> Seq<Seq<char>> {
    seq![
        "Select iPod root drive:"@,
        ""@,
        "  (Drive selection coming soon)"@,
        ""@,
        "Layout: "@ + c.export.rockbox_layout@,
        "Art format: "@ + unicode_uppercase(c.export.art_format@),
        ""@,
        "[Esc] Close"@,
    ]
}

pub fn export_lines(c: &Config) -> (r: Vec<String>)
    ensures
        string_views(r@) == export_lines_spec(*c),
{
    let mut layout = owned("Layout: ");
    push_str(&mut layout, c.export.rockbox_layout.as_str());
    let mut art = owned("Art format: ");
    push_str(&mut art, to_uppercase(c.export.art_format.as_str()).as_str());
    let mut r: Vec<String> = Vec::new();
    r.push(owned("Select iPod root drive:"));
    r.push(owned(""));
    r.push(owned("  (Drive selection coming soon)"));
    r.push(owned(""));
    r.push(layout);
    r.push(art);
    r.push(owned(""));
    r.push(owned("[Esc] Close"));
    assert(string_views(r@) =~= export_lines_spec(*c));
    r
}

} // verus!
