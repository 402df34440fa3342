//! The inbox view: its state, its reaction to keys, and the text it shows.
use vstd::prelude::*;
use vstd::utf8::{decode_utf8, encode_utf8, encode_utf8_decode_utf8, is_char_boundary};
use vstd::string::StringSliceAdditionalSpecFns;
use crate::outreach::auth::opt_text;
use crate::outreach::db::CachedEmail;
use crate::text::{
    occurs_at, all_ws, char_is_ws, chars_of, find_chars, find_from, is_ws, owned, push_char, push_chars,
    push_repeat, push_str, repeat_spec, string_of,
};

verus! {

broadcast use vstd::string::group_string_axioms;

/// Which panel currently has focus
#[derive(Clone, Copy, Debug, PartialEq, Eq, Structural)]
pub enum Focus {
    EmailList,
    EmailBody,
}

/// A key as the view distinguishes them.
#[derive(Clone, Copy, Debug, PartialEq, Eq, Structural)]
pub enum Key {
    Char(char),
    Up,
    Down,
    Enter,
    Tab,
    Esc,
    Other,
}

pub struct App {
    pub emails: Vec<CachedEmail>,
    /// The highlighted row of the list.
    pub selected: Option<usize>,
    pub focus: Focus,
    pub scroll_offset: u16,
    pub status_msg: Option<String>,
}

impl App {
    /// The selection is a row, or row 0 of an empty list.
    pub open spec fn wf(self) -> bool {
        self.selected matches Some(i) ==> (i < self.emails.len() || i == 0)
    }

    pub fn new(emails: Vec<CachedEmail>) -> (r: Self)
        ensures
            r.wf(),
            r.emails == emails,
            r.selected == if emails.len() > 0 {
                Some(0usize)
            } else {
                None
            },
            r.focus == Focus::EmailList,
            r.scroll_offset == 0,
            r.status_msg is None,
    {
        let selected = if emails.len() > 0 {
            Some(0)
        } else {
            None
        };
        App { emails, selected, focus: Focus::EmailList, scroll_offset: 0, status_msg: None }
    }

    pub fn selected_email(&self) -> (r: Option<&CachedEmail>)
        ensures
            match self.selected {
                Some(i) => if i < self.emails.len() {
                    r == Some(&self.emails@[i as int])
                } else {
                    r is None
                },
                None => r is None,
            },
    {
        match self.selected {
            Some(i) => if i < self.emails.len() {
                Some(&self.emails[i])
            } else {
                None
            },
            None => None,
        }
    }

    /// The row below the selection (staying on the last row), or the first
    /// row when there is no selection; the body scrolls back to the top.
    pub fn next_email(&mut self)
        requires
            old(self).wf(),
        ensures
            final(self).wf(),
            *final(self) == (App {
                selected: Some(
                    match old(self).selected {
                        Some(i) => if i + 1 < old(self).emails.len() {
                            (i + 1) as usize
                        } else if old(self).emails.len() > 0 {
                            (old(self).emails.len() - 1) as usize
                        } else {
                            0usize
                        },
                        None => 0usize,
                    },
                ),
                scroll_offset: 0,
                ..*old(self)
            }),
    {
        let i = match self.selected {
            Some(i) => {
                let last = if self.emails.len() > 0 {
                    self.emails.len() - 1
                } else {
                    0
                };
                if i + 1 < self.emails.len() {
                    i + 1
                } else {
                    last
                }
            },
            None => 0,
        };
        self.selected = Some(i);
        self.scroll_offset = 0;
    }

    /// The row above the selection (staying on the first row); the body
    /// scrolls back to the top.
    pub fn prev_email(&mut self)
        requires
            old(self).wf(),
        ensures
            final(self).wf(),
            *final(self) == (App {
                selected: Some(
                    match old(self).selected {
                        Some(i) => if i > 0 {
                            (i - 1) as usize
                        } else {
                            0usize
                        },
                        None => 0usize,
                    },
                ),
                scroll_offset: 0,
                ..*old(self)
            }),
    {
        let i = match self.selected {
            Some(i) => if i > 0 {
                i - 1
            } else {
                0
            },
            None => 0,
        };
        self.selected = Some(i);
        self.scroll_offset = 0;
    }

    pub fn scroll_down(&mut self)
        ensures
            *final(self) == (App {
                scroll_offset: if old(self).scroll_offset + 3 > u16::MAX {
                    u16::MAX
                } else {
                    (old(self).scroll_offset + 3) as u16
                },
                ..*old(self)
            }),
    {
        self.scroll_offset = self.scroll_offset.saturating_add(3);
    }

    pub fn scroll_up(&mut self)
        ensures
            *final(self) == (App {
                scroll_offset: if old(self).scroll_offset < 3 {
                    0
                } else {
                    (old(self).scroll_offset - 3) as u16
                },
                ..*old(self)
            }),
    {
        self.scroll_offset = self.scroll_offset.saturating_sub(3);
    }

    /// The state after a key, and whether the key quits: `q` or Ctrl-C
    /// quit; in the list, `j`/Down and `k`/Up move and Enter/Tab open the
    /// body; in the body, `j`/Down and `k`/Up scroll and Esc/Tab go back.
    pub open spec fn key_step(self, after: App, key: Key, ctrl: bool, quit: bool) -> bool {
        if key == Key::Char('q') || (key == Key::Char('c') && ctrl) {
            quit && after == self
        } else {
            !quit && match self.focus {
                Focus::EmailList => if key == Key::Char('j') || key == Key::Down {
                    after == (App {
                        selected: Some(
                            match self.selected {
                                Some(i) => if i + 1 < self.emails.len() {
                                    (i + 1) as usize
                                } else if self.emails.len() > 0 {
                                    (self.emails.len() - 1) as usize
                                } else {
                                    0usize
                                },
                                None => 0usize,
                            },
                        ),
                        scroll_offset: 0,
                        ..self
                    })
                } else if key == Key::Char('k') || key == Key::Up {
                    after == (App {
                        selected: Some(
                            match self.selected {
                                Some(i) => if i > 0 {
                                    (i - 1) as usize
                                } else {
                                    0usize
                                },
                                None => 0usize,
                            },
                        ),
                        scroll_offset: 0,
                        ..self
                    })
                } else if key == Key::Enter || key == Key::Tab {
                    after == (App { focus: Focus::EmailBody, scroll_offset: 0, ..self })
                } else {
                    after == self
                },
                Focus::EmailBody => if key == Key::Char('j') || key == Key::Down {
                    after == (App {
                        scroll_offset: if self.scroll_offset + 3 > u16::MAX {
                            u16::MAX
                        } else {
                            (self.scroll_offset + 3) as u16
                        },
                        ..self
                    })
                } else if key == Key::Char('k') || key == Key::Up {
                    after == (App {
                        scroll_offset: if self.scroll_offset < 3 {
                            0
                        } else {
                            (self.scroll_offset - 3) as u16
                        },
                        ..self
                    })
                } else if key == Key::Esc || key == Key::Tab {
                    after == (App { focus: Focus::EmailList, ..self })
                } else {
                    after == self
                },
            }
        }
    }

    /// Reacts to a key (`ctrl` tells whether Control was held); returns
    /// whether to quit.
    pub fn handle_key(&mut self, key: Key, ctrl: bool) -> (quit: bool)
        requires
            old(self).wf(),
        ensures
            final(self).wf(),
            old(self).key_step(*final(self), key, ctrl, quit),
    {
        if key == Key::Char('q') || (key == Key::Char('c') && ctrl) {
            return true;
        }
        match self.focus {
            Focus::EmailList => {
                if key == Key::Char('j') || key == Key::Down {
                    self.next_email();
                } else if key == Key::Char('k') || key == Key::Up {
                    self.prev_email();
                } else if key == Key::Enter || key == Key::Tab {
                    self.focus = Focus::EmailBody;
                    self.scroll_offset = 0;
                }
            },
            Focus::EmailBody => {
                if key == Key::Char('j') || key == Key::Down {
                    self.scroll_down();
                } else if key == Key::Char('k') || key == Key::Up {
                    self.scroll_up();
                } else if key == Key::Esc || key == Key::Tab {
                    self.focus = Focus::EmailList;
                }
            },
        }
        false
    }
}

/// In the list, moving down and then up comes back to the same email when
/// there was one below.
pub proof fn lemma_down_up(a: App, b: App, c: App, down: Key, up: Key)
    requires
        a.focus == Focus::EmailList,
        a.selected matches Some(i) && i + 1 < a.emails.len(),
        down == Key::Down || down == Key::Char('j'),
        up == Key::Up || up == Key::Char('k'),
        a.key_step(b, down, false, false),
        b.key_step(c, up, false, false),
    ensures
        c.selected == a.selected,
        c.emails == a.emails,
        c.focus == a.focus,
{
}

// ---------------------------------------------------------------------------
// Plain text from HTML
// ---------------------------------------------------------------------------

/// The text outside `<...>` tags (a `<` opens a tag, a `>` closes one; both
/// are dropped).
pub open spec fn strip_tags(s: Seq<char>, in_tag: bool) -> Seq<char>
    decreases s.len(),
{
    if s.len() == 0 {
        Seq::empty()
    } else {
        let c = s[0];
        let rest = s.drop_first();
        if c == '<' {
            strip_tags(rest, true)
        } else if c == '>' {
            strip_tags(rest, false)
        } else if !in_tag {
            seq![c] + strip_tags(rest, in_tag)
        } else {
            strip_tags(rest, in_tag)
        }
    }
}

/// A line ended by `\n` loses one trailing `\r`.
pub open spec fn strip_cr(l: Seq<char>) -> Seq<char> {
    if l.len() > 0 && l.last() == '\r' {
        l.drop_last()
    } else {
        l
    }
}

/// `str::lines`: split at `\n` (dropping a `\r` before it); a final line
/// ending adds no empty line.
pub open spec fn lines_spec(s: Seq<char>) -> Seq<Seq<char>>
    decreases s.len(),
{
    if s.len() == 0 {
        Seq::empty()
    } else {
        match find_from(s, seq!['\n'], 0) {
            Some(i) => if 0 <= i < s.len() {
                seq![strip_cr(s.take(i))] + lines_spec(s.skip(i + 1))
            } else {
                seq![s]
            },
            None => seq![s],
        }
    }
}

/// Lines joined with `\n` after each, where a run of blank (all-whitespace)
/// lines keeps at most two newlines; `blank` is the length of the run so far.
pub open spec fn collapse_blank(lines: Seq<Seq<char>>, blank: int) -> Seq<char>
    decreases lines.len(),
{
    if lines.len() == 0 {
        Seq::empty()
    } else if all_ws(lines[0]) {
        (if blank + 1 <= 2 {
            seq!['\n']
        } else {
            Seq::empty()
        }) + collapse_blank(lines.drop_first(), blank + 1)
    } else {
        lines[0] + seq!['\n'] + collapse_blank(lines.drop_first(), 0)
    }
}

/// Naive HTML tag stripper: the text outside tags, with runs of blank
/// lines collapsed.
pub open spec fn strip_html_spec(html: Seq<char>) -> Seq<char> {
    collapse_blank(lines_spec(strip_tags(html, false)), 0)
}

fn remove_tags(s: &[char]) -> (r: Vec<char>)
    ensures
        r@ == strip_tags(s@, false),
{
    let mut out: Vec<char> = Vec::new();
    let mut in_tag = false;
    let mut i: usize = 0;
    assert(s@.skip(0) =~= s@);
    while i < s.len()
        invariant
            i <= s.len(),
            out@ + strip_tags(s@.skip(i as int), in_tag) == strip_tags(s@, false),
        decreases s.len() - i,
    {
        let c = s[i];
        let ghost rest = s@.skip(i as int);
        assert(rest.drop_first() =~= s@.skip(i + 1));
        if c == '<' {
            in_tag = true;
        } else if c == '>' {
            in_tag = false;
        } else if !in_tag {
            let ghost before = out@;
            out.push(c);
            assert(before + (seq![c] + strip_tags(s@.skip(i + 1), in_tag)) =~= out@ + strip_tags(
                s@.skip(i + 1),
                in_tag,
            ));
        }
        i = i + 1;
    }
    assert(out@ + strip_tags(Seq::<char>::empty(), in_tag) =~= out@);
    assert(s@.skip(i as int) =~= Seq::<char>::empty());
    out
}

fn is_blank(l: &[char]) -> (r: bool)
    ensures
        r == all_ws(l@),
{
    for i in 0..l.len()
        invariant
            forall|j: int| 0 <= j < i ==> is_ws(#[trigger] l@[j]),
    {
        if !char_is_ws(l[i]) {
            return false;
        }
    }
    true
}

/// Naive HTML tag stripper — the text outside tags, with runs of more than
/// two blank lines cut to two newlines.
pub fn strip_html(html: &str) -> (r: String)
    ensures
        r@ == strip_html_spec(html@),
{
    let src = chars_of(html);
    let out = remove_tags(src.as_slice());
    let ghost t = out@;
    let nl: Vec<char> = vec!['\n'];
    let mut result = String::new();
    let mut blank: usize = 0;
    let mut pos: usize = 0;
    assert(t.skip(0) =~= t);
    assert(result@ + collapse_blank(lines_spec(t.skip(0)), 0) =~= collapse_blank(lines_spec(t), 0));
    while pos < out.len()
        invariant
            t == out@,
            nl@ == seq!['\n'],
            pos <= out.len(),
            blank <= pos,
            result@ + collapse_blank(lines_spec(t.skip(pos as int)), blank as int) == collapse_blank(
                lines_spec(t),
                0,
            ),
        decreases out.len() - pos,
    {
        let ghost rest = t.skip(pos as int);
        let found = find_chars(out.as_slice(), nl.as_slice(), pos);
        proof {
            crate::text::lemma_find_from(t, nl@, pos as int);
            lemma_find_shift(t, pos as int);
        }
        let (end, next) = match found {
            Some(i) => (i, i + 1),
            None => (out.len(), out.len()),
        };
        let mut line: Vec<char> = Vec::new();
        for k in pos..end
            invariant
                pos <= end <= out.len(),
                line@ == t.subrange(pos as int, k as int),
                t == out@,
        {
            line.push(out[k]);
            assert(t.subrange(pos as int, k + 1) =~= t.subrange(pos as int, k as int).push(t[k as int]));
        }
        if found.is_some() && line.len() > 0 && line[line.len() - 1] == '\r' {
            line.pop();
        }
        proof {
            assert(t.subrange(pos as int, end as int) =~= rest.take(end - pos));
            if found.is_some() {
                assert(rest.skip(end - pos + 1) =~= t.skip(next as int));
            } else {
                assert(rest =~= t.subrange(pos as int, end as int));
            }
        }
        let ghost before = result@;
        if is_blank(line.as_slice()) {
            if blank + 1 <= 2 {
                push_char(&mut result, '\n');
            }
            blank = blank + 1;
        } else {
            blank = 0;
            push_chars(&mut result, line.as_slice());
            push_char(&mut result, '\n');
        }
        proof {
            assert(lines_spec(rest) =~= seq![line@] + lines_spec(t.skip(next as int)));
            assert(lines_spec(rest).drop_first() =~= lines_spec(t.skip(next as int)));
        }
        pos = next;
    }
    assert(t.skip(pos as int) =~= Seq::<char>::empty());
    assert(result@ + Seq::<char>::empty() =~= result@);
    result
}

/// Where the search for a newline starts relative to the rest of the text.
proof fn lemma_find_shift(t: Seq<char>, pos: int)
    requires
        0 <= pos <= t.len(),
    ensures
        match find_from(t, seq!['\n'], pos) {
            Some(i) => find_from(t.skip(pos), seq!['\n'], 0) == Some(i - pos),
            None => find_from(t.skip(pos), seq!['\n'], 0) is None,
        },
    decreases t.len() - pos,
{
    lemma_find_shift_from(t, pos, pos);
}

proof fn lemma_find_shift_from(t: Seq<char>, pos: int, j: int)
    requires
        0 <= pos <= t.len(),
        pos <= j <= t.len() + 1,
    ensures
        match find_from(t, seq!['\n'], j) {
            Some(i) => find_from(t.skip(pos), seq!['\n'], j - pos) == Some(i - pos),
            None => find_from(t.skip(pos), seq!['\n'], j - pos) is None,
        },
    decreases t.len() + 1 - j,
{
    let p: Seq<char> = seq!['\n'];
    let u = t.skip(pos);
    if j + 1 <= t.len() {
        assert(t.subrange(j, j + 1) =~= u.subrange(j - pos, j - pos + 1));
        assert(occurs_at(t, p, j) == occurs_at(u, p, j - pos));
        lemma_find_shift_from(t, pos, j + 1);
        assert(find_from(u, p, j - pos) == if occurs_at(u, p, j - pos) {
            Some(j - pos)
        } else {
            find_from(u, p, j - pos + 1)
        });
    } else {
        assert(find_from(u, p, j - pos) is None);
    }
}

/// No `<` or `>` in the text.
pub open spec fn no_tag_marks(s: Seq<char>) -> bool {
    forall|i: int| 0 <= i < s.len() ==> #[trigger] s[i] != '<' && s[i] != '>'
}

/// No line break in the text.
pub open spec fn no_newline(s: Seq<char>) -> bool {
    forall|i: int| 0 <= i < s.len() ==> #[trigger] s[i] != '\n'
}

/// Four line breaks in a row start at `i`.
pub open spec fn gap_at(s: Seq<char>, i: int) -> bool {
    s[i] == '\n' && s[i + 1] == '\n' && s[i + 2] == '\n' && s[i + 3] == '\n'
}

/// Nowhere four line breaks in a row, so no more than two blank lines.
pub open spec fn no_long_gap(s: Seq<char>) -> bool {
    forall|i: int| 0 <= i && i + 3 < s.len() ==> !#[trigger] gap_at(s, i)
}

/// The text starts with at most `k` line breaks (`k` from 0 to 2).
pub open spec fn lead_breaks_le(s: Seq<char>, k: int) -> bool {
    if k >= 2 {
        !(s.len() >= 3 && s[0] == '\n' && s[1] == '\n' && s[2] == '\n')
    } else if k == 1 {
        !(s.len() >= 2 && s[0] == '\n' && s[1] == '\n')
    } else {
        !(s.len() >= 1 && s[0] == '\n')
    }
}

proof fn lemma_strip_tags_marks(s: Seq<char>, in_tag: bool)
    ensures
        no_tag_marks(strip_tags(s, in_tag)),
    decreases s.len(),
{
    if s.len() > 0 {
        let c = s[0];
        let rest = s.drop_first();
        lemma_strip_tags_marks(rest, c == '<' || (c != '>' && in_tag));
        lemma_strip_tags_marks(rest, in_tag);
        lemma_strip_tags_marks(rest, true);
        lemma_strip_tags_marks(rest, false);
        if c != '<' && c != '>' && !in_tag {
            let t = strip_tags(rest, in_tag);
            assert forall|i: int| 0 <= i < (seq![c] + t).len() implies #[trigger] (seq![c] + t)[i]
                != '<' && (seq![c] + t)[i] != '>' by {
                if i > 0 {
                    assert((seq![c] + t)[i] == t[i - 1]);
                }
            }
        }
    }
}

proof fn lemma_find_newline(s: Seq<char>, j: int)
    requires
        0 <= j,
    ensures
        match find_from(s, seq!['\n'], j) {
            Some(k) => j <= k < s.len() && s[k] == '\n' && forall|m: int|
                j <= m < k ==> #[trigger] s[m] != '\n',
            None => forall|m: int| j <= m < s.len() ==> #[trigger] s[m] != '\n',
        },
    decreases s.len() + 1 - j,
{
    let p: Seq<char> = seq!['\n'];
    if j + 1 <= s.len() {
        assert(occurs_at(s, p, j) == (s[j] == '\n')) by {
            if s[j] == '\n' {
                assert(s.subrange(j, j + 1) =~= p);
            } else {
                assert(s.subrange(j, j + 1)[0] != p[0]);
            }
        }
        lemma_find_newline(s, j + 1);
    }
}

proof fn lemma_lines(t: Seq<char>)
    ensures
        forall|k: int| 0 <= k < lines_spec(t).len() ==> no_newline(#[trigger] lines_spec(t)[k]),
        no_tag_marks(t) ==> forall|k: int|
            0 <= k < lines_spec(t).len() ==> no_tag_marks(#[trigger] lines_spec(t)[k]),
    decreases t.len(),
{
    if t.len() > 0 {
        lemma_find_newline(t, 0);
        match find_from(t, seq!['\n'], 0) {
            Some(i) => {
                let first = strip_cr(t.take(i));
                let rest = t.skip(i + 1);
                lemma_lines(rest);
                let ls = lines_spec(t);
                assert(ls == seq![first] + lines_spec(rest));
                assert(no_newline(first)) by {
                    assert forall|m: int| 0 <= m < first.len() implies #[trigger] first[m] != '\n' by {
                        assert(first[m] == t[m]);
                    }
                }
                assert forall|k: int| 0 <= k < ls.len() implies no_newline(#[trigger] ls[k]) by {
                    if k > 0 {
                        assert(ls[k] == lines_spec(rest)[k - 1]);
                    }
                }
                if no_tag_marks(t) {
                    assert(no_tag_marks(rest)) by {
                        assert forall|m: int| 0 <= m < rest.len() implies #[trigger] rest[m] != '<'
                            && rest[m] != '>' by {
                            assert(rest[m] == t[m + i + 1]);
                        }
                    }
                    assert(no_tag_marks(first)) by {
                        assert forall|m: int| 0 <= m < first.len() implies #[trigger] first[m]
                            != '<' && first[m] != '>' by {
                            assert(first[m] == t[m]);
                        }
                    }
                    assert forall|k: int| 0 <= k < ls.len() implies no_tag_marks(#[trigger] ls[k]) by {
                        if k > 0 {
                            assert(ls[k] == lines_spec(rest)[k - 1]);
                        }
                    }
                }
            },
            None => {
                assert(lines_spec(t) == seq![t]);
            },
        }
    }
}

proof fn lemma_collapse(lines: Seq<Seq<char>>, blank: int)
    requires
        blank >= 0,
        forall|k: int| 0 <= k < lines.len() ==> no_newline(#[trigger] lines[k]),
    ensures
        no_long_gap(collapse_blank(lines, blank)),
        lead_breaks_le(collapse_blank(lines, blank), if blank >= 2 {
            0
        } else {
            2 - blank
        }),
        (forall|k: int| 0 <= k < lines.len() ==> no_tag_marks(#[trigger] lines[k]))
            ==> no_tag_marks(collapse_blank(lines, blank)),
    decreases lines.len(),
{
    if lines.len() > 0 {
        let rest = lines.drop_first();
        assert forall|k: int| 0 <= k < rest.len() implies no_newline(#[trigger] rest[k]) by {
            assert(rest[k] == lines[k + 1]);
        }
        let o = collapse_blank(lines, blank);
        if all_ws(lines[0]) {
            let tail = collapse_blank(rest, blank + 1);
            lemma_collapse(rest, blank + 1);
            let head: Seq<char> = if blank + 1 <= 2 {
                seq!['\n']
            } else {
                Seq::empty()
            };
            assert(o == head + tail);
            assert forall|i: int| 0 <= i && i + 3 < o.len() implies !#[trigger] gap_at(o, i) by {
                if head.len() == 1 {
                    if i == 0 {
                        assert(o[1] == tail[0] && o[2] == tail[1] && o[3] == tail[2]);
                    } else {
                        assert(o[i] == tail[i - 1] && o[i + 1] == tail[i] && o[i + 2] == tail[i + 1]
                            && o[i + 3] == tail[i + 2]);
                        assert(!gap_at(tail, i - 1));
                    }
                } else {
                    assert(o =~= tail);
                    assert(!gap_at(tail, i));
                }
            }
            if head.len() == 1 {
                assert(o[0] == '\n');
                assert(o.len() >= 1 ==> o[1 - 1] == '\n');
                if o.len() >= 2 {
                    assert(o[1] == tail[0]);
                }
                if o.len() >= 3 {
                    assert(o[2] == tail[1]);
                }
            } else {
                assert(o =~= tail);
            }
            if forall|k: int| 0 <= k < lines.len() ==> no_tag_marks(#[trigger] lines[k]) {
                assert forall|k: int| 0 <= k < rest.len() implies no_tag_marks(#[trigger] rest[k]) by {
                    assert(rest[k] == lines[k + 1]);
                }
                assert forall|i: int| 0 <= i < o.len() implies #[trigger] o[i] != '<' && o[i] != '>' by {
                    if head.len() == 1 && i > 0 {
                        assert(o[i] == tail[i - 1]);
                    } else if head.len() == 0 {
                        assert(o[i] == tail[i]);
                    }
                }
            }
        } else {
            let line = lines[0];
            let tail = collapse_blank(rest, 0);
            lemma_collapse(rest, 0);
            let head = line + seq!['\n'];
            assert(o == head + tail);
            assert(line.len() > 0);
            assert(no_newline(lines[0]));
            let n = line.len() as int;
            assert(head[n] == '\n');
            assert forall|i: int| 0 <= i && i + 3 < o.len() implies !#[trigger] gap_at(o, i) by {
                if i < n {
                    assert(o[i] == line[i]);
                } else if i == n {
                    assert(o[i + 1] == tail[0] && o[i + 2] == tail[1] && o[i + 3] == tail[2]);
                } else {
                    assert(o[i] == tail[i - n - 1] && o[i + 1] == tail[i - n] && o[i + 2] == tail[i
                        - n + 1] && o[i + 3] == tail[i - n + 2]);
                    assert(!gap_at(tail, i - n - 1));
                }
            }
            assert(o[0] == line[0]);
            if forall|k: int| 0 <= k < lines.len() ==> no_tag_marks(#[trigger] lines[k]) {
                assert forall|k: int| 0 <= k < rest.len() implies no_tag_marks(#[trigger] rest[k]) by {
                    assert(rest[k] == lines[k + 1]);
                }
                assert(no_tag_marks(lines[0]));
                assert forall|i: int| 0 <= i < o.len() implies #[trigger] o[i] != '<' && o[i] != '>' by {
                    if i < n {
                        assert(o[i] == line[i]);
                    } else if i > n {
                        assert(o[i] == tail[i - n - 1]);
                    }
                }
            }
        }
    }
}

/// The plain text of an HTML body holds no `<` or `>` (every tag is gone)
/// and never more than two blank lines in a row.
pub proof fn lemma_strip_html(html: Seq<char>)
    ensures
        no_tag_marks(strip_html_spec(html)),
        no_long_gap(strip_html_spec(html)),
{
    let t = strip_tags(html, false);
    lemma_strip_tags_marks(html, false);
    lemma_lines(t);
    lemma_collapse(lines_spec(t), 0);
}

// ---------------------------------------------------------------------------
// Text of the list and of the body
// ---------------------------------------------------------------------------

/// `s` as `&s[..max]` gives it when it is longer than `max` bytes.
pub open spec fn truncate_ok(s: &str, max: usize) -> bool {
    s.spec_bytes().len() <= max || is_char_boundary(s.spec_bytes(), max as int)
}

/// At most `max` bytes of `s`; cutting inside a character panics, so
/// callers keep the cut on a boundary.
pub fn truncate(s: &str, max: usize) -> (r: &str)
    requires
        truncate_ok(s, max),
    ensures
        r.spec_bytes() == if s.spec_bytes().len() <= max {
            s.spec_bytes()
        } else {
            s.spec_bytes().take(max as int)
        },
{
    if s.as_bytes().len() <= max {
        s
    } else {
        let (a, _b) = s.split_at(max);
        assert(a.spec_bytes() =~= s.spec_bytes().subrange(0, max as int));
        assert(s.spec_bytes().subrange(0, max as int) =~= s.spec_bytes().take(max as int));
        a
    }
}

/// `text` padded with spaces to `width` characters (`{:<width}`).
pub open spec fn pad_spec(text: Seq<char>, width: nat) -> Seq<char> {
    if text.len() < width {
        text + repeat_spec(seq![' '], (width - text.len()) as nat)
    } else {
        text
    }
}

pub fn pad_right(text: &str, width: usize) -> (r: String)
    ensures
        r@ == pad_spec(text@, width as nat),
{
    let cs = chars_of(text);
    let mut s = string_of(cs.as_slice());
    if cs.len() < width {
        push_repeat(&mut s, " ", width - cs.len());
        assert(" "@ =~= seq![' ']) by {
            reveal_strlit(" ");
        }
    }
    s
}

/// Who an email is from: the name, else the address, else `Unknown`.
pub open spec fn sender_spec(e: CachedEmail) -> Seq<char> {
    match opt_text(e.from_name) {
        Some(n) => n,
        None => match opt_text(e.from_addr) {
            Some(a) => a,
            None => "Unknown"@,
        },
    }
}

pub fn sender_label(e: &CachedEmail) -> (r: String)
    ensures
        r@ == sender_spec(*e),
{
    match &e.from_name {
        Some(n) => n.clone(),
        None => match &e.from_addr {
            Some(a) => a.clone(),
            None => owned("Unknown"),
        },
    }
}

/// An email's subject, or `(no subject)`.
pub open spec fn subject_spec(e: CachedEmail) -> Seq<char> {
    match opt_text(e.subject) {
        Some(s) => s,
        None => "(no subject)"@,
    }
}

pub fn subject_label(e: &CachedEmail) -> (r: String)
    ensures
        r@ == subject_spec(*e),
{
    match &e.subject {
        Some(s) => s.clone(),
        None => owned("(no subject)"),
    }
}

/// The unread marker of a row.
pub fn unread_marker(e: &CachedEmail) -> (r: &'static str)
    ensures
        r@ == if e.is_read {
            "  "@
        } else {
            "● "@
        },
{
    if !e.is_read {
        "● "
    } else {
        "  "
    }
}

/// The date shown in the list: the first ten bytes of the received time
/// when it has that many and they end on a character boundary, else nothing.
pub open spec fn list_date_ok(e: CachedEmail, r: Seq<u8>) -> bool {
    match e.received_at {
        Some(d) => if encode_utf8(d@).len() >= 10 && is_char_boundary(encode_utf8(d@), 10) {
            r == encode_utf8(d@).take(10)
        } else {
            r.len() == 0
        },
        None => r.len() == 0,
    }
}

pub fn list_date(e: &CachedEmail) -> (r: &str)
    ensures
        list_date_ok(*e, r.spec_bytes()),
{
    proof {
        reveal_strlit("");
        assert(""@ =~= Seq::<char>::empty());
    }
    match &e.received_at {
        Some(d) => {
            let s = d.as_str();
            if s.as_bytes().len() >= 10 && s.is_char_boundary(10) {
                let (a, _b) = s.split_at(10);
                assert(a.spec_bytes() =~= s.spec_bytes().take(10));
                a
            } else {
                ""
            }
        },
        None => "",
    }
}

/// The body shown for an email: its body, else its preview, else
/// `(no content)`.
pub open spec fn body_source(e: CachedEmail) -> Seq<char> {
    match opt_text(e.body) {
        Some(b) => b,
        None => match opt_text(e.preview) {
            Some(p) => p,
            None => "(no content)"@,
        },
    }
}

/// The text of the body panel for an email.
pub open spec fn email_text_spec(e: CachedEmail) -> Seq<char> {
    "Subject: "@ + subject_spec(e) + "\nFrom:    "@ + sender_spec(e) + "\nDate:    "@ + match opt_text(
        e.received_at,
    ) {
        Some(d) => d,
        None => "Unknown date"@,
    } + "\n"@ + repeat_spec("─"@, 60) + "\n\n"@ + strip_html_spec(body_source(e))
}

/// The text of the body panel: a header (subject, sender, date), a rule,
/// then the body as plain text; `No email selected.` without an email.
pub fn email_text(e: Option<&CachedEmail>) -> (r: String)
    ensures
        match e {
            Some(m) => r@ == email_text_spec(*m),
            None => r@ == "No email selected."@,
        },
{
    match e {
        None => owned("No email selected."),
        Some(m) => {
            let body = match &m.body {
                Some(b) => b.clone(),
                None => match &m.preview {
                    Some(p) => p.clone(),
                    None => owned("(no content)"),
                },
            };
            let date = match &m.received_at {
                Some(d) => d.clone(),
                None => owned("Unknown date"),
            };
            let mut s = owned("Subject: ");
            push_str(&mut s, subject_label(m).as_str());
            push_str(&mut s, "\nFrom:    ");
            push_str(&mut s, sender_label(m).as_str());
            push_str(&mut s, "\nDate:    ");
            push_str(&mut s, date.as_str());
            push_str(&mut s, "\n");
            push_repeat(&mut s, "─", 60);
            push_str(&mut s, "\n\n");
            push_str(&mut s, strip_html(body.as_str()).as_str());
            s
        },
    }
}

/// The first `max` bytes of the text's UTF-8 form (all of it when shorter).
pub open spec fn cut_bytes(s: Seq<char>, max: nat) -> Seq<u8> {
    if encode_utf8(s).len() <= max {
        encode_utf8(s)
    } else {
        encode_utf8(s).take(max as int)
    }
}

/// Cutting the text at `max` bytes falls between two characters.
pub open spec fn cut_ok(s: Seq<char>, max: nat) -> bool {
    encode_utf8(s).len() <= max || is_char_boundary(encode_utf8(s), max as int)
}

/// A column of the list: the text cut to `width` bytes, padded with spaces
/// to `width` characters.
pub open spec fn cell_spec(s: Seq<char>, width: nat) -> Seq<char> {
    pad_spec(decode_utf8(cut_bytes(s, width)), width)
}

pub fn cell(s: &str, width: usize) -> (r: String)
    requires
        cut_ok(s@, width as nat),
    ensures
        r@ == cell_spec(s@, width as nat),
{
    let t = truncate(s, width);
    proof {
        encode_utf8_decode_utf8(t@);
    }
    pad_right(t, width)
}

/// The date column: two spaces, then the first ten bytes of the received
/// time when it has them and they end between characters.
pub open spec fn date_cell_spec(e: CachedEmail) -> Seq<char> {
    "  "@ + match e.received_at {
        Some(d) => if encode_utf8(d@).len() >= 10 && is_char_boundary(encode_utf8(d@), 10) {
            decode_utf8(encode_utf8(d@).take(10))
        } else {
            Seq::empty()
        },
        None => Seq::empty(),
    }
}

/// The four columns of an inbox row.
pub struct ListRow {
    pub marker: &'static str,
    pub from: String,
    pub subject: String,
    pub date: String,
}

/// The columns of an email's row: the unread marker, the sender in 20
/// columns, the subject in 40, then the date. A cut inside a character
/// panics, so the sender's and subject's cuts must fall between characters.
pub fn list_row(e: &CachedEmail) -> (r: ListRow)
    requires
        cut_ok(sender_spec(*e), 20),
        cut_ok(subject_spec(*e), 40),
    ensures
        r.marker@ == if e.is_read {
            "  "@
        } else {
            "● "@
        },
        r.from@ == cell_spec(sender_spec(*e), 20),
        r.subject@ == cell_spec(subject_spec(*e), 40),
        r.date@ == date_cell_spec(*e),
{
    let from = sender_label(e);
    let subject = subject_label(e);
    let d = list_date(e);
    proof {
        encode_utf8_decode_utf8(d@);
        reveal_strlit("");
        assert(""@ =~= Seq::<char>::empty());
        assert(decode_utf8(Seq::<u8>::empty()) =~= Seq::<char>::empty());
    }
    let mut date = owned("  ");
    push_str(&mut date, d);
    ListRow {
        marker: unread_marker(e),
        from: cell(from.as_str(), 20),
        subject: cell(subject.as_str(), 40),
        date,
    }
}

} // verus!
