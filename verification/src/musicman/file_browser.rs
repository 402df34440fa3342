//! The tree browser over the music library: a flat list of visible nodes in
//! which every expanded directory is followed by its children, one level
//! deeper.
use vstd::prelude::*;
use crate::paths::{file_name, file_name_spec};
use crate::text::{chars_of, string_of, owned};

verus! {

// ---------------------------------------------------------------------------
// Directory listings
// ---------------------------------------------------------------------------

/// One entry of a directory listing: its path and whether it is a directory.
pub struct DirEntry {
    pub path: String,
    pub is_dir: bool,
}

impl View for DirEntry {
    type V = (Seq<char>, bool);

    open spec fn view(&self) -> (Seq<char>, bool) {
        (self.path@, self.is_dir)
    }
}

/// The views of a sequence of listing entries.
pub open spec fn entry_views(s: Seq<DirEntry>) -> Seq<(Seq<char>, bool)> {
    s.map_values(|e: DirEntry| e@)
}

/// Lexicographic order on character sequences by code point, which is the
/// byte order of their UTF-8 encodings.
pub open spec fn seq_lt(a: Seq<char>, b: Seq<char>) -> bool
    decreases a.len(),
{
    if a.len() == 0 {
        b.len() > 0
    } else if b.len() == 0 {
        false
    } else if a[0] != b[0] {
        a[0] < b[0]
    } else {
        seq_lt(a.drop_first(), b.drop_first())
    }
}

/// The order of `Option<&OsStr>`: `None` first, then by name.
pub open spec fn opt_name_lt(a: Option<Seq<char>>, b: Option<Seq<char>>) -> bool {
    match (a, b) {
        (None, Some(_)) => true,
        (Some(x), Some(y)) => seq_lt(x, y),
        _ => false,
    }
}

/// The listing order: directories before files, then by file name.
pub open spec fn entry_lt(a: (Seq<char>, bool), b: (Seq<char>, bool)) -> bool {
    ||| (a.1 && !b.1)
    ||| (a.1 == b.1 && opt_name_lt(file_name_spec(a.0), file_name_spec(b.0)))
}

/// Where stable insertion puts `x` into `s`: before the first element
/// strictly greater than `x`, searching from `j`.
pub open spec fn insert_pos(s: Seq<(Seq<char>, bool)>, x: (Seq<char>, bool), j: int) -> int
    decreases s.len() - j,
{
    if j < 0 || j >= s.len() {
        s.len() as int
    } else if entry_lt(x, s[j]) {
        j
    } else {
        insert_pos(s, x, j + 1)
    }
}

/// The listing sorted stably in listing order (what `sort_by` produces).
pub open spec fn sorted_listing(s: Seq<(Seq<char>, bool)>) -> Seq<(Seq<char>, bool)>
    decreases s.len(),
{
    if s.len() == 0 {
        Seq::empty()
    } else {
        let r = sorted_listing(s.drop_last());
        r.insert(insert_pos(r, s.last(), 0), s.last())
    }
}

proof fn lemma_insert_pos(s: Seq<(Seq<char>, bool)>, x: (Seq<char>, bool), j: int)
    requires
        0 <= j <= s.len(),
    ensures
        j <= insert_pos(s, x, j) <= s.len(),
    decreases s.len() - j,
{
    if j < s.len() && !entry_lt(x, s[j]) {
        lemma_insert_pos(s, x, j + 1);
    }
}

proof fn lemma_sorted_listing_len(s: Seq<(Seq<char>, bool)>)
    ensures
        sorted_listing(s).len() == s.len(),
    decreases s.len(),
{
    if s.len() > 0 {
        lemma_sorted_listing_len(s.drop_last());
        lemma_insert_pos(sorted_listing(s.drop_last()), s.last(), 0);
    }
}

/// A listing in listing order: no entry sorts before one ahead of it.
pub open spec fn listing_sorted(s: Seq<(Seq<char>, bool)>) -> bool {
    forall|i: int, j: int| 0 <= i < j < s.len() ==> !entry_lt(#[trigger] s[j], #[trigger] s[i])
}

proof fn lemma_seq_lt_irrefl(a: Seq<char>)
    ensures
        !seq_lt(a, a),
    decreases a.len(),
{
    if a.len() > 0 {
        lemma_seq_lt_irrefl(a.drop_first());
    }
}

proof fn lemma_seq_lt_trans(a: Seq<char>, b: Seq<char>, c: Seq<char>)
    requires
        seq_lt(a, b),
        seq_lt(b, c),
    ensures
        seq_lt(a, c),
    decreases a.len(),
{
    if a.len() > 0 && b.len() > 0 && c.len() > 0 && a[0] == b[0] && b[0] == c[0] {
        lemma_seq_lt_trans(a.drop_first(), b.drop_first(), c.drop_first());
    }
}

proof fn lemma_entry_lt_order(a: (Seq<char>, bool), b: (Seq<char>, bool), c: (Seq<char>, bool))
    ensures
        !entry_lt(a, a),
        entry_lt(a, b) && entry_lt(b, c) ==> entry_lt(a, c),
{
    if let Some(n) = file_name_spec(a.0) {
        lemma_seq_lt_irrefl(n);
    }
    if entry_lt(a, b) && entry_lt(b, c) {
        match (file_name_spec(a.0), file_name_spec(b.0), file_name_spec(c.0)) {
            (Some(x), Some(y), Some(z)) => {
                if seq_lt(x, y) && seq_lt(y, z) {
                    lemma_seq_lt_trans(x, y, z);
                }
            },
            _ => {},
        }
    }
}

proof fn lemma_insert_pos_bounds(s: Seq<(Seq<char>, bool)>, x: (Seq<char>, bool), j: int)
    requires
        0 <= j <= s.len(),
    ensures
        forall|k: int| j <= k < insert_pos(s, x, j) ==> !entry_lt(x, #[trigger] s[k]),
        insert_pos(s, x, j) < s.len() ==> entry_lt(x, s[insert_pos(s, x, j)]),
    decreases s.len() - j,
{
    if j < s.len() && !entry_lt(x, s[j]) {
        lemma_insert_pos_bounds(s, x, j + 1);
    }
}

/// Sorting a listing puts it in listing order (directories first, then
/// by file name) and keeps exactly its entries.
pub proof fn lemma_sorted_listing(s: Seq<(Seq<char>, bool)>)
    ensures
        listing_sorted(sorted_listing(s)),
        sorted_listing(s).to_multiset() == s.to_multiset(),
    decreases s.len(),
{
    broadcast use vstd::seq_lib::to_multiset_insert, vstd::seq_lib::to_multiset_build;

    if s.len() == 0 {
        assert(sorted_listing(s) =~= s);
    } else {
        let r = sorted_listing(s.drop_last());
        let x = s.last();
        lemma_sorted_listing(s.drop_last());
        lemma_sorted_listing_len(s.drop_last());
        lemma_insert_pos(r, x, 0);
        lemma_insert_pos_bounds(r, x, 0);
        let p = insert_pos(r, x, 0);
        let t = r.insert(p, x);
        assert(t == sorted_listing(s));
        assert forall|i: int, j: int| 0 <= i < j < t.len() implies !entry_lt(
            #[trigger] t[j],
            #[trigger] t[i],
        ) by {
            if j < p {
                assert(t[i] == r[i] && t[j] == r[j]);
            } else if j == p {
                assert(t[i] == r[i]);
            } else if i < p {
                assert(t[i] == r[i] && t[j] == r[j - 1]);
            } else if i == p {
                assert(t[j] == r[j - 1]);
                lemma_entry_lt_order(r[j - 1], x, r[p]);
                lemma_entry_lt_order(r[p], x, r[p]);
                if p < j - 1 {
                    assert(!entry_lt(r[j - 1], r[p]));
                }
            } else {
                assert(t[i] == r[i - 1] && t[j] == r[j - 1]);
            }
        }
        assert(s.drop_last().push(x) =~= s);
    }
}

fn seq_lt_exec(a: &[char], b: &[char]) -> (r: bool)
    ensures
        r == seq_lt(a@, b@),
{
    let mut i: usize = 0;
    assert(a@.skip(0) =~= a@);
    assert(b@.skip(0) =~= b@);
    while i < a.len() && i < b.len() && a[i] == b[i]
        invariant
            i <= a.len(),
            i <= b.len(),
            seq_lt(a@, b@) == seq_lt(a@.skip(i as int), b@.skip(i as int)),
        decreases a.len() - i,
    {
        assert(a@.skip(i as int).drop_first() =~= a@.skip(i + 1));
        assert(b@.skip(i as int).drop_first() =~= b@.skip(i + 1));
        i = i + 1;
    }
    if i == a.len() {
        i < b.len()
    } else if i == b.len() {
        false
    } else {
        a[i] < b[i]
    }
}

fn entry_lt_exec(a: &DirEntry, an: &Option<Vec<char>>, b: &DirEntry, bn: &Option<Vec<char>>) -> (r:
    bool)
    requires
        match an {
            Some(n) => file_name_spec(a.path@) == Some(n@),
            None => file_name_spec(a.path@) is None,
        },
        match bn {
            Some(n) => file_name_spec(b.path@) == Some(n@),
            None => file_name_spec(b.path@) is None,
        },
    ensures
        r == entry_lt(a@, b@),
{
    if a.is_dir && !b.is_dir {
        return true;
    }
    if a.is_dir != b.is_dir {
        return false;
    }
    match (an, bn) {
        (None, Some(_)) => true,
        (Some(x), Some(y)) => seq_lt_exec(x.as_slice(), y.as_slice()),
        _ => false,
    }
}

/// The name of an entry's path, as `Path::file_name` gives it.
pub open spec fn name_matches(p: Seq<char>, n: Option<Vec<char>>) -> bool {
    match n {
        Some(v) => file_name_spec(p) == Some(v@),
        None => file_name_spec(p) is None,
    }
}

fn entry_name(e: &DirEntry) -> (r: Option<Vec<char>>)
    ensures
        name_matches(e.path@, r),
{
    let cs = chars_of(e.path.as_str());
    file_name(cs.as_slice())
}

/// Sorts a directory listing: directories first, then files, each group by
/// file name; entries that compare equal keep their order.
pub fn sort_listing(entries: Vec<DirEntry>) -> (r: Vec<DirEntry>)
    ensures
        entry_views(r@) == sorted_listing(entry_views(entries@)),
{
    let ghost orig = entry_views(entries@);
    let mut rest = entries;
    let mut sorted: Vec<DirEntry> = Vec::new();
    let mut names: Vec<Option<Vec<char>>> = Vec::new();
    let mut i: usize = 0;
    let n = rest.len();
    assert(orig.take(0) =~= Seq::<(Seq<char>, bool)>::empty());
    while rest.len() > 0
        invariant
            n == orig.len(),
            i + rest.len() == n,
            entry_views(rest@) == orig.skip(i as int),
            entry_views(sorted@) == sorted_listing(orig.take(i as int)),
            names.len() == sorted.len(),
            forall|k: int|
                0 <= k < sorted.len() ==> name_matches(#[trigger] sorted@[k].path@, names@[k]),
        decreases rest.len(),
    {
        let ghost before = rest@;
        let e = rest.remove(0);
        proof {
            assert(rest@ =~= before.drop_first());
            assert(entry_views(before)[0] == orig[i as int]);
            assert(entry_views(rest@) =~= entry_views(before).drop_first());
            assert(orig.skip(i as int).drop_first() =~= orig.skip(i + 1));
        }
        let en = entry_name(&e);
        let mut j: usize = 0;
        let ghost sv = entry_views(sorted@);
        while j < sorted.len() && !entry_lt_exec(&e, &en, &sorted[j], &names[j])
            invariant
                j <= sorted.len(),
                names.len() == sorted.len(),
                sv == entry_views(sorted@),
                name_matches(e.path@, en),
                forall|k: int|
                    0 <= k < sorted.len() ==> name_matches(#[trigger] sorted@[k].path@, names@[k]),
                insert_pos(sv, e@, 0) == insert_pos(sv, e@, j as int),
            decreases sorted.len() - j,
        {
            assert(sv[j as int] == sorted@[j as int]@);
            j = j + 1;
        }
        proof {
            if j < sorted.len() {
                assert(sv[j as int] == sorted@[j as int]@);
            }
            assert(insert_pos(sv, e@, 0) == j);
        }
        let ghost old_sorted = sorted@;
        let ghost old_names = names@;
        sorted.insert(j, e);
        names.insert(j, en);
        proof {
            assert(entry_views(sorted@) =~= sv.insert(j as int, e@));
            assert(orig.take(i + 1).drop_last() =~= orig.take(i as int));
            assert(orig.take(i + 1).last() == e@);
            assert forall|k: int| 0 <= k < sorted.len() implies name_matches(
                #[trigger] sorted@[k].path@,
                names@[k],
            ) by {
                if k < j {
                    assert(sorted@[k] == old_sorted[k]);
                } else if k > j {
                    assert(sorted@[k] == old_sorted[k - 1]);
                    assert(names@[k] == old_names[k - 1]);
                }
            }
        }
        i = i + 1;
    }
    assert(orig.take(n as int) =~= orig);
    sorted
}

// ---------------------------------------------------------------------------
// Nodes
// ---------------------------------------------------------------------------

/// One visible row of the browser.
#[derive(Debug, Clone)]
pub struct FileNode {
    pub path: String,
    pub name: String,
    pub is_dir: bool,
    pub depth: usize,
    pub expanded: bool,
    pub children_loaded: bool,
    /// Per-folder toggle: sort by file creation date for track numbering
    pub date_order_enabled: bool,
}

/// The mathematical content of a [`FileNode`].
pub struct FileNodeView {
    pub path: Seq<char>,
    pub name: Seq<char>,
    pub is_dir: bool,
    pub depth: nat,
    pub expanded: bool,
    pub children_loaded: bool,
    pub date_order_enabled: bool,
}

impl View for FileNode {
    type V = FileNodeView;

    open spec fn view(&self) -> FileNodeView {
        FileNodeView {
            path: self.path@,
            name: self.name@,
            is_dir: self.is_dir,
            depth: self.depth as nat,
            expanded: self.expanded,
            children_loaded: self.children_loaded,
            date_order_enabled: self.date_order_enabled,
        }
    }
}

/// The label of a node: the last component of its path, or the whole path
/// when it has none.
pub open spec fn node_name(path: Seq<char>) -> Seq<char> {
    match file_name_spec(path) {
        Some(n) => n,
        None => path,
    }
}

/// A freshly listed node: collapsed, children not loaded, date order off.
pub open spec fn new_node(path: Seq<char>, depth: nat, is_dir: bool) -> FileNodeView {
    FileNodeView {
        path: path,
        name: node_name(path),
        is_dir: is_dir,
        depth: depth,
        expanded: false,
        children_loaded: false,
        date_order_enabled: false,
    }
}

/// The nodes for a (sorted) listing, all at `depth`.
pub open spec fn listing_nodes(s: Seq<(Seq<char>, bool)>, depth: nat) -> Seq<FileNodeView> {
    s.map_values(|e: (Seq<char>, bool)| new_node(e.0, depth, e.1))
}

/// The views of a sequence of nodes.
pub open spec fn node_views(s: Seq<FileNode>) -> Seq<FileNodeView> {
    s.map_values(|n: FileNode| n@)
}

impl FileNode {
    /// A node for `path` at `depth`; `is_dir` is what the file system says of
    /// the path.
    pub fn new(path: String, depth: usize, is_dir: bool) -> (r: FileNode)
        ensures
            r@ == new_node(path@, depth as nat, is_dir),
    {
        let cs = chars_of(path.as_str());
        let name = match file_name(cs.as_slice()) {
            Some(n) => string_of(n.as_slice()),
            None => owned(path.as_str()),
        };
        FileNode {
            path,
            name,
            is_dir,
            depth,
            expanded: false,
            children_loaded: false,
            date_order_enabled: false,
        }
    }
}

// ---------------------------------------------------------------------------
// Shape of the visible list
// ---------------------------------------------------------------------------

/// Between two neighbouring rows the depth grows by at most one, and only
/// below an expanded directory.
pub open spec fn step_ok(a: FileNodeView, b: FileNodeView) -> bool {
    &&& b.depth <= a.depth + 1
    &&& b.depth == a.depth + 1 ==> a.is_dir && a.expanded
}

/// `step_ok` between row `i` and row `i + 1`.
pub open spec fn step_at(s: Seq<FileNodeView>, i: int) -> bool {
    step_ok(s[i], s[i + 1])
}

/// The visible list is the flattening of a tree: it starts at depth 0 and
/// every row sits at most one level below its predecessor, which is then an
/// expanded directory.
pub open spec fn nodes_wf(s: Seq<FileNodeView>) -> bool {
    &&& s.len() > 0 ==> s[0].depth == 0
    &&& forall|i: int| 0 <= i < s.len() - 1 ==> #[trigger] step_at(s, i)
}

proof fn lemma_depth_bound(s: Seq<FileNodeView>, i: int)
    requires
        nodes_wf(s),
        0 <= i < s.len(),
    ensures
        s[i].depth <= i,
    decreases i,
{
    if i > 0 {
        lemma_depth_bound(s, i - 1);
        assert(step_at(s, i - 1));
    }
}

/// The first row at or after `j` whose depth is at most `d` (or the length).
pub open spec fn first_shallow(s: Seq<FileNodeView>, j: int, d: nat) -> int
    decreases s.len() - j,
{
    if j < 0 || j >= s.len() {
        s.len() as int
    } else if s[j].depth <= d {
        j
    } else {
        first_shallow(s, j + 1, d)
    }
}

proof fn lemma_first_shallow(s: Seq<FileNodeView>, j: int, d: nat)
    requires
        0 <= j <= s.len(),
    ensures
        j <= first_shallow(s, j, d) <= s.len(),
        forall|k: int| j <= k < first_shallow(s, j, d) ==> s[k].depth > d,
        first_shallow(s, j, d) < s.len() ==> s[first_shallow(s, j, d)].depth <= d,
    decreases s.len() - j,
{
    if j < s.len() && s[j].depth > d {
        lemma_first_shallow(s, j + 1, d);
    }
}

/// The last directory strictly before row `k + 1` (searching down from `k`)
/// whose depth is `target`.
pub open spec fn find_parent(s: Seq<FileNodeView>, k: int, target: nat) -> Option<int>
    decreases k + 1,
{
    if k < 0 || k >= s.len() {
        None
    } else if s[k].depth == target && s[k].is_dir {
        Some(k)
    } else {
        find_parent(s, k - 1, target)
    }
}

proof fn lemma_find_parent(s: Seq<FileNodeView>, k: int, target: nat)
    requires
        k < s.len(),
    ensures
        find_parent(s, k, target) matches Some(p) ==> 0 <= p <= k && s[p].depth == target
            && s[p].is_dir,
    decreases k + 1,
{
    if k >= 0 && !(s[k].depth == target && s[k].is_dir) {
        lemma_find_parent(s, k - 1, target);
    }
}

/// A node with its `expanded` and `children_loaded` flags set.
pub open spec fn opened(n: FileNodeView) -> FileNodeView {
    FileNodeView { expanded: true, children_loaded: true, ..n }
}

/// A node with its `expanded` flag cleared.
pub open spec fn closed(n: FileNodeView) -> FileNodeView {
    FileNodeView { expanded: false, ..n }
}

/// The rows after collapsing row `idx`: its descendants (the rows after it
/// that are deeper) disappear and it is marked collapsed.
pub open spec fn collapse_rows(s: Seq<FileNodeView>, idx: int) -> Seq<FileNodeView> {
    s.take(idx) + seq![closed(s[idx])] + s.skip(first_shallow(s, idx + 1, s[idx].depth))
}

/// The rows after expanding row `idx` with the given listing.
pub open spec fn expand_rows(s: Seq<FileNodeView>, idx: int, listing: Seq<(Seq<char>, bool)>) -> Seq<
    FileNodeView,
> {
    s.take(idx) + seq![opened(s[idx])] + listing_nodes(sorted_listing(listing), s[idx].depth + 1)
        + s.skip(idx + 1)
}

proof fn lemma_first_shallow_at(s: Seq<FileNodeView>, j: int, d: nat, e: int)
    requires
        0 <= j <= e <= s.len(),
        forall|k: int| j <= k < e ==> s[k].depth > d,
        e == s.len() || s[e].depth <= d,
    ensures
        first_shallow(s, j, d) == e,
    decreases e - j,
{
    if j < e {
        lemma_first_shallow_at(s, j + 1, d, e);
    }
}

/// Expanding a collapsed directory keeps the list a flattened tree.
pub proof fn lemma_expand_wf(s: Seq<FileNodeView>, idx: int, listing: Seq<(Seq<char>, bool)>)
    requires
        nodes_wf(s),
        0 <= idx < s.len(),
        s[idx].is_dir,
        !s[idx].expanded,
    ensures
        nodes_wf(expand_rows(s, idx, listing)),
{
    let d = s[idx].depth;
    let kids = listing_nodes(sorted_listing(listing), d + 1);
    let n = expand_rows(s, idx, listing);
    let k = kids.len() as int;
    assert(n.len() == s.len() + k);
    assert forall|j: int| 0 <= j < idx implies n[j] == s[j] by {}
    assert(n[idx] == opened(s[idx]));
    assert forall|m: int| 0 <= m < k implies #[trigger] n[idx + 1 + m] == kids[m] by {}
    assert forall|m: int| 0 <= m < s.len() - idx - 1 implies #[trigger] n[idx + 1 + k + m] == s[idx + 1 + m] by {}
    assert forall|i: int| 0 <= i < n.len() - 1 implies #[trigger] step_at(n, i) by {
        if i < idx - 1 {
            assert(step_at(s, i));
        } else if i == idx - 1 {
            assert(step_at(s, i));
        } else if i == idx {
            if k == 0 {
                assert(step_at(s, idx));
            }
        } else if i < idx + k {
        } else if i == idx + k {
            assert(step_at(s, idx));
        } else {
            assert(step_at(s, i - k));
        }
    }
}

/// Collapsing any row keeps the list a flattened tree.
pub proof fn lemma_collapse_wf(s: Seq<FileNodeView>, idx: int)
    requires
        nodes_wf(s),
        0 <= idx < s.len(),
    ensures
        nodes_wf(collapse_rows(s, idx)),
{
    let d = s[idx].depth;
    let e = first_shallow(s, idx + 1, d);
    lemma_first_shallow(s, idx + 1, d);
    let n = collapse_rows(s, idx);
    assert(n.len() == idx + 1 + s.len() - e);
    assert forall|j: int| 0 <= j < idx implies n[j] == s[j] by {}
    assert(n[idx] == closed(s[idx]));
    assert forall|m: int| 0 <= m < s.len() - e implies #[trigger] n[idx + 1 + m] == s[e + m] by {}
    assert forall|i: int| 0 <= i < n.len() - 1 implies #[trigger] step_at(n, i) by {
        if i < idx {
            assert(step_at(s, i));
        } else if i == idx {
        } else {
            assert(step_at(s, e + i - idx - 1));
        }
    }
}

/// Collapsing a directory right after expanding it gives back the rows it
/// had, with only the `children_loaded` flag of that directory now set.
pub proof fn lemma_expand_then_collapse(
    s: Seq<FileNodeView>,
    idx: int,
    listing: Seq<(Seq<char>, bool)>,
)
    requires
        nodes_wf(s),
        0 <= idx < s.len(),
        s[idx].is_dir,
        !s[idx].expanded,
    ensures
        collapse_rows(expand_rows(s, idx, listing), idx) == s.update(
            idx,
            FileNodeView { children_loaded: true, ..s[idx] },
        ),
{
    let d = s[idx].depth;
    let kids = listing_nodes(sorted_listing(listing), d + 1);
    let n = expand_rows(s, idx, listing);
    let k = kids.len() as int;
    assert forall|m: int| 0 <= m < k implies #[trigger] n[idx + 1 + m] == kids[m] by {}
    if idx + 1 < s.len() {
        assert(step_at(s, idx));
        assert(n[idx + 1 + k] == s[idx + 1]);
    }
    lemma_first_shallow_at(n, idx + 1, d, idx + 1 + k);
    assert(n[idx].depth == d);
    assert(n.skip(idx + 1 + k) =~= s.skip(idx + 1));
    assert(n.take(idx) =~= s.take(idx));
    assert(collapse_rows(n, idx) =~= s.update(idx, FileNodeView { children_loaded: true, ..s[idx] }));
}

/// Toggling the date-order flag twice gives back the browser's rows.
proof fn lemma_parent_scan(s: Seq<FileNodeView>, idx: int, k: int)
    requires
        nodes_wf(s),
        0 <= k < idx < s.len(),
        s[idx].depth > 0,
        forall|j: int| k < j < idx ==> #[trigger] s[j].depth > s[idx].depth - 1,
    ensures
        find_parent(s, k, (s[idx].depth - 1) as nat) matches Some(p) && 0 <= p <= k
            && s[p].depth == s[idx].depth - 1 && s[p].is_dir && s[p].expanded && forall|j: int|
            p < j < idx ==> #[trigger] s[j].depth > s[idx].depth - 1,
    decreases k,
{
    let t = (s[idx].depth - 1) as nat;
    assert(step_at(s, k));
    if s[k].depth > t {
        if k == 0 {
            assert(s[0].depth == 0);
        }
        lemma_parent_scan(s, idx, k - 1);
    } else {
        if k + 1 < idx {
            assert(s[k + 1].depth > t);
        }
        assert(s[k + 1].depth > t);
    }
}

/// Collapsing from inside a folder collapses the nearest folder above the
/// selected row one level up: that folder was open, everything between it
/// and the selected row lies inside it (is deeper), it becomes the
/// selection, it closes, the rows above it stay, and its contents, the
/// selected row among them, leave the list.
pub proof fn lemma_collapse_from_inside(a: FileBrowser, b: FileBrowser)
    requires
        a.wf(),
        a.collapsed(b),
        a.selected < a.nodes.len(),
        !(a.rows()[a.selected as int].is_dir && a.rows()[a.selected as int].expanded),
        a.rows()[a.selected as int].depth > 0,
    ensures
        b.selected < a.selected,
        a.rows()[b.selected as int].depth + 1 == a.rows()[a.selected as int].depth,
        a.rows()[b.selected as int].is_dir,
        a.rows()[b.selected as int].expanded,
        forall|j: int|
            b.selected < j < a.selected ==> #[trigger] a.rows()[j].depth
                >= a.rows()[a.selected as int].depth,
        !b.rows()[b.selected as int].expanded,
        b.rows().take(b.selected as int) == a.rows().take(b.selected as int),
        b.rows().len() + (a.selected - b.selected) <= a.rows().len(),
{
    let s = a.rows();
    let idx = a.selected as int;
    let t = (s[idx].depth - 1) as nat;
    assert(idx > 0) by {
        if idx == 0 {
            assert(s[0].depth == 0);
        }
    }
    lemma_parent_scan(s, idx, idx - 1);
    let p = find_parent(s, idx - 1, t)->0;
    assert(b.selected == p);
    lemma_first_shallow(s, p + 1, s[p].depth);
    let f = first_shallow(s, p + 1, s[p].depth);
    assert(f > idx) by {
        if f <= idx {
            if f < idx {
                assert(s[f].depth > t);
            }
        }
    }
    let r = collapse_rows(s, p);
    assert(b.rows() == r);
    assert(r[p] == closed(s[p]));
    assert(r.take(p) =~= s.take(p));
}

pub proof fn lemma_toggle_twice(a: FileBrowser, b: FileBrowser, c: FileBrowser)
    requires
        a.toggled(b),
        b.toggled(c),
    ensures
        c.root == a.root,
        c.selected == a.selected,
        c.rows() == a.rows(),
{
    if a.selected < a.nodes.len() {
        assert(b.rows().len() == a.rows().len());
        assert(b.nodes.len() == a.nodes.len());
        assert(c.rows() =~= a.rows());
    } else {
        assert(b.rows().len() == a.rows().len());
        assert(b.nodes.len() == a.nodes.len());
    }
}

proof fn lemma_views_insert(s: Seq<FileNode>, i: int, x: FileNode)
    requires
        0 <= i <= s.len(),
    ensures
        node_views(s.insert(i, x)) == node_views(s).insert(i, x@),
{
    assert(node_views(s.insert(i, x)) =~= node_views(s).insert(i, x@));
}

proof fn lemma_views_remove(s: Seq<FileNode>, i: int)
    requires
        0 <= i < s.len(),
    ensures
        node_views(s.remove(i)) == node_views(s).remove(i),
{
    assert(node_views(s.remove(i)) =~= node_views(s).remove(i));
}

// ---------------------------------------------------------------------------
// Actions offered on a selection
// ---------------------------------------------------------------------------

/// Actions available on a selected path, shown in the right panel
#[derive(Debug, Clone, Copy, PartialEq, Eq, Structural)]
pub enum FolderAction {
    FetchMetadata,
    CleanMetadata,
    ConvertToM4A,
    DateOrderTracknumbers,
    ExportToIpod,
    WriteBack,
}

/// The label shown for an action.
pub open spec fn action_label(a: FolderAction) -> Seq<char> {
    match a {
        FolderAction::FetchMetadata => "[f] Fetch metadata"@,
        FolderAction::CleanMetadata => "[c] Clean metadata"@,
        FolderAction::ConvertToM4A => "[v] Convert to M4A"@,
        FolderAction::DateOrderTracknumbers => "[d] Date-order track numbers"@,
        FolderAction::ExportToIpod => "[e] Export to iPod"@,
        FolderAction::WriteBack => "[w] Write back to source"@,
    }
}

/// The actions offered for a directory, or for a file.
pub open spec fn actions_for(is_dir: bool) -> Seq<FolderAction> {
    if is_dir {
        seq![
            FolderAction::FetchMetadata,
            FolderAction::CleanMetadata,
            FolderAction::ConvertToM4A,
            FolderAction::DateOrderTracknumbers,
            FolderAction::ExportToIpod,
            FolderAction::WriteBack,
        ]
    } else {
        seq![FolderAction::FetchMetadata, FolderAction::CleanMetadata, FolderAction::ConvertToM4A]
    }
}

impl FolderAction {
    /// The label shown for this action.
    pub fn label(&self) -> (r: &'static str)
        ensures
            r@ == action_label(*self),
    {
        match self {
            FolderAction::FetchMetadata => "[f] Fetch metadata",
            FolderAction::CleanMetadata => "[c] Clean metadata",
            FolderAction::ConvertToM4A => "[v] Convert to M4A",
            FolderAction::DateOrderTracknumbers => "[d] Date-order track numbers",
            FolderAction::ExportToIpod => "[e] Export to iPod",
            FolderAction::WriteBack => "[w] Write back to source",
        }
    }

    /// The actions for a path; `is_dir` is whether the path is a directory
    /// on disk.
    pub fn available_for(is_dir: bool) -> (r: Vec<FolderAction>)
        ensures
            r@ == actions_for(is_dir),
    {
        if is_dir {
            let r = vec![
                FolderAction::FetchMetadata,
                FolderAction::CleanMetadata,
                FolderAction::ConvertToM4A,
                FolderAction::DateOrderTracknumbers,
                FolderAction::ExportToIpod,
                FolderAction::WriteBack,
            ];
            assert(r@ =~= actions_for(is_dir));
            r
        } else {
            let r = vec![
                FolderAction::FetchMetadata,
                FolderAction::CleanMetadata,
                FolderAction::ConvertToM4A,
            ];
            assert(r@ =~= actions_for(is_dir));
            r
        }
    }
}

// ---------------------------------------------------------------------------
// The browser
// ---------------------------------------------------------------------------

pub struct FileBrowser {
    pub root: String,
    /// Flat list of visible nodes (expanded tree)
    pub nodes: Vec<FileNode>,
    pub selected: usize,
}

impl FileBrowser {
    /// The visible rows.
    pub open spec fn rows(&self) -> Seq<FileNodeView> {
        node_views(self.nodes@)
    }

    /// The rows form a flattened tree and the selection is a row (or 0 when
    /// there are none).
    pub open spec fn wf(&self) -> bool {
        &&& nodes_wf(self.rows())
        &&& self.nodes.len() == 0 ==> self.selected == 0
        &&& self.nodes.len() > 0 ==> self.selected < self.nodes.len()
    }

    /// Whether expanding the selection would list a directory: the selection
    /// is a collapsed directory.
    pub open spec fn can_expand(&self) -> bool {
        &&& self.selected < self.nodes.len()
        &&& self.rows()[self.selected as int].is_dir
        &&& !self.rows()[self.selected as int].expanded
    }

    /// A browser over `root`, whose listing (entries in any order) is given.
    pub fn new(root: String, listing: Vec<DirEntry>) -> (r: FileBrowser)
        ensures
            r.wf(),
            r.root@ == root@,
            r.selected == 0,
            r.rows() == listing_nodes(sorted_listing(entry_views(listing@)), 0),
    {
        let mut browser = FileBrowser { root, nodes: Vec::new(), selected: 0 };
        browser.load_root(listing);
        browser
    }

    /// Replaces the rows by the root's listing, sorted, at depth 0.
    fn load_root(&mut self, listing: Vec<DirEntry>)
        requires
            old(self).selected == 0,
        ensures
            final(self).wf(),
            final(self).root == old(self).root,
            final(self).selected == 0,
            final(self).rows() == listing_nodes(sorted_listing(entry_views(listing@)), 0),
    {
        self.nodes.clear();
        let ghost sv = sorted_listing(entry_views(listing@));
        let n = listing.len();
        proof {
            lemma_sorted_listing_len(entry_views(listing@));
        }
        let mut rest = sort_listing(listing);
        let mut i: usize = 0;
        assert(entry_views(rest@).skip(0) =~= entry_views(rest@));
        assert(self.rows() =~= listing_nodes(sv.take(0), 0));
        let ghost r0 = self.root;
        while rest.len() > 0
            invariant
                self.selected == 0,
                self.root == r0,
                self.nodes.len() == i,
                sv.len() == n,
                entry_views(rest@) == sv.skip(i as int),
                i <= sv.len(),
                self.rows() == listing_nodes(sv.take(i as int), 0),
            decreases rest.len(),
        {
            let ghost before = rest@;
            let e = rest.remove(0);
            proof {
                assert(rest@ =~= before.drop_first());
                assert(entry_views(before).len() == before.len());
                assert(entry_views(before) == sv.skip(i as int));
                assert(entry_views(before)[0] == sv[i as int]);
                assert(entry_views(rest@) =~= entry_views(before).drop_first());
                assert(sv.skip(i as int).drop_first() =~= sv.skip(i + 1));
            }
            proof {
                assert(before[0] == e);
                assert(entry_views(before)[0] == e@);
                assert(i < sv.len());
            }
            let node = FileNode::new(e.path, 0, e.is_dir);
            let ghost prev = self.nodes@;
            self.nodes.push(node);
            proof {
                assert(self.nodes@ == prev.push(node));
                assert(node_views(prev) == listing_nodes(sv.take(i as int), 0));
                assert(node_views(prev.push(node)) =~= node_views(prev).push(node@));
                assert(listing_nodes(sv.take(i + 1), 0) =~= listing_nodes(sv.take(i as int), 0).push(
                    new_node(sv[i as int].0, 0, sv[i as int].1),
                ));
                assert(self.rows() =~= listing_nodes(sv.take(i + 1), 0));
            }
            i = i + 1;
        }
        assert(sv.take(i as int) =~= sv);
        assert forall|k: int| 0 <= k < self.rows().len() - 1 implies #[trigger] step_at(
            self.rows(),
            k,
        ) by {}
    }

    /// After `move_up`: the selection moves one row up, stopping at the top.
    pub open spec fn moved_up(self, after: FileBrowser) -> bool {
        after == FileBrowser {
            selected: if self.selected > 0 {
                (self.selected - 1) as usize
            } else {
                0
            },
            ..self
        }
    }

    /// After `move_down`: the selection moves one row down, stopping at the
    /// last row.
    pub open spec fn moved_down(self, after: FileBrowser) -> bool {
        after == FileBrowser {
            selected: if self.selected + 1 < self.nodes.len() {
                (self.selected + 1) as usize
            } else {
                self.selected
            },
            ..self
        }
    }

    /// After `expand_selected` with a listing: a collapsed directory under
    /// the selection gets its sorted listing inserted below it, one level
    /// deeper; otherwise nothing changes.
    pub open spec fn expanded_with(self, after: FileBrowser, listing: Seq<(Seq<char>, bool)>) -> bool {
        &&& after.root == self.root
        &&& after.selected == self.selected
        &&& self.can_expand() ==> after.rows() == expand_rows(
            self.rows(),
            self.selected as int,
            listing,
        )
        &&& !self.can_expand() ==> after.rows() == self.rows()
    }

    /// After `collapse_selected`.
    pub open spec fn collapsed(self, after: FileBrowser) -> bool {
        let s = self.rows();
        let idx = self.selected as int;
        &&& after.root == self.root
        &&& if idx >= s.len() {
            after.rows() == s && after.selected == idx
        } else if s[idx].is_dir && s[idx].expanded {
            after.rows() == collapse_rows(s, idx) && after.selected == idx
        } else if s[idx].depth > 0 {
            match find_parent(s, idx - 1, (s[idx].depth - 1) as nat) {
                Some(p) => after.selected == p && after.rows() == collapse_rows(s, p),
                None => after.rows() == s && after.selected == idx,
            }
        } else {
            after.rows() == s && after.selected == idx
        }
    }

    /// After `toggle_date_order`: the selected row's date-order flag flips.
    pub open spec fn toggled(self, after: FileBrowser) -> bool {
        &&& after.root == self.root
        &&& after.selected == self.selected
        &&& self.selected < self.nodes.len() ==> after.rows() == self.rows().update(
            self.selected as int,
            FileNodeView {
                date_order_enabled: !self.rows()[self.selected as int].date_order_enabled,
                ..self.rows()[self.selected as int]
            },
        )
        &&& self.selected >= self.nodes.len() ==> after.rows() == self.rows()
    }

    pub fn move_up(&mut self)
        requires
            old(self).wf(),
        ensures
            final(self).wf(),
            old(self).moved_up(*final(self)),
    {
        if self.selected > 0 {
            self.selected -= 1;
        }
    }

    pub fn move_down(&mut self)
        requires
            old(self).wf(),
        ensures
            final(self).wf(),
            old(self).moved_down(*final(self)),
    {
        if self.selected + 1 < self.nodes.len() {
            self.selected += 1;
        }
    }

    /// The directory whose listing `expand_selected` needs: the selected
    /// path when the selection is a collapsed directory.
    pub fn expand_target(&self) -> (r: Option<String>)
        ensures
            match r {
                Some(p) => self.can_expand() && p@ == self.rows()[self.selected as int].path,
                None => !self.can_expand(),
            },
    {
        let idx = self.selected;
        if idx >= self.nodes.len() {
            return None;
        }
        let node = &self.nodes[idx];
        if !node.is_dir || node.expanded {
            return None;
        }
        Some(node.path.clone())
    }

    /// Expands the selected directory with its listing (in any order; the
    /// browser sorts it). Nothing changes unless the selection is a
    /// collapsed directory.
    pub fn expand_selected(&mut self, listing: Vec<DirEntry>)
        requires
            old(self).wf(),
        ensures
            final(self).wf(),
            old(self).expanded_with(*final(self), entry_views(listing@)),
    {
        let idx = self.selected;
        if idx >= self.nodes.len() {
            return;
        }
        if !self.nodes[idx].is_dir || self.nodes[idx].expanded {
            return;
        }
        let ghost s = self.rows();
        let depth = self.nodes[idx].depth;
        proof {
            lemma_depth_bound(s, idx as int);
            lemma_expand_wf(s, idx as int, entry_views(listing@));
        }
        let ghost sv = sorted_listing(entry_views(listing@));
        let ghost kids = listing_nodes(sv, (depth + 1) as nat);
        let mut rest = sort_listing(listing);
        let ghost r0 = self.root;
        self.nodes[idx].expanded = true;
        self.nodes[idx].children_loaded = true;
        proof {
            assert(self.rows() =~= s.update(idx as int, opened(s[idx as int])));
        }
        let mut i: usize = 0;
        assert(entry_views(rest@).skip(0) =~= entry_views(rest@));
        assert(self.rows() =~= s.take(idx as int) + seq![opened(s[idx as int])] + kids.take(0)
            + s.skip(idx + 1));
        while rest.len() > 0
            invariant
                idx < s.len(),
                depth < s.len(),
                self.root == r0,
                entry_views(rest@) == sv.skip(i as int),
                i <= sv.len(),
                kids == listing_nodes(sv, (depth + 1) as nat),
                self.selected == idx,
                self.nodes.len() == s.len() + i,
                self.rows() == s.take(idx as int) + seq![opened(s[idx as int])] + kids.take(
                    i as int,
                ) + s.skip(idx + 1),
            decreases rest.len(),
        {
            let ghost before = rest@;
            let e = rest.remove(0);
            proof {
                assert(rest@ =~= before.drop_first());
                assert(entry_views(before).len() == before.len());
                assert(entry_views(before) == sv.skip(i as int));
                assert(entry_views(before)[0] == sv[i as int]);
                assert(entry_views(rest@) =~= entry_views(before).drop_first());
                assert(sv.skip(i as int).drop_first() =~= sv.skip(i + 1));
            }
            let node = FileNode::new(e.path, depth + 1, e.is_dir);
            let ghost prev = self.nodes@;
            self.nodes.insert(idx + 1 + i, node);
            proof {
                lemma_views_insert(prev, idx + 1 + i, node);
                assert(kids[i as int] == node@);
                assert(self.rows() =~= s.take(idx as int) + seq![opened(s[idx as int])]
                    + kids.take(i + 1) + s.skip(idx + 1));
            }
            i = i + 1;
        }
        assert(kids.take(i as int) =~= kids);
    }

    /// Removes the descendants of row `idx` and marks it collapsed.
    fn collapse_node(&mut self, idx: usize)
        requires
            idx < old(self).nodes.len(),
        ensures
            final(self).rows() == collapse_rows(old(self).rows(), idx as int),
            final(self).root == old(self).root,
            final(self).selected == old(self).selected,
    {
        let ghost s = self.rows();
        let depth = self.nodes[idx].depth;
        self.nodes[idx].expanded = false;
        let ghost s1 = self.rows();
        assert(s1 =~= s.update(idx as int, closed(s[idx as int])));
        let remove_start = idx + 1;
        let mut end = remove_start;
        let ghost r0 = self.root;
        let ghost sel0 = self.selected;
        while end < self.nodes.len() && self.nodes[end].depth > depth
            invariant
                remove_start == idx + 1,
                remove_start <= end <= self.nodes.len(),
                self.rows() == s1,
                self.root == r0,
                self.selected == sel0,
                depth == s[idx as int].depth,
                first_shallow(s, remove_start as int, depth as nat) == first_shallow(
                    s,
                    end as int,
                    depth as nat,
                ),
                s1.len() == s.len(),
                forall|k: int| 0 <= k < s.len() && k != idx ==> s1[k] == s[k],
            decreases self.nodes.len() - end,
        {
            assert(self.rows()[end as int] == self.nodes@[end as int]@);
            end = end + 1;
        }
        proof {
            if end < self.nodes.len() {
                assert(self.rows()[end as int] == self.nodes@[end as int]@);
            }
        }
        assert(first_shallow(s, end as int, depth as nat) == end);
        let mut k = remove_start;
        assert(s1.skip(remove_start as int) =~= s1.skip(k as int));
        assert(self.rows() =~= s1.take(remove_start as int) + s1.skip(k as int));
        while k < end
            invariant
                remove_start <= k <= end <= s1.len(),
                self.nodes.len() == remove_start + s1.len() - k,
                self.root == r0,
                self.selected == sel0,
                self.rows() == s1.take(remove_start as int) + s1.skip(k as int),
            decreases end - k,
        {
            let ghost prev = self.nodes@;
            self.nodes.remove(remove_start);
            proof {
                lemma_views_remove(prev, remove_start as int);
                assert(self.rows() =~= s1.take(remove_start as int) + s1.skip(k + 1));
            }
            k = k + 1;
        }
        assert(s1.take(remove_start as int) =~= s.take(idx as int) + seq![closed(s[idx as int])]);
        assert(s1.skip(end as int) =~= s.skip(end as int));
    }

    /// Collapses the nearest directory above row `idx` that is one level up,
    /// and selects it.
    fn collapse_parent(&mut self, idx: usize)
        requires
            idx < old(self).nodes.len(),
            old(self).rows()[idx as int].depth > 0,
        ensures
            final(self).root == old(self).root,
            match find_parent(
                old(self).rows(),
                idx - 1,
                (old(self).rows()[idx as int].depth - 1) as nat,
            ) {
                Some(p) => final(self).selected == p && final(self).rows() == collapse_rows(
                    old(self).rows(),
                    p,
                ),
                None => final(self).selected == old(self).selected && final(self).rows() == old(
                    self,
                ).rows(),
            },
    {
        let ghost s = self.rows();
        let target_depth = self.nodes[idx].depth - 1;
        assert(s[idx as int] == self.nodes@[idx as int]@);
        let mut k = idx;
        while k > 0
            invariant
                k <= idx < self.nodes.len(),
                self.rows() == s,
                s == old(self).rows(),
                self.root == old(self).root,
                self.selected == old(self).selected,
                s[idx as int].depth > 0,
                target_depth == s[idx as int].depth - 1,
                find_parent(s, idx - 1, target_depth as nat) == find_parent(
                    s,
                    k - 1,
                    target_depth as nat,
                ),
            decreases k,
        {
            assert(self.rows()[k - 1] == self.nodes@[k - 1]@);
            if self.nodes[k - 1].depth == target_depth && self.nodes[k - 1].is_dir {
                self.selected = k - 1;
                self.collapse_node(k - 1);
                assert(self.selected == k - 1);
                assert(find_parent(s, k - 1, target_depth as nat) == Some(k - 1));
                assert(find_parent(s, idx - 1, target_depth as nat) == Some(k - 1));
                assert((s[idx as int].depth - 1) as nat == target_depth as nat);
                assert(find_parent(old(self).rows(), idx - 1, (old(self).rows()[idx as int].depth - 1) as nat) == Some(k - 1));
                return;
            }
            k = k - 1;
        }
    }

    /// Collapses the selected directory; on a file or a collapsed
    /// directory below the top level, collapses (and selects) its parent.
    pub fn collapse_selected(&mut self)
        requires
            old(self).wf(),
        ensures
            final(self).wf(),
            old(self).collapsed(*final(self)),
    {
        let ghost s = self.rows();
        let idx = self.selected;
        if idx >= self.nodes.len() {
            return;
        }
        if !self.nodes[idx].is_dir || !self.nodes[idx].expanded {
            if self.nodes[idx].depth > 0 {
                self.collapse_parent(idx);
                proof {
                    lemma_find_parent(s, idx - 1, (s[idx as int].depth - 1) as nat);
                    if let Some(p) = find_parent(s, idx - 1, (s[idx as int].depth - 1) as nat) {
                        lemma_collapse_wf(s, p);
                        assert(collapse_rows(s, p).len() > p);
                    }
                }
            }
            return;
        }
        self.collapse_node(idx);
        proof {
            lemma_collapse_wf(s, idx as int);
            assert(collapse_rows(s, idx as int).len() > idx);
        }
    }

    /// The path of the selected row, if there is one.
    pub fn selected_path(&self) -> (r: Option<&String>)
        ensures
            match r {
                Some(p) => self.selected < self.nodes.len() && p@ == self.rows()[self.selected as int].path,
                None => self.selected >= self.nodes.len(),
            },
    {
        if self.selected < self.nodes.len() {
            Some(&self.nodes[self.selected].path)
        } else {
            None
        }
    }

    /// Flips the date-order flag of the selected row.
    pub fn toggle_date_order(&mut self)
        requires
            old(self).wf(),
        ensures
            final(self).wf(),
            old(self).toggled(*final(self)),
    {
        if self.selected < self.nodes.len() {
            let ghost s = self.rows();
            let i = self.selected;
            self.nodes[i].date_order_enabled = !self.nodes[i].date_order_enabled;
            proof {
                let u = s.update(
                    i as int,
                    FileNodeView { date_order_enabled: !s[i as int].date_order_enabled, ..s[i as int] },
                );
                assert(self.rows() =~= u);
                assert forall|k: int| 0 <= k < u.len() - 1 implies #[trigger] step_at(u, k) by {
                    assert(step_at(s, k));
                }
            }
        }
    }
}

} // verus!
