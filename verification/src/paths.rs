//! Unix paths held as text: the last component, its stem and extension,
//! and joining, with the meaning that `std::path::Path` gives them.
use vstd::prelude::*;
use crate::text::{chars_of, push_char, push_chars, string_of};

verus! {

/// Index of the last `/` in `p`, or `-1` when there is none.
pub open spec fn last_slash(p: Seq<char>) -> int
    decreases p.len(),
{
    if p.len() == 0 {
        -1
    } else if p.last() == '/' {
        p.len() - 1
    } else {
        last_slash(p.drop_last())
    }
}

pub proof fn lemma_last_slash(p: Seq<char>)
    ensures
        -1 <= last_slash(p) < p.len(),
        last_slash(p) >= 0 ==> p[last_slash(p)] == '/',
        forall|j: int| last_slash(p) < j < p.len() ==> p[j] != '/',
    decreases p.len(),
{
    if p.len() > 0 && p.last() != '/' {
        lemma_last_slash(p.drop_last());
        assert forall|j: int| last_slash(p) < j < p.len() implies p[j] != '/' by {
            if j < p.len() - 1 {
                assert(p.drop_last()[j] == p[j]);
            }
        }
    }
}

/// `Path::file_name`: the last component, ignoring trailing separators and
/// `.` components; `None` when there is none or it is `..`.
pub open spec fn file_name_spec(p: Seq<char>) -> Option<Seq<char>>
    decreases p.len(),
{
    if p.len() == 0 {
        None
    } else if p.last() == '/' {
        file_name_spec(p.drop_last())
    } else {
        let k = last_slash(p);
        let seg = p.subrange(k + 1, p.len() as int);
        if seg == seq!['.'] {
            proof {
                lemma_last_slash(p);
            }
            if 0 <= k + 1 < p.len() {
                file_name_spec(p.subrange(0, k + 1))
            } else {
                None
            }
        } else if seg == seq!['.', '.'] {
            None
        } else {
            Some(seg)
        }
    }
}

/// Index of the last `.` in `name`, or `-1`.
pub open spec fn last_dot(name: Seq<char>) -> int
    decreases name.len(),
{
    if name.len() == 0 {
        -1
    } else if name.last() == '.' {
        name.len() - 1
    } else {
        last_dot(name.drop_last())
    }
}

proof fn lemma_last_dot(p: Seq<char>)
    ensures
        -1 <= last_dot(p) < p.len(),
        last_dot(p) >= 0 ==> p[last_dot(p)] == '.',
        forall|j: int| last_dot(p) < j < p.len() ==> p[j] != '.',
    decreases p.len(),
{
    if p.len() > 0 && p.last() != '.' {
        lemma_last_dot(p.drop_last());
        assert forall|j: int| last_dot(p) < j < p.len() implies p[j] != '.' by {
            if j < p.len() - 1 {
                assert(p.drop_last()[j] == p[j]);
            }
        }
    }
}

/// The stem of a file name: the part before the last `.`, unless the only
/// `.` leads the name or there is none.
pub open spec fn name_stem(name: Seq<char>) -> Seq<char> {
    if last_dot(name) <= 0 {
        name
    } else {
        name.take(last_dot(name))
    }
}

/// The extension of a file name: the part after the last `.`, if that `.`
/// does not lead the name.
pub open spec fn name_extension(name: Seq<char>) -> Option<Seq<char>> {
    if last_dot(name) <= 0 {
        None
    } else {
        Some(name.skip(last_dot(name) + 1))
    }
}

/// `Path::file_stem`.
pub open spec fn file_stem_spec(p: Seq<char>) -> Option<Seq<char>> {
    match file_name_spec(p) {
        Some(n) => Some(name_stem(n)),
        None => None,
    }
}

/// `Path::extension`.
pub open spec fn extension_spec(p: Seq<char>) -> Option<Seq<char>> {
    match file_name_spec(p) {
        Some(n) => name_extension(n),
        None => None,
    }
}

/// `Path::join` on Unix: an absolute `rel` replaces `base`; otherwise a `/`
/// is inserted unless `base` is empty or already ends in one.
pub open spec fn join_spec(base: Seq<char>, rel: Seq<char>) -> Seq<char> {
    if rel.len() > 0 && rel[0] == '/' {
        rel
    } else if base.len() > 0 && base.last() != '/' {
        base + seq!['/'] + rel
    } else {
        base + rel
    }
}

/// A directory as found, or `.` (the current directory) when there is none.
pub open spec fn or_current_dir(d: Option<Seq<char>>) -> Seq<char> {
    match d {
        Some(x) => x,
        None => seq!['.'],
    }
}

/// Start of the segment that ends at `end`: one past the last `/` before `end`.
fn segment_start(p: &[char], end: usize) -> (k: usize)
    requires
        end <= p.len(),
    ensures
        k <= end,
        k as int == last_slash(p@.take(end as int)) + 1,
{
    let mut k = end;
    while k > 0 && p[k - 1] != '/'
        invariant
            k <= end <= p.len(),
            last_slash(p@.take(end as int)) == last_slash(p@.take(k as int)),
        decreases k,
    {
        assert(p@.take(k as int).drop_last() =~= p@.take(k - 1));
        k = k - 1;
    }
    k
}

/// `Path::file_name` on a path held as characters.
pub fn file_name(p: &[char]) -> (r: Option<Vec<char>>)
    ensures
        match r {
            Some(n) => file_name_spec(p@) == Some(n@),
            None => file_name_spec(p@) is None,
        },
{
    let mut end = p.len();
    assert(p@.take(end as int) =~= p@);
    loop
        invariant
            end <= p.len(),
            file_name_spec(p@) == file_name_spec(p@.take(end as int)),
        decreases end,
    {
        let ghost q = p@.take(end as int);
        if end == 0 {
            return None;
        }
        if p[end - 1] == '/' {
            assert(q.drop_last() =~= p@.take(end - 1));
            end = end - 1;
        } else {
            let k = segment_start(p, end);
            proof {
                lemma_last_slash(q);
            }
            let ghost seg = q.subrange(k as int, end as int);
            let mut s: Vec<char> = Vec::new();
            for i in k..end
                invariant
                    k <= end <= p.len(),
                    s@ == p@.subrange(k as int, i as int),
            {
                s.push(p[i]);
                assert(p@.subrange(k as int, i + 1) =~= p@.subrange(k as int, i as int).push(
                    p@[i as int],
                ));
            }
            assert(s@ =~= seg);
            if s.len() == 1 && s[0] == '.' {
                assert(seg =~= seq!['.']);
                assert(q.subrange(0, k as int) =~= p@.take(k as int));
                end = k;
            } else if s.len() == 2 && s[0] == '.' && s[1] == '.' {
                assert(seg =~= seq!['.', '.']);
                return None;
            } else {
                assert(seg != seq!['.']);
                assert(seg != seq!['.', '.']);
                return Some(s);
            }
        }
    }
}

fn last_dot_exec(n: &[char]) -> (d: Option<usize>)
    ensures
        match d {
            Some(i) => last_dot(n@) == i as int,
            None => last_dot(n@) == -1,
        },
{
    let mut k = n.len();
    assert(n@.take(k as int) =~= n@);
    while k > 0 && n[k - 1] != '.'
        invariant
            k <= n.len(),
            last_dot(n@) == last_dot(n@.take(k as int)),
        decreases k,
    {
        assert(n@.take(k as int).drop_last() =~= n@.take(k - 1));
        k = k - 1;
    }
    if k == 0 {
        None
    } else {
        Some(k - 1)
    }
}

fn copy_range(n: &[char], a: usize, b: usize) -> (r: Vec<char>)
    requires
        a <= b <= n.len(),
    ensures
        r@ == n@.subrange(a as int, b as int),
{
    let mut r: Vec<char> = Vec::new();
    for i in a..b
        invariant
            a <= b <= n.len(),
            r@ == n@.subrange(a as int, i as int),
    {
        r.push(n[i]);
        assert(n@.subrange(a as int, i + 1) =~= n@.subrange(a as int, i as int).push(
            n@[i as int],
        ));
    }
    r
}

/// The stem of a file name.
pub fn stem_of_name(n: &[char]) -> (r: Vec<char>)
    ensures
        r@ == name_stem(n@),
{
    proof {
        lemma_last_dot(n@);
    }
    match last_dot_exec(n) {
        Some(d) if d > 0 => copy_range(n, 0, d),
        _ => copy_range(n, 0, n.len()),
    }
}

/// The extension of a file name.
pub fn extension_of_name(n: &[char]) -> (r: Option<Vec<char>>)
    ensures
        match r {
            Some(e) => name_extension(n@) == Some(e@),
            None => name_extension(n@) is None,
        },
{
    proof {
        lemma_last_dot(n@);
    }
    match last_dot_exec(n) {
        Some(d) => {
            if d > 0 {
                assert(d < n.len());
                Some(copy_range(n, d + 1, n.len()))
            } else {
                None
            }
        },
        None => None,
    }
}

/// `Path::file_stem`.
pub fn file_stem(p: &[char]) -> (r: Option<Vec<char>>)
    ensures
        match r {
            Some(s) => file_stem_spec(p@) == Some(s@),
            None => file_stem_spec(p@) is None,
        },
{
    match file_name(p) {
        Some(n) => Some(stem_of_name(n.as_slice())),
        None => None,
    }
}

/// `Path::extension`.
pub fn extension(p: &[char]) -> (r: Option<Vec<char>>)
    ensures
        match r {
            Some(s) => extension_spec(p@) == Some(s@),
            None => extension_spec(p@) is None,
        },
{
    match file_name(p) {
        Some(n) => extension_of_name(n.as_slice()),
        None => None,
    }
}

/// `Path::join` on Unix.
pub fn join(base: &str, rel: &str) -> (r: String)
    ensures
        r@ == join_spec(base@, rel@),
{
    let b = chars_of(base);
    let rl = chars_of(rel);
    if rl.len() > 0 && rl[0] == '/' {
        return string_of(rl.as_slice());
    }
    let mut s = string_of(b.as_slice());
    if b.len() > 0 && b[b.len() - 1] != '/' {
        push_char(&mut s, '/');
    }
    push_chars(&mut s, rl.as_slice());
    s
}

/// The last component of a path as text, or the empty string when there is
/// none (`file_name().unwrap_or_default()`).
pub open spec fn file_name_or_empty(p: Seq<char>) -> Seq<char> {
    match file_name_spec(p) {
        Some(n) => n,
        None => Seq::empty(),
    }
}

/// `path.file_name().unwrap_or_default()` as a string.
pub fn file_name_text(p: &str) -> (r: String)
    ensures
        r@ == file_name_or_empty(p@),
{
    let cs = chars_of(p);
    match file_name(cs.as_slice()) {
        Some(n) => string_of(n.as_slice()),
        None => String::new(),
    }
}

/// Where the last component lies in `p`: the start and end of the text
/// that `file_name_spec` gives.
pub open spec fn name_span(p: Seq<char>) -> Option<(int, int)>
    decreases p.len(),
{
    if p.len() == 0 {
        None
    } else if p.last() == '/' {
        name_span(p.drop_last())
    } else {
        let k = last_slash(p);
        let seg = p.subrange(k + 1, p.len() as int);
        if seg == seq!['.'] {
            proof {
                lemma_last_slash(p);
            }
            if 0 <= k + 1 < p.len() {
                name_span(p.subrange(0, k + 1))
            } else {
                None
            }
        } else if seg == seq!['.', '.'] {
            None
        } else {
            Some((k + 1, p.len() as int))
        }
    }
}

proof fn lemma_name_span(p: Seq<char>)
    ensures
        match name_span(p) {
            Some((a, b)) => 0 <= a <= b <= p.len() && file_name_spec(p) == Some(
                p.subrange(a, b),
            ),
            None => file_name_spec(p) is None,
        },
    decreases p.len(),
{
    if p.len() > 0 {
        if p.last() == '/' {
            lemma_name_span(p.drop_last());
            if let Some((a, b)) = name_span(p.drop_last()) {
                assert(p.drop_last().subrange(a, b) =~= p.subrange(a, b));
            }
        } else {
            lemma_last_slash(p);
            let k = last_slash(p);
            let seg = p.subrange(k + 1, p.len() as int);
            if seg == seq!['.'] && 0 <= k + 1 < p.len() {
                let q = p.subrange(0, k + 1);
                lemma_name_span(q);
                if let Some((a, b)) = name_span(q) {
                    assert(q.subrange(a, b) =~= p.subrange(a, b));
                }
            }
        }
    }
}

proof fn lemma_last_slash_append(x: Seq<char>, y: Seq<char>)
    requires
        forall|j: int| 0 <= j < y.len() ==> #[trigger] y[j] != '/',
    ensures
        last_slash(x + y) == last_slash(x),
    decreases y.len(),
{
    if y.len() > 0 {
        assert((x + y).drop_last() =~= x + y.drop_last());
        lemma_last_slash_append(x, y.drop_last());
    } else {
        assert(x + y =~= x);
    }
}

proof fn lemma_last_dot_append(x: Seq<char>, y: Seq<char>)
    requires
        forall|j: int| 0 <= j < y.len() ==> #[trigger] y[j] != '.',
    ensures
        last_dot(x + y) == last_dot(x),
    decreases y.len(),
{
    if y.len() > 0 {
        assert((x + y).drop_last() =~= x + y.drop_last());
        lemma_last_dot_append(x, y.drop_last());
    } else {
        assert(x + y =~= x);
    }
}

/// The last component follows a `/` (or starts the path), holds none, and
/// is not empty.
proof fn lemma_name_span_shape(p: Seq<char>)
    ensures
        name_span(p) matches Some((a, b)) ==> 0 <= a < b <= p.len() && (a == 0 || p[a - 1]
            == '/') && forall|j: int| a <= j < b ==> #[trigger] p[j] != '/',
    decreases p.len(),
{
    if p.len() > 0 {
        if p.last() == '/' {
            let q = p.drop_last();
            lemma_name_span_shape(q);
            if let Some((a, b)) = name_span(q) {
                assert(forall|j: int| 0 <= j < q.len() ==> q[j] == p[j]);
            }
        } else {
            lemma_last_slash(p);
            let k = last_slash(p);
            let seg = p.subrange(k + 1, p.len() as int);
            if seg == seq!['.'] && 0 <= k + 1 < p.len() {
                let q = p.subrange(0, k + 1);
                lemma_name_span_shape(q);
                if let Some((a, b)) = name_span(q) {
                    assert(forall|j: int| 0 <= j < q.len() ==> q[j] == p[j]);
                }
            }
        }
    }
}

/// The file name of `prefix + name` when `prefix` is empty or ends in `/`
/// and `name` is a plain name (no `/`, at least two characters, not `..`,
/// not ending in `/`).
proof fn lemma_file_name_after_slash(prefix: Seq<char>, name: Seq<char>)
    requires
        prefix.len() == 0 || prefix.last() == '/',
        name.len() >= 3,
        forall|j: int| 0 <= j < name.len() ==> #[trigger] name[j] != '/',
    ensures
        file_name_spec(prefix + name) == Some(name),
{
    let q = prefix + name;
    lemma_last_slash_append(prefix, name);
    if prefix.len() > 0 {
        lemma_last_slash(prefix);
    }
    assert(last_slash(prefix) == prefix.len() - 1);
    assert(q.last() == name.last());
    assert(q.subrange(prefix.len() as int, q.len() as int) =~= name);
}

/// The stem and extension of `stem + "." + ext`.
proof fn lemma_split_name(stem: Seq<char>, ext: Seq<char>)
    requires
        stem.len() > 0,
        forall|j: int| 0 <= j < ext.len() ==> #[trigger] ext[j] != '.',
    ensures
        name_stem(stem + seq!['.'] + ext) == stem,
        name_extension(stem + seq!['.'] + ext) == Some(ext),
{
    let n = stem + seq!['.'] + ext;
    lemma_last_dot_append(stem + seq!['.'], ext);
    assert(last_dot(stem + seq!['.']) == stem.len());
    assert(n.take(stem.len() as int) =~= stem);
    assert(n.skip(stem.len() as int + 1) =~= ext);
}

/// Giving a path with a last component a new extension (one without `.`
/// or `/`) keeps the stem of that component and gives it that extension.
pub proof fn lemma_with_extension(p: Seq<char>, ext: Seq<char>)
    requires
        file_name_spec(p) is Some,
        ext.len() > 0,
        forall|j: int| 0 <= j < ext.len() ==> #[trigger] ext[j] != '/' && ext[j] != '.',
    ensures
        file_stem_spec(with_extension_spec(p, ext)) == file_stem_spec(p),
        extension_spec(with_extension_spec(p, ext)) == Some(ext),
{
    lemma_name_span(p);
    lemma_name_span_shape(p);
    let (a, b) = name_span(p)->0;
    let name = p.subrange(a, b);
    let stem = name_stem(name);
    lemma_last_dot(name);
    let c = a + stem.len();
    let q = with_extension_spec(p, ext);
    assert(stem =~= p.subrange(a, c));
    let new_name = stem + seq!['.'] + ext;
    assert(q =~= p.take(a) + new_name);
    assert forall|j: int| 0 <= j < new_name.len() implies #[trigger] new_name[j] != '/' by {
        if j < stem.len() {
            assert(new_name[j] == p[a + j]);
        } else if j > stem.len() {
            assert(new_name[j] == ext[j - stem.len() - 1]);
        }
    }
    if a > 0 {
        assert(p.take(a).last() == '/');
    }
    lemma_file_name_after_slash(p.take(a), new_name);
    lemma_split_name(stem, ext);
}

/// `Path::with_extension` on Unix: the path cut right after the stem of
/// its last component, then `.` and `ext` (nothing when `ext` is empty); a
/// path without a last component is returned as it is.
pub open spec fn with_extension_spec(p: Seq<char>, ext: Seq<char>) -> Seq<char> {
    match name_span(p) {
        Some((a, b)) => p.take(a + name_stem(p.subrange(a, b)).len()) + if ext.len() > 0 {
            seq!['.'] + ext
        } else {
            Seq::empty()
        },
        None => p,
    }
}

fn name_span_exec(p: &[char]) -> (r: Option<(usize, usize)>)
    ensures
        match r {
            Some((a, b)) => name_span(p@) == Some((a as int, b as int)),
            None => name_span(p@) is None,
        },
{
    let mut end = p.len();
    assert(p@.take(end as int) =~= p@);
    loop
        invariant
            end <= p.len(),
            name_span(p@) == name_span(p@.take(end as int)),
        decreases end,
    {
        let ghost q = p@.take(end as int);
        if end == 0 {
            return None;
        }
        if p[end - 1] == '/' {
            assert(q.drop_last() =~= p@.take(end - 1));
            end = end - 1;
        } else {
            let k = segment_start(p, end);
            proof {
                lemma_last_slash(q);
            }
            let ghost seg = q.subrange(k as int, end as int);
            let len = end - k;
            if len == 1 && p[k] == '.' {
                assert(seg =~= seq!['.']);
                assert(q.subrange(0, k as int) =~= p@.take(k as int));
                end = k;
            } else if len == 2 && p[k] == '.' && p[k + 1] == '.' {
                assert(seg =~= seq!['.', '.']);
                return None;
            } else {
                assert(seg.len() == len);
                assert(seg != seq!['.']) by {
                    if len == 1 {
                        assert(seg[0] == p@[k as int]);
                    }
                }
                assert(seg != seq!['.', '.']) by {
                    if len == 2 {
                        assert(seg[0] == p@[k as int]);
                        assert(seg[1] == p@[k + 1]);
                    }
                }
                return Some((k, end));
            }
        }
    }
}

/// `Path::with_extension` on Unix (an extension holding a separator is
/// refused there, so it is left out here).
pub fn with_extension(p: &str, ext: &str) -> (r: String)
    requires
        forall|i: int| 0 <= i < ext@.len() ==> ext@[i] != '/',
    ensures
        r@ == with_extension_spec(p@, ext@),
{
    let cs = chars_of(p);
    match name_span_exec(cs.as_slice()) {
        None => string_of(cs.as_slice()),
        Some((a, b)) => {
            proof {
                lemma_name_span(cs@);
            }
            let name = copy_range(cs.as_slice(), a, b);
            let stem = stem_of_name(name.as_slice());
            proof {
                lemma_last_dot(name@);
            }
            assert(stem.len() <= name.len());
            let cut = a + stem.len();
            let mut s = string_of(copy_range(cs.as_slice(), 0, cut).as_slice());
            assert(cs@.subrange(0, cut as int) =~= cs@.take(cut as int));
            let e = chars_of(ext);
            if e.len() > 0 {
                push_char(&mut s, '.');
                push_chars(&mut s, e.as_slice());
            }
            assert(s@ =~= with_extension_spec(p@, ext@));
            s
        },
    }
}

} // verus!
