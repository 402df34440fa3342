//! Tag cleaning and numbering: which files of a folder are touched, what
//! their tags become, and the track numbers given by creation date.
use vstd::prelude::*;
use crate::musicman::config::string_views;
use crate::musicman::metadata::TrackMetadata;
use crate::musicman::rockbox::{is_audio_ext, is_audio_ext_spec, lower_ext, lower_extension};
use crate::text::{chars_of, find_chars, find_from, str_is};

verus! {

broadcast use vstd::string::group_string_axioms;

/// An entry met while listing a folder: its path and whether it is a
/// regular file.
pub struct FileEntry {
    pub path: String,
    pub is_file: bool,
}

impl View for FileEntry {
    type V = (Seq<char>, bool);

    open spec fn view(&self) -> (Seq<char>, bool) {
        (self.path@, self.is_file)
    }
}

pub open spec fn file_views(v: Seq<FileEntry>) -> Seq<(Seq<char>, bool)> {
    v.map_values(|e: FileEntry| e@)
}

/// The paths of the regular files among `entries` whose lower-cased
/// extension `wanted` accepts, in listing order.
pub open spec fn files_with(
    entries: Seq<(Seq<char>, bool)>,
    wanted: spec_fn(Seq<char>) -> bool,
) -> Seq<Seq<char>>
    decreases entries.len(),
{
    if entries.len() == 0 {
        Seq::empty()
    } else {
        let e = entries.last();
        let front = files_with(entries.drop_last(), wanted);
        if e.1 && wanted(lower_ext(e.0)) {
            front.push(e.0)
        } else {
            front
        }
    }
}

/// Extensions the cleaner strips.
pub open spec fn is_cleanable_ext(ext: Seq<char>) -> bool {
    ext == "mp3"@ || ext == "m4a"@ || ext == "aac"@ || ext == "flac"@
}

/// The extension the converter takes.
pub open spec fn is_flac_ext(ext: Seq<char>) -> bool {
    ext == "flac"@
}

/// Which extension test a selection of files uses.
#[derive(Clone, Copy, Debug, PartialEq, Eq, Structural)]
pub enum FileKind {
    /// `mp3`, `m4a`, `aac` and `flac`: the files the cleaner strips.
    Cleanable,
    /// `flac`: the files the converter turns into `m4a`.
    Flac,
    /// Every audio extension: the files numbered by creation date.
    Audio,
}

pub open spec fn kind_accepts(kind: FileKind) -> spec_fn(Seq<char>) -> bool {
    match kind {
        FileKind::Cleanable => |e: Seq<char>| is_cleanable_ext(e),
        FileKind::Flac => |e: Seq<char>| is_flac_ext(e),
        FileKind::Audio => |e: Seq<char>| is_audio_ext_spec(e),
    }
}

proof fn lemma_files_with_keeps(
    entries: Seq<(Seq<char>, bool)>,
    wanted: spec_fn(Seq<char>) -> bool,
    i: int,
)
    requires
        0 <= i < entries.len(),
        entries[i].1,
        wanted(lower_ext(entries[i].0)),
    ensures
        files_with(entries, wanted).contains(entries[i].0),
    decreases entries.len(),
{
    let front = entries.drop_last();
    if i < entries.len() - 1 {
        assert(front[i] == entries[i]);
        lemma_files_with_keeps(front, wanted, i);
        let f = files_with(front, wanted);
        let k = choose|k: int| 0 <= k < f.len() && f[k] == entries[i].0;
        if entries.last().1 && wanted(lower_ext(entries.last().0)) {
            assert(f.push(entries.last().0)[k] == entries[i].0);
        }
    } else {
        let f = files_with(front, wanted);
        assert(f.push(entries[i].0)[f.len() as int] == entries[i].0);
    }
}

proof fn lemma_files_with_from(
    entries: Seq<(Seq<char>, bool)>,
    wanted: spec_fn(Seq<char>) -> bool,
    x: Seq<char>,
)
    requires
        files_with(entries, wanted).contains(x),
    ensures
        exists|i: int|
            0 <= i < entries.len() && entries[i].0 == x && entries[i].1 && wanted(
                lower_ext(#[trigger] entries[i].0),
            ),
    decreases entries.len(),
{
    let front = entries.drop_last();
    let f = files_with(front, wanted);
    let last = entries.last();
    let k = choose|k: int| 0 <= k < files_with(entries, wanted).len() && files_with(
        entries,
        wanted,
    )[k] == x;
    if last.1 && wanted(lower_ext(last.0)) && k == f.len() {
        assert(entries[entries.len() - 1] == last);
    } else {
        if last.1 && wanted(lower_ext(last.0)) {
            assert(f.push(last.0)[k] == f[k]);
        }
        assert(f.contains(x));
        lemma_files_with_from(front, wanted, x);
        let i = choose|i: int|
            0 <= i < front.len() && front[i].0 == x && front[i].1 && wanted(
                lower_ext(#[trigger] front[i].0),
            );
        assert(entries[i] == front[i]);
    }
}

/// Only regular files are selected for cleaning, and only those whose
/// lower-cased extension is `mp3`, `m4a`, `aac` or `flac`.
pub proof fn lemma_cleaned_only(entries: Seq<(Seq<char>, bool)>, x: Seq<char>)
    requires
        files_with(entries, kind_accepts(FileKind::Cleanable)).contains(x),
    ensures
        exists|i: int|
            0 <= i < entries.len() && entries[i].0 == x && entries[i].1 && ({
                let e = lower_ext(#[trigger] entries[i].0);
                e == "mp3"@ || e == "m4a"@ || e == "aac"@ || e == "flac"@
            }),
{
    lemma_files_with_from(entries, kind_accepts(FileKind::Cleanable), x);
}

/// Every regular file whose lower-cased extension is `mp3`, `m4a`, `aac` or
/// `flac` is selected for cleaning; every regular `flac` file is selected
/// for conversion; and every regular file with an audio extension (`mp3`,
/// `m4a`, `aac`, `flac`, `wav`, `ogg`) is numbered by date.
pub proof fn lemma_selected_files(entries: Seq<(Seq<char>, bool)>, i: int)
    requires
        0 <= i < entries.len(),
        entries[i].1,
    ensures
        ({
            let e = lower_ext(entries[i].0);
            e == "mp3"@ || e == "m4a"@ || e == "aac"@ || e == "flac"@
        }) ==> files_with(entries, kind_accepts(FileKind::Cleanable)).contains(entries[i].0),
        lower_ext(entries[i].0) == "flac"@ ==> files_with(
            entries,
            kind_accepts(FileKind::Flac),
        ).contains(entries[i].0),
        ({
            let e = lower_ext(entries[i].0);
            e == "mp3"@ || e == "m4a"@ || e == "aac"@ || e == "flac"@ || e == "wav"@ || e
                == "ogg"@
        }) ==> files_with(entries, kind_accepts(FileKind::Audio)).contains(entries[i].0),
{
    let e = lower_ext(entries[i].0);
    if e == "mp3"@ || e == "m4a"@ || e == "aac"@ || e == "flac"@ {
        lemma_files_with_keeps(entries, kind_accepts(FileKind::Cleanable), i);
    }
    if e == "flac"@ {
        lemma_files_with_keeps(entries, kind_accepts(FileKind::Flac), i);
    }
    if e == "mp3"@ || e == "m4a"@ || e == "aac"@ || e == "flac"@ || e == "wav"@ || e == "ogg"@ {
        lemma_files_with_keeps(entries, kind_accepts(FileKind::Audio), i);
    }
}

/// Whether a lower-cased extension is of the kind.
fn accepts(kind: FileKind, ext: &str) -> (r: bool)
    ensures
        r == kind_accepts(kind)(ext@),
{
    let e = chars_of(ext);
    match kind {
        FileKind::Cleanable => str_is(e.as_slice(), "mp3") || str_is(e.as_slice(), "m4a")
            || str_is(e.as_slice(), "aac") || str_is(e.as_slice(), "flac"),
        FileKind::Flac => str_is(e.as_slice(), "flac"),
        FileKind::Audio => is_audio_ext(ext),
    }
}

/// The regular files of a listing whose lower-cased extension is of the
/// kind, in listing order.
pub fn select_files(entries: &Vec<FileEntry>, kind: FileKind) -> (r: Vec<String>)
    ensures
        string_views(r@) == files_with(file_views(entries@), kind_accepts(kind)),
{
    let ghost all = file_views(entries@);
    let mut r: Vec<String> = Vec::new();
    let mut i: usize = 0;
    assert(all.take(0) =~= Seq::<(Seq<char>, bool)>::empty());
    assert(string_views(r@) =~= Seq::<Seq<char>>::empty());
    while i < entries.len()
        invariant
            i <= entries.len(),
            all == file_views(entries@),
            string_views(r@) == files_with(all.take(i as int), kind_accepts(kind)),
        decreases entries.len() - i,
    {
        let e = &entries[i];
        let ghost before = r@;
        if e.is_file {
            let ext = lower_extension(e.path.as_str());
            if accepts(kind, ext.as_str()) {
                r.push(e.path.clone());
            }
        }
        proof {
            assert(all.take(i + 1).drop_last() =~= all.take(i as int));
            assert(all.take(i + 1).last() == e@);
            if r@.len() > before.len() {
                assert(string_views(r@) =~= string_views(before).push(e.path@));
            } else {
                assert(r@ == before);
            }
        }
        i = i + 1;
    }
    assert(all.take(i as int) =~= all);
    r
}

// ---------------------------------------------------------------------------
// Tags
// ---------------------------------------------------------------------------

/// The tags of an audio file.
pub struct SongTags {
    pub title: Option<String>,
    pub artist: Option<String>,
    pub album_title: Option<String>,
    pub album_artist: Option<String>,
    pub composer: Option<String>,
    pub genre: Option<String>,
    pub comment: Option<String>,
    pub track_number: Option<u16>,
    pub total_tracks: Option<u16>,
    pub disc_number: Option<u16>,
    pub total_discs: Option<u16>,
    pub year: Option<i32>,
    /// Whether the file carries a cover picture.
    pub has_cover: bool,
}

/// The cleaned tags keep the title, the artist, the track number and the
/// year, and nothing else.
pub open spec fn cleaned_spec(t: SongTags) -> SongTags {
    SongTags {
        title: t.title,
        artist: t.artist,
        album_title: None,
        album_artist: None,
        composer: None,
        genre: None,
        comment: None,
        track_number: t.track_number,
        total_tracks: None,
        disc_number: None,
        total_discs: None,
        year: t.year,
        has_cover: false,
    }
}

fn copy_text(o: &Option<String>) -> (r: Option<String>)
    ensures
        r == *o,
{
    match o {
        Some(s) => Some(s.clone()),
        None => None,
    }
}

/// Strips every tag but the title, the artist, the track number and the
/// year.
pub fn cleaned_tags(t: &SongTags) -> (r: SongTags)
    ensures
        r == cleaned_spec(*t),
{
    SongTags {
        title: copy_text(&t.title),
        artist: copy_text(&t.artist),
        album_title: None,
        album_artist: None,
        composer: None,
        genre: None,
        comment: None,
        track_number: t.track_number,
        total_tracks: None,
        disc_number: None,
        total_discs: None,
        year: t.year,
        has_cover: false,
    }
}

/// The tags after fetched metadata is applied: a title, artist, track
/// number or year the metadata has replaces the file's (the track number
/// kept to 16 bits and the year read as signed, as the tag stores them);
/// everything else stays.
pub open spec fn with_metadata_spec(t: SongTags, m: TrackMetadata) -> SongTags {
    SongTags {
        title: if m.title is Some {
            m.title
        } else {
            t.title
        },
        artist: if m.artist is Some {
            m.artist
        } else {
            t.artist
        },
        track_number: match m.track_number {
            Some(n) => Some(n as u16),
            None => t.track_number,
        },
        year: match m.year {
            Some(y) => Some(y as i32),
            None => t.year,
        },
        ..t
    }
}

pub fn with_metadata(t: SongTags, m: &TrackMetadata) -> (r: SongTags)
    ensures
        r == with_metadata_spec(t, *m),
{
    let mut r = t;
    if m.title.is_some() {
        r.title = copy_text(&m.title);
    }
    if m.artist.is_some() {
        r.artist = copy_text(&m.artist);
    }
    match m.track_number {
        Some(n) => {
            r.track_number = Some(n as u16);
        },
        None => {},
    }
    match m.year {
        Some(y) => {
            r.year = Some(y as i32);
        },
        None => {},
    }
    r
}

/// The picture format a cover is stored with.
#[derive(Clone, Copy, Debug, PartialEq, Eq, Structural)]
pub enum CoverMime {
    Png,
    Jpeg,
}

/// A MIME type that mentions `png` is stored as PNG, any other as JPEG.
pub fn cover_mime(mime_type: &str) -> (r: CoverMime)
    ensures
        r == if find_from(mime_type@, "png"@, 0) is Some {
            CoverMime::Png
        } else {
            CoverMime::Jpeg
        },
{
    let m = chars_of(mime_type);
    let p = chars_of("png");
    if find_chars(m.as_slice(), p.as_slice(), 0).is_some() {
        CoverMime::Png
    } else {
        CoverMime::Jpeg
    }
}

// ---------------------------------------------------------------------------
// Numbering by creation date
// ---------------------------------------------------------------------------

/// Where `x` goes among `s` sorted by creation time: before the first
/// entry created strictly later (so equal times keep their order).
pub open spec fn created_pos(s: Seq<(Seq<char>, i128)>, x: (Seq<char>, i128), j: int) -> int
    decreases s.len() - j,
{
    if j < 0 || j >= s.len() {
        s.len() as int
    } else if x.1 < s[j].1 {
        j
    } else {
        created_pos(s, x, j + 1)
    }
}

/// The files sorted stably by creation time, oldest first.
pub open spec fn by_created(s: Seq<(Seq<char>, i128)>) -> Seq<(Seq<char>, i128)>
    decreases s.len(),
{
    if s.len() == 0 {
        Seq::empty()
    } else {
        let r = by_created(s.drop_last());
        r.insert(created_pos(r, s.last(), 0), s.last())
    }
}

proof fn lemma_created_pos(s: Seq<(Seq<char>, i128)>, x: (Seq<char>, i128), j: int)
    requires
        0 <= j <= s.len(),
    ensures
        j <= created_pos(s, x, j) <= s.len(),
        forall|k: int| j <= k < created_pos(s, x, j) ==> s[k].1 <= x.1,
        created_pos(s, x, j) < s.len() ==> x.1 < s[created_pos(s, x, j)].1,
    decreases s.len() - j,
{
    if j < s.len() && !(x.1 < s[j].1) {
        lemma_created_pos(s, x, j + 1);
    }
}

proof fn lemma_by_created_len(s: Seq<(Seq<char>, i128)>)
    ensures
        by_created(s).len() == s.len(),
    decreases s.len(),
{
    if s.len() > 0 {
        lemma_by_created_len(s.drop_last());
        lemma_created_pos(by_created(s.drop_last()), s.last(), 0);
    }
}

/// Numbering by date sorts the files from oldest to newest and keeps
/// exactly the files it was given.
pub proof fn lemma_by_created(s: Seq<(Seq<char>, i128)>)
    ensures
        forall|i: int, j: int|
            0 <= i < j < by_created(s).len() ==> #[trigger] by_created(s)[i].1
                <= #[trigger] by_created(s)[j].1,
        by_created(s).to_multiset() == s.to_multiset(),
    decreases s.len(),
{
    broadcast use vstd::seq_lib::to_multiset_insert, vstd::seq_lib::to_multiset_build;

    if s.len() == 0 {
        assert(by_created(s) =~= s);
    } else {
        let r = by_created(s.drop_last());
        let x = s.last();
        lemma_by_created(s.drop_last());
        lemma_by_created_len(s.drop_last());
        lemma_created_pos(r, x, 0);
        let p = created_pos(r, x, 0);
        let t = r.insert(p, x);
        assert(t == by_created(s));
        assert forall|i: int, j: int| 0 <= i < j < t.len() implies #[trigger] t[i].1
            <= #[trigger] t[j].1 by {
            if j < p {
                assert(t[i] == r[i] && t[j] == r[j]);
            } else if j == p {
                assert(t[i] == r[i]);
            } else if i < p {
                assert(t[i] == r[i] && t[j] == r[j - 1]);
            } else if i == p {
                assert(t[j] == r[j - 1]);
                assert(r[p].1 <= r[j - 1].1);
            } else {
                assert(t[i] == r[i - 1] && t[j] == r[j - 1]);
            }
        }
        assert(s.drop_last().push(x) =~= s);
    }
}

/// The track numbers: the `i`-th oldest file gets `i + 1`, kept to 16 bits.
pub open spec fn date_order_spec(files: Seq<(Seq<char>, i128)>) -> Seq<(Seq<char>, u32)> {
    let sorted = by_created(files);
    Seq::new(sorted.len(), |i: int| (sorted[i].0, ((i + 1) as u16) as u32))
}

pub open spec fn dated_views(v: Seq<(String, i128)>) -> Seq<(Seq<char>, i128)> {
    v.map_values(|e: (String, i128)| (e.0@, e.1))
}

pub open spec fn numbered_views(v: Seq<(String, u32)>) -> Seq<(Seq<char>, u32)> {
    v.map_values(|e: (String, u32)| (e.0@, e.1))
}

/// Numbers audio files by creation time (given as nanoseconds from the
/// epoch): the oldest is track 1; files created at the same time keep their
/// order.
pub fn date_order_plan(files: Vec<(String, i128)>) -> (r: Vec<(String, u32)>)
    ensures
        numbered_views(r@) == date_order_spec(dated_views(files@)),
{
    let ghost orig = dated_views(files@);
    let mut rest = files;
    let mut sorted: Vec<(String, i128)> = Vec::new();
    let mut i: usize = 0;
    let n = rest.len();
    assert(orig.take(0) =~= Seq::<(Seq<char>, i128)>::empty());
    while rest.len() > 0
        invariant
            n == orig.len(),
            i + rest.len() == n,
            dated_views(rest@) == orig.skip(i as int),
            dated_views(sorted@) == by_created(orig.take(i as int)),
        decreases rest.len(),
    {
        let ghost before = rest@;
        let e = rest.remove(0);
        proof {
            assert(rest@ =~= before.drop_first());
            assert(dated_views(before)[0] == orig[i as int]);
            assert(dated_views(rest@) =~= dated_views(before).drop_first());
            assert(orig.skip(i as int).drop_first() =~= orig.skip(i + 1));
        }
        let ghost sv = dated_views(sorted@);
        let ghost ev = (e.0@, e.1);
        let mut j: usize = 0;
        while j < sorted.len() && !(e.1 < sorted[j].1)
            invariant
                j <= sorted.len(),
                sv == dated_views(sorted@),
                ev == (e.0@, e.1),
                created_pos(sv, ev, 0) == created_pos(sv, ev, j as int),
            decreases sorted.len() - j,
        {
            assert(sv[j as int] == (sorted@[j as int].0@, sorted@[j as int].1));
            j = j + 1;
        }
        proof {
            if j < sorted.len() {
                assert(sv[j as int] == (sorted@[j as int].0@, sorted@[j as int].1));
            }
            assert(created_pos(sv, ev, 0) == j);
        }
        sorted.insert(j, e);
        proof {
            assert(dated_views(sorted@) =~= sv.insert(j as int, ev));
            assert(orig.take(i + 1).drop_last() =~= orig.take(i as int));
            assert(orig.take(i + 1).last() == ev);
        }
        i = i + 1;
    }
    assert(orig.take(n as int) =~= orig);
    let ghost sorted_v = dated_views(sorted@);
    proof {
        lemma_by_created_len(orig);
    }
    let mut out: Vec<(String, u32)> = Vec::new();
    let mut k: usize = 0;
    let total = sorted.len();
    while sorted.len() > 0
        invariant
            total == sorted_v.len(),
            k + sorted.len() == total,
            dated_views(sorted@) == sorted_v.skip(k as int),
            numbered_views(out@) == date_order_spec(orig).take(k as int),
            sorted_v == by_created(orig),
        decreases sorted.len(),
    {
        let ghost before = sorted@;
        let (path, _created) = sorted.remove(0);
        proof {
            assert(sorted@ =~= before.drop_first());
            assert(dated_views(before)[0] == sorted_v[k as int]);
            assert(dated_views(sorted@) =~= dated_views(before).drop_first());
            assert(sorted_v.skip(k as int).drop_first() =~= sorted_v.skip(k + 1));
        }
        let track: u32 = ((k + 1) as u16) as u32;
        let ghost before_out = out@;
        out.push((path, track));
        proof {
            assert(numbered_views(out@) =~= numbered_views(before_out).push((path@, track)));
            assert(date_order_spec(orig).take(k + 1) =~= date_order_spec(orig).take(
                k as int,
            ).push(date_order_spec(orig)[k as int]));
        }
        k = k + 1;
    }
    assert(date_order_spec(orig).take(total as int) =~= date_order_spec(orig));
    out
}

} // verus!
