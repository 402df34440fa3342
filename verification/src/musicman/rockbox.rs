//! Planning an export to a Rockbox iPod: which files go, and where.
use vstd::prelude::*;
use crate::paths::{extension, file_stem, file_stem_spec, extension_spec, join, join_spec};
use crate::text::{
    chars_of, decimal, decimal2, is_ws, lemma_trim, owned, push_str, push_u64, str_is, string_of,
    to_lowercase, trim_chars, trim_spec, unicode_lowercase, u64_to_string2,
};

verus! {

broadcast use vstd::string::group_string_axioms;

/// Whether `c` cannot appear in a file name on the player.
pub open spec fn is_forbidden(c: char) -> bool {
    c == '/' || c == '\\' || c == ':' || c == '*' || c == '?' || c == '"' || c == '<' || c == '>'
        || c == '|'
}

/// `name` with each forbidden character replaced by `_`.
pub open spec fn replace_forbidden(name: Seq<char>) -> Seq<char> {
    name.map_values(|c: char| if is_forbidden(c) { '_' } else { c })
}

/// A name made safe for the player: forbidden characters become `_`, then
/// surrounding whitespace is trimmed.
pub open spec fn sanitize_spec(name: Seq<char>) -> Seq<char> {
    trim_spec(replace_forbidden(name))
}

pub fn sanitize(name: &str) -> (r: String)
    ensures
        r@ == sanitize_spec(name@),
{
    let cs = chars_of(name);
    let mut mapped: Vec<char> = Vec::new();
    for i in 0..cs.len()
        invariant
            cs@ == name@,
            mapped@ == replace_forbidden(cs@.take(i as int)),
    {
        let c = cs[i];
        let d = if c == '/' || c == '\\' || c == ':' || c == '*' || c == '?' || c == '"' || c == '<'
            || c == '>' || c == '|' {
            '_'
        } else {
            c
        };
        mapped.push(d);
        assert(replace_forbidden(cs@.take(i + 1)) =~= replace_forbidden(cs@.take(i as int)).push(d));
    }
    assert(cs@.take(cs.len() as int) =~= cs@);
    let t = trim_chars(mapped.as_slice());
    string_of(t.as_slice())
}

/// A sanitized name has no forbidden character and no surrounding
/// whitespace, so sanitizing it again changes nothing.
pub proof fn lemma_sanitize(name: Seq<char>)
    ensures
        forall|i: int| 0 <= i < sanitize_spec(name).len() ==> !is_forbidden(
            #[trigger] sanitize_spec(name)[i],
        ),
        sanitize_spec(name).len() > 0 ==> !is_ws(sanitize_spec(name)[0]) && !is_ws(
            sanitize_spec(name).last(),
        ),
        sanitize_spec(sanitize_spec(name)) == sanitize_spec(name),
{
    let m = replace_forbidden(name);
    let t = sanitize_spec(name);
    lemma_trim(m);
    let (a, b) = choose|a: int, b: int| 0 <= a <= b <= m.len() && trim_spec(m) == m.subrange(a, b);
    assert forall|i: int| 0 <= i < t.len() implies !is_forbidden(#[trigger] t[i]) by {
        assert(t[i] == m[a + i]);
    }
    assert(replace_forbidden(t) =~= t);
    lemma_trim(t);
}

/// Audio file extensions the player plays.
pub open spec fn is_audio_ext_spec(ext: Seq<char>) -> bool {
    ext == "mp3"@ || ext == "m4a"@ || ext == "aac"@ || ext == "flac"@ || ext == "wav"@ || ext
        == "ogg"@
}

/// Image file extensions considered for cover art.
pub open spec fn is_image_ext_spec(ext: Seq<char>) -> bool {
    ext == "jpg"@ || ext == "jpeg"@ || ext == "png"@ || ext == "bmp"@ || ext == "webp"@
}

pub fn is_audio_ext(ext: &str) -> (r: bool)
    ensures
        r == is_audio_ext_spec(ext@),
{
    let e = chars_of(ext);
    str_is(e.as_slice(), "mp3") || str_is(e.as_slice(), "m4a") || str_is(e.as_slice(), "aac")
        || str_is(e.as_slice(), "flac") || str_is(e.as_slice(), "wav") || str_is(
        e.as_slice(),
        "ogg",
    )
}

pub fn is_image_ext(ext: &str) -> (r: bool)
    ensures
        r == is_image_ext_spec(ext@),
{
    let e = chars_of(ext);
    str_is(e.as_slice(), "jpg") || str_is(e.as_slice(), "jpeg") || str_is(e.as_slice(), "png")
        || str_is(e.as_slice(), "bmp") || str_is(e.as_slice(), "webp")
}

/// What an export does with one file of the working copy.
#[derive(Clone, Copy, Debug, PartialEq, Eq, Structural)]
pub enum ExportKind {
    /// Copy it into the player's music tree.
    Audio,
    /// Copy it as the album's cover.
    CoverArt,
    /// Leave it.
    Skip,
}

/// The lower-cased extension of a path (empty when it has none).
pub open spec fn lower_ext(path: Seq<char>) -> Seq<char> {
    unicode_lowercase(
        match extension_spec(path) {
            Some(e) => e,
            None => Seq::empty(),
        },
    )
}

/// The stem of a path (empty when it has none).
pub open spec fn stem_or_empty(path: Seq<char>) -> Seq<char> {
    match file_stem_spec(path) {
        Some(s) => s,
        None => Seq::empty(),
    }
}

/// Audio files are exported; images whose stem is `cover`, `folder` or
/// `artwork` become cover art; everything else stays behind.
pub open spec fn export_kind_spec(path: Seq<char>) -> ExportKind {
    let ext = lower_ext(path);
    let stem = stem_or_empty(path);
    if is_audio_ext_spec(ext) {
        ExportKind::Audio
    } else if is_image_ext_spec(ext) && (stem == "cover"@ || stem == "folder"@ || stem
        == "artwork"@) {
        ExportKind::CoverArt
    } else {
        ExportKind::Skip
    }
}

/// How an export classifies a file, by its lower-cased extension and its
/// stem: a file with one of the six audio extensions is exported as audio; an
/// image (jpg, jpeg, png, bmp, webp) named cover, folder or artwork becomes
/// the album's cover; nothing else is cover art, and nothing else is audio.
pub proof fn lemma_export_kind(path: Seq<char>)
    ensures
        ({
            let e = lower_ext(path);
            e == "mp3"@ || e == "m4a"@ || e == "aac"@ || e == "flac"@ || e == "wav"@ || e == "ogg"@
        }) ==> export_kind_spec(path) == ExportKind::Audio,
        ({
            let e = lower_ext(path);
            let st = stem_or_empty(path);
            (e == "jpg"@ || e == "jpeg"@ || e == "png"@ || e == "bmp"@ || e == "webp"@) && (st
                == "cover"@ || st == "folder"@ || st == "artwork"@)
        }) ==> export_kind_spec(path) == ExportKind::CoverArt,
        export_kind_spec(path) == ExportKind::CoverArt ==> ({
            let e = lower_ext(path);
            let st = stem_or_empty(path);
            (e == "jpg"@ || e == "jpeg"@ || e == "png"@ || e == "bmp"@ || e == "webp"@) && (st
                == "cover"@ || st == "folder"@ || st == "artwork"@)
        }),
        export_kind_spec(path) == ExportKind::Audio ==> ({
            let e = lower_ext(path);
            e == "mp3"@ || e == "m4a"@ || e == "aac"@ || e == "flac"@ || e == "wav"@ || e == "ogg"@
        }),
{
    let e = lower_ext(path);
    let st = stem_or_empty(path);
    reveal_strlit("mp3");
    reveal_strlit("m4a");
    reveal_strlit("aac");
    reveal_strlit("flac");
    reveal_strlit("wav");
    reveal_strlit("ogg");
    reveal_strlit("jpg");
    reveal_strlit("jpeg");
    reveal_strlit("png");
    reveal_strlit("bmp");
    reveal_strlit("webp");
    if e == "jpg"@ || e == "jpeg"@ || e == "png"@ || e == "bmp"@ || e == "webp"@ {
        assert(e[0] != 'm' || e[1] != 'p');
        assert(e[0] != 'm' || e[1] != '4');
        assert(e[0] != 'a');
        assert(e[0] != 'f');
        assert(e[0] != 'w' || e[1] != 'a');
        assert(e[0] != 'o');
        assert(!is_audio_ext_spec(e));
    }
}

/// The lower-cased extension of a path.
pub fn lower_extension(path: &str) -> (r: String)
    ensures
        r@ == lower_ext(path@),
{
    let cs = chars_of(path);
    let e = match extension(cs.as_slice()) {
        Some(e) => string_of(e.as_slice()),
        None => String::new(),
    };
    to_lowercase(e.as_str())
}

/// The stem of a path, or the empty string.
pub fn stem_text(path: &str) -> (r: String)
    ensures
        r@ == stem_or_empty(path@),
{
    let cs = chars_of(path);
    match file_stem(cs.as_slice()) {
        Some(s) => string_of(s.as_slice()),
        None => String::new(),
    }
}

/// Decides what an export does with the file at `path`.
pub fn export_kind(path: &str) -> (r: ExportKind)
    ensures
        r == export_kind_spec(path@),
{
    let ext = lower_extension(path);
    if is_audio_ext(ext.as_str()) {
        return ExportKind::Audio;
    }
    let stem = chars_of(stem_text(path).as_str());
    if is_image_ext(ext.as_str()) && (str_is(stem.as_slice(), "cover") || str_is(
        stem.as_slice(),
        "folder",
    ) || str_is(stem.as_slice(), "artwork")) {
        ExportKind::CoverArt
    } else {
        ExportKind::Skip
    }
}

/// The tags an export reads from an audio file.
pub struct ExportTags {
    pub title: Option<String>,
    pub artist: Option<String>,
    pub album: Option<String>,
    pub track_number: Option<u32>,
}

/// The view of an optional string.
pub open spec fn opt_view(o: Option<String>) -> Option<Seq<char>> {
    match o {
        Some(s) => Some(s@),
        None => None,
    }
}

/// `o`, or `d` when it is absent.
pub open spec fn or_default(o: Option<Seq<char>>, d: Seq<char>) -> Seq<char> {
    match o {
        Some(s) => s,
        None => d,
    }
}

/// Where an audio file goes under the player's music root:
/// `<root>/<artist>/<album>/<NN> - <title>.<ext>`, each part sanitized,
/// with `Unknown Artist`, `Unknown Album`, the file's stem (or `Unknown`)
/// and `00` standing in for missing tags.
pub open spec fn audio_dest_spec(music_root: Seq<char>, src: Seq<char>, tags: ExportTags) -> Seq<char> {
    let artist = sanitize_spec(or_default(opt_view(tags.artist), "Unknown Artist"@));
    let album = sanitize_spec(or_default(opt_view(tags.album), "Unknown Album"@));
    let title = sanitize_spec(
        or_default(opt_view(tags.title), or_default(file_stem_spec(src), "Unknown"@)),
    );
    let track = match tags.track_number {
        Some(n) => decimal2(n as nat),
        None => "00"@,
    };
    join_spec(
        join_spec(join_spec(music_root, artist), album),
        track + " - "@ + title + "."@ + lower_ext(src),
    )
}

fn text_or(o: &Option<String>, d: &str) -> (r: String)
    ensures
        r@ == or_default(opt_view(*o), d@),
{
    match o {
        Some(s) => s.clone(),
        None => owned(d),
    }
}

/// The destination of an audio file (see [`audio_dest_spec`]).
pub fn audio_destination(music_root: &str, src: &str, tags: &ExportTags) -> (r: String)
    ensures
        r@ == audio_dest_spec(music_root@, src@, *tags),
{
    let ext = lower_extension(src);
    let artist = sanitize(text_or(&tags.artist, "Unknown Artist").as_str());
    let album = sanitize(text_or(&tags.album, "Unknown Album").as_str());
    let stem = match file_stem(chars_of(src).as_slice()) {
        Some(s) => string_of(s.as_slice()),
        None => owned("Unknown"),
    };
    let title = match &tags.title {
        Some(t) => sanitize(t.as_str()),
        None => sanitize(stem.as_str()),
    };
    let mut file = match tags.track_number {
        Some(n) => u64_to_string2(n as u64),
        None => owned("00"),
    };
    push_str(&mut file, " - ");
    push_str(&mut file, title.as_str());
    push_str(&mut file, ".");
    push_str(&mut file, ext.as_str());
    let a = join(music_root, artist.as_str());
    let b = join(a.as_str(), album.as_str());
    join(b.as_str(), file.as_str())
}

/// The parent of a path, as `Path::parent` gives it (the path without its
/// last component, `None` for a root or an empty path).
pub uninterp spec fn path_parent(p: Seq<char>) -> Option<Seq<char>>;

/// `Path::parent`, as text. Its component rules are not restated here; the
/// result is named by `path_parent`.
#[verifier::external_body]
fn parent(p: &str) -> (r: Option<String>)
    ensures
        opt_view(r) == path_parent(p@),
{
    std::path::Path::new(p).parent().map(|q| q.to_string_lossy().into_owned())
}

/// What is left of `p` after the leading components `base`, as
/// `Path::strip_prefix` gives it (`None` when `base` does not lead `p`).
pub uninterp spec fn path_strip_prefix(p: Seq<char>, base: Seq<char>) -> Option<Seq<char>>;

/// `Path::strip_prefix`, as text, with the error read as `None`. Its
/// component rules are not restated here; the result is named by
/// `path_strip_prefix`.
#[verifier::external_body]
fn strip_prefix(p: &str, base: &str) -> (r: Option<String>)
    ensures
        opt_view(r) == path_strip_prefix(p@, base@),
{
    std::path::Path::new(p).strip_prefix(base).ok().map(|q| q.to_string_lossy().into_owned())
}

/// Where a cover goes: `cover.bmp` in the folder at `rel` under the music
/// root.
pub open spec fn cover_under_spec(music_root: Seq<char>, rel: Seq<char>) -> Seq<char> {
    join_spec(join_spec(music_root, rel), "cover.bmp"@)
}

pub fn cover_under(music_root: &str, rel: &str) -> (r: String)
    ensures
        r@ == cover_under_spec(music_root@, rel@),
{
    let d = join(music_root, rel);
    join(d.as_str(), "cover.bmp")
}

/// The folder of a cover relative to the working copy: its parent with the
/// working copy's path taken off, or nothing when that fails.
pub open spec fn cover_rel_spec(working_dir: Seq<char>, src: Seq<char>) -> Seq<char> {
    match path_parent(src) {
        Some(p) => match path_strip_prefix(p, working_dir) {
            Some(r) => r,
            None => Seq::empty(),
        },
        None => Seq::empty(),
    }
}

/// Where the cover image `src` of the working copy goes on the player:
/// `cover.bmp` in the same folder under the music root.
pub fn cover_destination(music_root: &str, working_dir: &str, src: &str) -> (r: String)
    ensures
        r@ == cover_under_spec(music_root@, cover_rel_spec(working_dir@, src@)),
{
    let rel = match parent(src) {
        Some(p) => match strip_prefix(p.as_str(), working_dir) {
            Some(r) => r,
            None => String::new(),
        },
        None => String::new(),
    };
    cover_under(music_root, rel.as_str())
}

/// What an export did.
pub struct ExportReport {
    pub exported: Vec<String>,
    pub art_exported: Vec<String>,
    pub errors: Vec<String>,
}

impl Default for ExportReport {
    fn default() -> (r: Self)
        ensures
            r.exported@.len() == 0,
            r.art_exported@.len() == 0,
            r.errors@.len() == 0,
    {
        ExportReport { exported: Vec::new(), art_exported: Vec::new(), errors: Vec::new() }
    }
}

/// The one-line summary of an export report.
pub open spec fn summary_spec(tracks: nat, art: nat, errors: nat) -> Seq<char> {
    "Exported: "@ + decimal(tracks) + " tracks, "@ + decimal(art) + " cover art files, "@
        + decimal(errors) + " errors"@
}

impl ExportReport {
    /// Records the copy of the audio file `src`: its destination when it
    /// went, else `<src>: <error>` among the errors.
    pub fn record_audio(&mut self, src: &str, outcome: Result<String, String>)
        ensures
            final(self).art_exported@ == old(self).art_exported@,
            match outcome {
                Ok(d) => final(self).exported@ == old(self).exported@.push(d)
                    && final(self).errors@ == old(self).errors@,
                Err(e) => final(self).exported@ == old(self).exported@
                    && final(self).errors@.len() == old(self).errors@.len() + 1
                    && final(self).errors@.drop_last() == old(self).errors@
                    && final(self).errors@.last()@ == src@ + ": "@ + e@,
            },
    {
        match outcome {
            Ok(d) => self.exported.push(d),
            Err(e) => {
                let mut m = owned(src);
                push_str(&mut m, ": ");
                push_str(&mut m, e.as_str());
                self.errors.push(m);
            },
        }
    }

    /// Records the copy of a cover: its destination when it went; a failed
    /// cover is not counted.
    pub fn record_art(&mut self, outcome: Result<String, String>)
        ensures
            final(self).exported@ == old(self).exported@,
            final(self).errors@ == old(self).errors@,
            match outcome {
                Ok(d) => final(self).art_exported@ == old(self).art_exported@.push(d),
                Err(_) => final(self).art_exported@ == old(self).art_exported@,
            },
    {
        if let Ok(d) = outcome {
            self.art_exported.push(d);
        }
    }

    pub fn summary(&self) -> (r: String)
        ensures
            r@ == summary_spec(
                self.exported.len() as nat,
                self.art_exported.len() as nat,
                self.errors.len() as nat,
            ),
    {
        let mut s = owned("Exported: ");
        push_u64(&mut s, self.exported.len() as u64);
        push_str(&mut s, " tracks, ");
        push_u64(&mut s, self.art_exported.len() as u64);
        push_str(&mut s, " cover art files, ");
        push_u64(&mut s, self.errors.len() as u64);
        push_str(&mut s, " errors");
        s
    }
}

} // verus!
