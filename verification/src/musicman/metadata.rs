//! Track queries and metadata, and the chain that asks the metadata
//! providers in turn.
use vstd::prelude::*;
use crate::musicman::rockbox::{opt_view, stem_or_empty};
use crate::paths::file_stem;
use crate::text::{chars_of, find_chars, find_from, string_of, trim_chars, trim_spec};

verus! {

broadcast use vstd::string::group_string_axioms;

#[derive(Debug, Clone)]
pub struct TrackQuery {
    pub title: Option<String>,
    pub artist: Option<String>,
    pub album: Option<String>,
    pub duration_secs: Option<u32>,
}

#[derive(Debug, Clone)]
pub struct TrackMetadata {
    pub title: Option<String>,
    pub artist: Option<String>,
    pub album: Option<String>,
    pub album_artist: Option<String>,
    pub track_number: Option<u32>,
    pub year: Option<u32>,
    pub genre: Option<String>,
    pub album_art_url: Option<String>,
}

/// The mathematical content of a [`TrackMetadata`].
pub struct MetadataView {
    pub title: Option<Seq<char>>,
    pub artist: Option<Seq<char>>,
    pub album: Option<Seq<char>>,
    pub album_artist: Option<Seq<char>>,
    pub track_number: Option<u32>,
    pub year: Option<u32>,
    pub genre: Option<Seq<char>>,
    pub album_art_url: Option<Seq<char>>,
}

impl View for TrackMetadata {
    type V = MetadataView;

    open spec fn view(&self) -> MetadataView {
        MetadataView {
            title: opt_view(self.title),
            artist: opt_view(self.artist),
            album: opt_view(self.album),
            album_artist: opt_view(self.album_artist),
            track_number: self.track_number,
            year: self.year,
            genre: opt_view(self.genre),
            album_art_url: opt_view(self.album_art_url),
        }
    }
}

/// Metadata with nothing known.
pub open spec fn empty_metadata() -> MetadataView {
    MetadataView {
        title: None,
        artist: None,
        album: None,
        album_artist: None,
        track_number: None,
        year: None,
        genre: None,
        album_art_url: None,
    }
}

impl Default for TrackQuery {
    fn default() -> (r: Self)
        ensures
            r.title is None,
            r.artist is None,
            r.album is None,
            r.duration_secs is None,
    {
        TrackQuery { title: None, artist: None, album: None, duration_secs: None }
    }
}

impl Default for TrackMetadata {
    fn default() -> (r: Self)
        ensures
            r@ == empty_metadata(),
    {
        TrackMetadata {
            title: None,
            artist: None,
            album: None,
            album_artist: None,
            track_number: None,
            year: None,
            genre: None,
            album_art_url: None,
        }
    }
}

/// What a file name says of its track: `Artist - Title` gives both (each
/// trimmed, split at the first ` - `); any other stem is the title.
pub open spec fn query_title(path: Seq<char>) -> Seq<char> {
    let stem = stem_or_empty(path);
    match find_from(stem, " - "@, 0) {
        Some(i) => trim_spec(stem.skip(i + 3)),
        None => stem,
    }
}

pub open spec fn query_artist(path: Seq<char>) -> Option<Seq<char>> {
    let stem = stem_or_empty(path);
    match find_from(stem, " - "@, 0) {
        Some(i) => Some(trim_spec(stem.take(i))),
        None => None,
    }
}

fn slice_copy(s: &[char], a: usize, b: usize) -> (r: Vec<char>)
    requires
        a <= b <= s.len(),
    ensures
        r@ == s@.subrange(a as int, b as int),
{
    let mut r: Vec<char> = Vec::new();
    for i in a..b
        invariant
            a <= b <= s.len(),
            r@ == s@.subrange(a as int, i as int),
    {
        r.push(s[i]);
        assert(s@.subrange(a as int, i + 1) =~= s@.subrange(a as int, i as int).push(s@[i as int]));
    }
    r
}

/// Reads basic track info from a file path (filename-based fallback)
pub fn query_from_path(path: &String) -> (r: TrackQuery)
    ensures
        opt_view(r.title) == Some(query_title(path@)),
        opt_view(r.artist) == query_artist(path@),
        r.album is None,
        r.duration_secs is None,
{
    let stem: Vec<char> = match file_stem(chars_of(path.as_str()).as_slice()) {
        Some(s) => s,
        None => Vec::new(),
    };
    let sep = chars_of(" - ");
    match find_chars(stem.as_slice(), sep.as_slice(), 0) {
        Some(i) => {
            proof {
                crate::text::lemma_find_from(stem@, sep@, 0);
                assert(sep@.len() == 3) by {
                    reveal_strlit(" - ");
                }
                assert(i + 3 <= stem.len());
            }
            let artist = slice_copy(stem.as_slice(), 0, i);
            let title = slice_copy(stem.as_slice(), i + 3, stem.len());
            assert(artist@ =~= stem@.take(i as int));
            assert(title@ =~= stem@.skip(i + 3));
            TrackQuery {
                artist: Some(string_of(trim_chars(artist.as_slice()).as_slice())),
                title: Some(string_of(trim_chars(title.as_slice()).as_slice())),
                album: None,
                duration_secs: None,
            }
        },
        None => TrackQuery {
            title: Some(string_of(stem.as_slice())),
            artist: None,
            album: None,
            duration_secs: None,
        },
    }
}

} // verus!
