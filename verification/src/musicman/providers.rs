//! The metadata services: what each one is asked and what is read from its
//! answer, and the chain that asks them in order.
use vstd::prelude::*;
use vstd::utf8::encode_utf8;
use crate::json::{
    as_text, deref, first, first_item, get, member, object_check, owned_text, text, unsigned,
    as_unsigned, is_object, Json,
};
use crate::musicman::metadata::{empty_metadata, MetadataView, TrackMetadata, TrackQuery};
use crate::musicman::rockbox::opt_view;
use crate::text::{
    chars_of, owned, parse_u32, parse_u32_spec, push_char, push_str, replace_chars, replace_spec,
    string_of,
};

verus! {

broadcast use vstd::string::group_string_axioms;

// ---------------------------------------------------------------------------
// Percent-encoding
// ---------------------------------------------------------------------------

/// Bytes `urlencoding` leaves as they are: ASCII letters, digits, `-`, `.`,
/// `_` and `~`.
pub open spec fn is_unreserved(b: u8) -> bool {
    ||| 48 <= b <= 57
    ||| 65 <= b <= 90
    ||| 97 <= b <= 122
    ||| b == 45
    ||| b == 46
    ||| b == 95
    ||| b == 126
}

/// The upper-case hexadecimal digit for `d < 16`.
pub open spec fn hex_digit(d: u8) -> char {
    if d < 10 {
        (48 + d) as char
    } else {
        (55 + d) as char
    }
}

/// Percent-encoding of a byte string: unreserved bytes stay, every other
/// byte becomes `%` and two upper-case hexadecimal digits.
pub open spec fn percent_encode(bytes: Seq<u8>) -> Seq<char>
    decreases bytes.len(),
{
    if bytes.len() == 0 {
        Seq::empty()
    } else {
        let b = bytes[0];
        (if is_unreserved(b) {
            seq![b as char]
        } else {
            seq!['%', hex_digit(b / 16), hex_digit(b % 16)]
        }) + percent_encode(bytes.drop_first())
    }
}

/// A character that may stand in a URL's query as it is: an unreserved
/// ASCII character, or the `%` of an escape.
pub open spec fn url_safe(c: char) -> bool {
    (c as u32) < 128 && (is_unreserved((c as u32) as u8) || c == '%')
}

/// Percent-encoded text holds only characters that may stand in a URL.
pub proof fn lemma_percent_encode_safe(bytes: Seq<u8>)
    ensures
        forall|i: int| 0 <= i < percent_encode(bytes).len() ==> url_safe(
            #[trigger] percent_encode(bytes)[i],
        ),
    decreases bytes.len(),
{
    if bytes.len() > 0 {
        let b = bytes[0];
        let rest = percent_encode(bytes.drop_first());
        lemma_percent_encode_safe(bytes.drop_first());
        let head: Seq<char> = if is_unreserved(b) {
            seq![b as char]
        } else {
            seq!['%', hex_digit(b / 16), hex_digit(b % 16)]
        };
        assert(percent_encode(bytes) == head + rest);
        assert forall|i: int| 0 <= i < head.len() implies url_safe(#[trigger] head[i]) by {
            if is_unreserved(b) {
                assert(head[i] == b as char);
                assert(((b as char) as u32) == b as u32);
            } else if i == 1 {
                assert(b / 16 < 16);
            } else if i == 2 {
                assert(b % 16 < 16);
            }
        }
        assert forall|i: int| 0 <= i < head.len() + rest.len() implies url_safe(
            #[trigger] (head + rest)[i],
        ) by {
            if i < head.len() {
                assert((head + rest)[i] == head[i]);
            } else {
                assert((head + rest)[i] == rest[i - head.len()]);
            }
        }
    }
}

/// `urlencoding::encode`: percent-encodes the UTF-8 bytes of `s`, keeping
/// ASCII letters, digits and `-._~`.
#[verifier::external_body]
fn url_encode(s: &str) -> (r: String)
    ensures
        r@ == percent_encode(encode_utf8(s@)),
{
    urlencoding::encode(s).into_owned()
}

/// Whether an HTTP status is a success (`2xx`).
pub open spec fn is_success_spec(status: u16) -> bool {
    200 <= status <= 299
}

/// `StatusCode::is_success`.
pub fn is_success(status: u16) -> (r: bool)
    ensures
        r == is_success_spec(status),
{
    200 <= status && status <= 299
}

// ---------------------------------------------------------------------------
// Shared pieces
// ---------------------------------------------------------------------------

/// The text before the first `-` (all of it when there is none): what
/// `split('-').next()` gives.
pub open spec fn before_dash(s: Seq<char>) -> Seq<char>
    decreases s.len(),
{
    if s.len() == 0 {
        s
    } else if s[0] == '-' {
        Seq::empty()
    } else {
        seq![s[0]] + before_dash(s.drop_first())
    }
}

/// The year of a date `YYYY-...`: the part before the first `-`, parsed.
pub open spec fn year_of(date: Option<Seq<char>>) -> Option<u32> {
    match date {
        Some(d) => parse_u32_spec(before_dash(d)),
        None => None,
    }
}

fn year_from(date: Option<&String>) -> (r: Option<u32>)
    ensures
        r == year_of(
            match date {
                Some(d) => Some(d@),
                None => None,
            },
        ),
{
    match date {
        Some(d) => {
            let cs = chars_of(d.as_str());
            let mut i: usize = 0;
            assert(cs@.skip(0) =~= cs@);
            assert(cs@.take(0) + before_dash(cs@) =~= before_dash(cs@));
            while i < cs.len() && cs[i] != '-'
                invariant
                    i <= cs.len(),
                    before_dash(cs@) == cs@.take(i as int) + before_dash(cs@.skip(i as int)),
                decreases cs.len() - i,
            {
                assert(cs@.skip(i as int).drop_first() =~= cs@.skip(i + 1));
                assert(cs@.take(i + 1) =~= cs@.take(i as int) + seq![cs@[i as int]]);
                i = i + 1;
            }
            proof {
                if i < cs.len() {
                    assert(cs@.skip(i as int)[0] == '-');
                }
                assert(cs@.take(i as int) + before_dash(cs@.skip(i as int)) =~= cs@.take(i as int));
            }
            let mut prefix: Vec<char> = Vec::new();
            for j in 0..i
                invariant
                    i <= cs.len(),
                    prefix@ == cs@.take(j as int),
            {
                prefix.push(cs[j]);
                assert(cs@.take(j + 1) =~= cs@.take(j as int).push(cs@[j as int]));
            }
            parse_u32(prefix.as_slice())
        },
        None => None,
    }
}

/// The text of a member, or `None`.
fn member_text(v: Option<&Json>, key: &str) -> (r: Option<String>)
    ensures
        opt_view(r) == text(member(deref(v), key@)),
{
    owned_text(get(v, key))
}

/// `s` with every `pat` replaced by `rep`.
fn replaced(s: &String, pat: &str, rep: &str) -> (r: String)
    requires
        pat@.len() > 0,
    ensures
        r@ == replace_spec(s@, pat@, rep@),
{
    let cs = chars_of(s.as_str());
    let p = chars_of(pat);
    let q = chars_of(rep);
    string_of(replace_chars(cs.as_slice(), p.as_slice(), q.as_slice()).as_slice())
}

/// The term searched for: the title, followed by a space and the artist
/// when there is one.
pub open spec fn title_artist_term(title: Seq<char>, artist: Option<Seq<char>>) -> Seq<char> {
    match artist {
        Some(a) => title.push(' ') + a,
        None => title,
    }
}

fn title_artist(title: &String, artist: &Option<String>) -> (r: String)
    ensures
        r@ == title_artist_term(title@, opt_view(*artist)),
{
    let mut term = title.clone();
    if let Some(a) = artist {
        push_char(&mut term, ' ');
        push_str(&mut term, a.as_str());
    }
    term
}

// ---------------------------------------------------------------------------
// iTunes
// ---------------------------------------------------------------------------

pub struct ItunesProvider {
    pub rate_limit_ms: u64,
}

/// The iTunes search address for a query, when it has a title.
pub open spec fn itunes_url(q: TrackQuery) -> Option<Seq<char>> {
    match opt_view(q.title) {
        Some(t) => Some(
            "https://itunes.apple.com/search?term="@ + percent_encode(
                encode_utf8(title_artist_term(t, opt_view(q.artist))),
            ) + "&entity=song&limit=1"@,
        ),
        None => None,
    }
}

/// What is read from an iTunes answer: the first result's track name,
/// artist, collection, the year of its release date, its track number (cut
/// to 32 bits), genre, and its artwork address with `100x100bb` raised to
/// `600x600bb` (empty when absent).
pub open spec fn itunes_metadata(body: Json) -> Option<MetadataView> {
    let r = first_item(member(Some(body), "results"@));
    if r is None {
        None
    } else {
        Some(
            MetadataView {
                title: text(member(r, "trackName"@)),
                artist: text(member(r, "artistName"@)),
                album: text(member(r, "collectionName"@)),
                year: year_of(text(member(r, "releaseDate"@))),
                track_number: match unsigned(member(r, "trackNumber"@)) {
                    Some(n) => Some(n as u32),
                    None => None,
                },
                genre: text(member(r, "primaryGenreName"@)),
                album_art_url: Some(
                    match text(member(r, "artworkUrl100"@)) {
                        Some(u) => replace_spec(u, "100x100bb"@, "600x600bb"@),
                        None => Seq::empty(),
                    },
                ),
                ..empty_metadata()
            },
        )
    }
}

impl ItunesProvider {
    pub fn new(rate_limit_ms: u64) -> (r: Self)
        ensures
            r.rate_limit_ms == rate_limit_ms,
    {
        ItunesProvider { rate_limit_ms }
    }

    /// The address to ask, or `None` when the query has no title.
    pub fn search_url(&self, query: &TrackQuery) -> (r: Option<String>)
        ensures
            opt_view(r) == itunes_url(*query),
    {
        match &query.title {
            None => None,
            Some(t) => {
                let term = title_artist(t, &query.artist);
                let mut url = owned("https://itunes.apple.com/search?term=");
                let enc = url_encode(term.as_str());
                push_str(&mut url, enc.as_str());
                push_str(&mut url, "&entity=song&limit=1");
                Some(url)
            },
        }
    }

    /// Reads the metadata from a successful answer.
    pub fn metadata_from(&self, body: &Json) -> (r: Option<TrackMetadata>)
        ensures
            match r {
                Some(m) => itunes_metadata(*body) == Some(m@),
                None => itunes_metadata(*body) is None,
            },
    {
        let r = first(get(Some(body), "results"));
        if r.is_none() {
            return None;
        }
        let track_number = match as_unsigned(get(r, "trackNumber")) {
            Some(n) => Some(n as u32),
            None => None,
        };
        let art = match as_text(get(r, "artworkUrl100")) {
            Some(u) => {
                proof {
                    reveal_strlit("100x100bb");
                }
                replaced(u, "100x100bb", "600x600bb")
            },
            None => String::new(),
        };
        Some(
            TrackMetadata {
                title: member_text(r, "trackName"),
                artist: member_text(r, "artistName"),
                album: member_text(r, "collectionName"),
                album_artist: None,
                year: year_from(as_text(get(r, "releaseDate"))),
                track_number,
                genre: member_text(r, "primaryGenreName"),
                album_art_url: Some(art),
            },
        )
    }
}

// ---------------------------------------------------------------------------
// MusicBrainz
// ---------------------------------------------------------------------------

pub struct MusicBrainzProvider {
    pub user_agent: String,
    pub rate_limit_ms: u64,
}

/// The Lucene query: `recording:<title>`, and ` AND artist:<artist>` when
/// the artist is known.
pub open spec fn lucene_query(title: Seq<char>, artist: Option<Seq<char>>) -> Seq<char> {
    match artist {
        Some(a) => "recording:"@ + title + " AND artist:"@ + a,
        None => "recording:"@ + title,
    }
}

/// The MusicBrainz search address for a query, when it has a title.
pub open spec fn musicbrainz_url(q: TrackQuery) -> Option<Seq<char>> {
    match opt_view(q.title) {
        Some(t) => Some(
            "https://musicbrainz.org/ws/2/recording/?query="@ + percent_encode(
                encode_utf8(lucene_query(t, opt_view(q.artist))),
            ) + "&fmt=json&limit=1"@,
        ),
        None => None,
    }
}

/// The MusicBrainz search asks for the recording by its title and, when the
/// query names an artist, by that artist too; without a title there is no
/// search.
pub proof fn lemma_musicbrainz_search(q: TrackQuery)
    ensures
        q.title is None ==> musicbrainz_url(q) is None,
        q.title matches Some(t) ==> q.artist matches Some(a) ==> musicbrainz_url(q) == Some(
            "https://musicbrainz.org/ws/2/recording/?query="@ + percent_encode(
                encode_utf8("recording:"@ + t@ + " AND artist:"@ + a@),
            ) + "&fmt=json&limit=1"@,
        ),
        q.title matches Some(t) ==> q.artist is None ==> musicbrainz_url(q) == Some(
            "https://musicbrainz.org/ws/2/recording/?query="@ + percent_encode(
                encode_utf8("recording:"@ + t@),
            ) + "&fmt=json&limit=1"@,
        ),
{
}

/// What is read from a MusicBrainz answer: the first recording's title, its
/// first credited artist's name, and from its first release the title, the
/// year of the date and the number of the first track of the first medium.
pub open spec fn musicbrainz_metadata(body: Json) -> Option<MetadataView> {
    let rec = first_item(member(Some(body), "recordings"@));
    if rec is None {
        None
    } else {
        let release = first_item(member(rec, "releases"@));
        let number = text(
            member(
                first_item(member(first_item(member(release, "media"@)), "track"@)),
                "number"@,
            ),
        );
        Some(
            MetadataView {
                title: text(member(rec, "title"@)),
                artist: text(
                    member(member(first_item(member(rec, "artist-credit"@)), "artist"@), "name"@),
                ),
                album: text(member(release, "title"@)),
                year: year_of(text(member(release, "date"@))),
                track_number: match number {
                    Some(n) => parse_u32_spec(n),
                    None => None,
                },
                ..empty_metadata()
            },
        )
    }
}

impl MusicBrainzProvider {
    pub fn new(user_agent: &str, rate_limit_ms: u64) -> (r: Self)
        ensures
            r.user_agent@ == user_agent@,
            r.rate_limit_ms == rate_limit_ms,
    {
        MusicBrainzProvider { user_agent: owned(user_agent), rate_limit_ms }
    }

    /// The address to ask, or `None` when the query has no title.
    pub fn search_url(&self, query: &TrackQuery) -> (r: Option<String>)
        ensures
            opt_view(r) == musicbrainz_url(*query),
    {
        match &query.title {
            None => None,
            Some(t) => {
                let mut lucene = owned("recording:");
                push_str(&mut lucene, t.as_str());
                if let Some(a) = &query.artist {
                    push_str(&mut lucene, " AND artist:");
                    push_str(&mut lucene, a.as_str());
                }
                let mut url = owned("https://musicbrainz.org/ws/2/recording/?query=");
                let enc = url_encode(lucene.as_str());
                push_str(&mut url, enc.as_str());
                push_str(&mut url, "&fmt=json&limit=1");
                Some(url)
            },
        }
    }

    /// Reads the metadata from a successful answer.
    pub fn metadata_from(&self, body: &Json) -> (r: Option<TrackMetadata>)
        ensures
            match r {
                Some(m) => musicbrainz_metadata(*body) == Some(m@),
                None => musicbrainz_metadata(*body) is None,
            },
    {
        let rec = first(get(Some(body), "recordings"));
        if rec.is_none() {
            return None;
        }
        let release = first(get(rec, "releases"));
        let number = as_text(get(first(get(first(get(release, "media")), "track")), "number"));
        let track_number = match number {
            Some(n) => parse_u32(chars_of(n.as_str()).as_slice()),
            None => None,
        };
        Some(
            TrackMetadata {
                title: member_text(rec, "title"),
                artist: owned_text(get(get(first(get(rec, "artist-credit")), "artist"), "name")),
                album: member_text(release, "title"),
                album_artist: None,
                year: year_from(as_text(get(release, "date"))),
                track_number,
                genre: None,
                album_art_url: None,
            },
        )
    }
}

// ---------------------------------------------------------------------------
// SoundCloud
// ---------------------------------------------------------------------------

pub struct SoundCloudProvider {
    pub client_id: String,
}

/// What is read from a SoundCloud answer: the first track's title, its
/// user's name, its genre and its artwork address with `large` replaced by
/// `t500x500`.
pub open spec fn soundcloud_metadata(body: Json) -> Option<MetadataView> {
    let t = first_item(Some(body));
    if t is None {
        None
    } else {
        Some(
            MetadataView {
                title: text(member(t, "title"@)),
                artist: text(member(member(t, "user"@), "username"@)),
                genre: text(member(t, "genre"@)),
                album_art_url: match text(member(t, "artwork_url"@)) {
                    Some(u) => Some(replace_spec(u, "large"@, "t500x500"@)),
                    None => None,
                },
                ..empty_metadata()
            },
        )
    }
}

impl SoundCloudProvider {
    pub fn new(client_id: &str) -> (r: Self)
        ensures
            r.client_id@ == client_id@,
    {
        SoundCloudProvider { client_id: owned(client_id) }
    }

    pub fn is_configured(&self) -> (r: bool)
        ensures
            r == (self.client_id@.len() > 0),
    {
        !self.client_id.as_str().is_empty()
    }

    /// The text searched for (the title), or `None` when the provider has no
    /// client id or the query no title.
    pub fn search_text(&self, query: &TrackQuery) -> (r: Option<String>)
        ensures
            opt_view(r) == if self.client_id@.len() > 0 {
                opt_view(query.title)
            } else {
                None
            },
    {
        if !self.is_configured() {
            return None;
        }
        match &query.title {
            Some(t) => Some(t.clone()),
            None => None,
        }
    }

    /// Reads the metadata from a successful answer.
    pub fn metadata_from(&self, body: &Json) -> (r: Option<TrackMetadata>)
        ensures
            match r {
                Some(m) => soundcloud_metadata(*body) == Some(m@),
                None => soundcloud_metadata(*body) is None,
            },
    {
        let t = first(Some(body));
        if t.is_none() {
            return None;
        }
        let art = match as_text(get(t, "artwork_url")) {
            Some(u) => {
                proof {
                    reveal_strlit("large");
                }
                Some(replaced(u, "large", "t500x500"))
            },
            None => None,
        };
        Some(
            TrackMetadata {
                title: member_text(t, "title"),
                artist: owned_text(get(get(t, "user"), "username")),
                album: None,
                album_artist: None,
                year: None,
                track_number: None,
                genre: member_text(t, "genre"),
                album_art_url: art,
            },
        )
    }
}

// ---------------------------------------------------------------------------
// Tidal
// ---------------------------------------------------------------------------

pub struct TidalProvider {
    pub client_id: String,
    pub client_secret: String,
}

/// The first element of `items[k..]` whose `type` is the string `artists`.
pub open spec fn first_artist_from(items: Seq<Json>, k: int) -> Option<Json>
    decreases items.len() - k,
{
    if k < 0 || k >= items.len() {
        None
    } else if text(member(Some(items[k]), "type"@)) == Some("artists"@) {
        Some(items[k])
    } else {
        first_artist_from(items, k + 1)
    }
}

/// The first included artist of a Tidal answer.
pub open spec fn included_artist(body: Json) -> Option<Json> {
    match member(Some(body), "included"@) {
        Some(Json::Array(items)) => first_artist_from(items@, 0),
        _ => None,
    }
}

/// What is read from a Tidal answer: when the first result has an
/// attributes object, its title, and the name of the first included artist.
pub open spec fn tidal_metadata(body: Json) -> Option<MetadataView> {
    let attrs = member(first_item(member(Some(body), "data"@)), "attributes"@);
    if !is_object(attrs) {
        None
    } else {
        Some(
            MetadataView {
                title: text(member(attrs, "title"@)),
                artist: text(member(member(included_artist(body), "attributes"@), "name"@)),
                ..empty_metadata()
            },
        )
    }
}

/// The access token in a token answer.
pub open spec fn tidal_token(body: Json) -> Option<Seq<char>> {
    text(member(Some(body), "access_token"@))
}

/// The first element whose `type` is the string `artists`.
fn find_artist(items: &Vec<Json>) -> (r: Option<&Json>)
    ensures
        deref(r) == first_artist_from(items@, 0),
{
    let mut k: usize = 0;
    while k < items.len()
        invariant
            k <= items.len(),
            first_artist_from(items@, 0) == first_artist_from(items@, k as int),
        decreases items.len() - k,
    {
        let is_artist = match as_text(get(Some(&items[k]), "type")) {
            Some(ty) => crate::text::str_is(chars_of(ty.as_str()).as_slice(), "artists"),
            None => false,
        };
        if is_artist {
            return Some(&items[k]);
        }
        k = k + 1;
    }
    None
}

impl TidalProvider {
    pub fn new(client_id: &str, client_secret: &str) -> (r: Self)
        ensures
            r.client_id@ == client_id@,
            r.client_secret@ == client_secret@,
    {
        TidalProvider { client_id: owned(client_id), client_secret: owned(client_secret) }
    }

    pub fn is_configured(&self) -> (r: bool)
        ensures
            r == (self.client_id@.len() > 0 && self.client_secret@.len() > 0),
    {
        !self.client_id.as_str().is_empty() && !self.client_secret.as_str().is_empty()
    }

    /// The term searched for (title and artist), or `None` when the
    /// provider is not configured or the query has no title.
    pub fn search_term(&self, query: &TrackQuery) -> (r: Option<String>)
        ensures
            opt_view(r) == if self.client_id@.len() > 0 && self.client_secret@.len() > 0 {
                match opt_view(query.title) {
                    Some(t) => Some(title_artist_term(t, opt_view(query.artist))),
                    None => None,
                }
            } else {
                None
            },
    {
        if !self.is_configured() {
            return None;
        }
        match &query.title {
            Some(t) => Some(title_artist(t, &query.artist)),
            None => None,
        }
    }

    /// The token in a token answer, or the error the service is reported
    /// with when it has none.
    pub fn token_from(&self, body: &Json) -> (r: Result<String, String>)
        ensures
            match r {
                Ok(t) => tidal_token(*body) == Some(t@),
                Err(e) => tidal_token(*body) is None && e@ == "No access token in Tidal response"@,
            },
    {
        match member_text(Some(body), "access_token") {
            Some(t) => Ok(t),
            None => Err(owned("No access token in Tidal response")),
        }
    }

    /// Reads the metadata from a successful answer.
    pub fn metadata_from(&self, body: &Json) -> (r: Option<TrackMetadata>)
        ensures
            match r {
                Some(m) => tidal_metadata(*body) == Some(m@),
                None => tidal_metadata(*body) is None,
            },
    {
        let attrs = get(first(get(Some(body), "data")), "attributes");
        if !object_check(attrs) {
            return None;
        }
        let artist_item = match get(Some(body), "included") {
            Some(Json::Array(items)) => find_artist(items),
            _ => None,
        };
        Some(
            TrackMetadata {
                title: member_text(attrs, "title"),
                artist: owned_text(get(get(artist_item, "attributes"), "name")),
                album: None,
                album_artist: None,
                year: None,
                track_number: None,
                genre: None,
                album_art_url: None,
            },
        )
    }
}

/// The Tidal access token of a session: asked for once, then kept.
pub struct TidalToken {
    pub granted: Option<String>,
}

/// What a search does for its token: reuse the one granted, or ask for one.
pub enum TokenStep {
    Reuse(String),
    Request,
}

impl TidalToken {
    /// The token granted so far, if any.
    pub open spec fn kept(self) -> Option<Seq<char>> {
        opt_view(self.granted)
    }

    /// After a token answer: its token is kept and returned; without one the
    /// session keeps what it had and the answer is an error.
    pub open spec fn granted_after(
        self,
        after: TidalToken,
        answer: Json,
        r: Result<String, String>,
    ) -> bool {
        match tidal_token(answer) {
            Some(t) => r matches Ok(u) && u@ == t && after.kept() == Some(t),
            None => r matches Err(e) && e@ == "No access token in Tidal response"@ && after.kept()
                == self.kept(),
        }
    }

    /// A session with no token yet.
    pub fn new() -> (r: TidalToken)
        ensures
            r.kept() is None,
    {
        TidalToken { granted: None }
    }

    /// The token step: reuse a granted token without asking again, else ask.
    pub fn step(&self) -> (r: TokenStep)
        ensures
            match self.kept() {
                Some(t) => r matches TokenStep::Reuse(u) && u@ == t,
                None => r is Request,
            },
    {
        match &self.granted {
            Some(t) => TokenStep::Reuse(t.clone()),
            None => TokenStep::Request,
        }
    }

    /// Reads the token answer of `p`'s credentials and keeps its token.
    pub fn grant(&mut self, p: &TidalProvider, answer: &Json) -> (r: Result<String, String>)
        ensures
            old(self).granted_after(*final(self), *answer, r),
    {
        match p.token_from(answer) {
            Ok(t) => {
                self.granted = Some(t.clone());
                Ok(t)
            },
            Err(e) => Err(e),
        }
    }
}

/// Once a token is granted, every later search reuses that token and asks
/// for no other; an answer without a token leaves the session as it was.
pub proof fn lemma_token_kept(before: TidalToken, after: TidalToken, answer: Json, r: Result<
    String,
    String,
>)
    requires
        before.granted_after(after, answer, r),
    ensures
        r matches Ok(t) ==> after.kept() == Some(t@),
        r is Err ==> after.kept() == before.kept(),
{
}

// ---------------------------------------------------------------------------
// The chain
// ---------------------------------------------------------------------------

/// A metadata service, known by its name.
pub trait MetadataProvider {
    fn name(&self) -> &str;
}

impl MetadataProvider for ItunesProvider {
    fn name(&self) -> (r: &str)
        ensures
            r@ == "itunes"@,
    {
        "itunes"
    }
}

impl MetadataProvider for MusicBrainzProvider {
    fn name(&self) -> (r: &str)
        ensures
            r@ == "musicbrainz"@,
    {
        "musicbrainz"
    }
}

impl MetadataProvider for SoundCloudProvider {
    fn name(&self) -> (r: &str)
        ensures
            r@ == "soundcloud"@,
    {
        "soundcloud"
    }
}

impl MetadataProvider for TidalProvider {
    fn name(&self) -> (r: &str)
        ensures
            r@ == "tidal"@,
    {
        "tidal"
    }
}

/// One of the services the chain can ask.
pub enum Provider {
    Itunes(ItunesProvider),
    MusicBrainz(MusicBrainzProvider),
    SoundCloud(SoundCloudProvider),
    Tidal(TidalProvider),
}

/// The name a service answers under.
pub open spec fn provider_name(p: Provider) -> Seq<char> {
    match p {
        Provider::Itunes(_) => "itunes"@,
        Provider::MusicBrainz(_) => "musicbrainz"@,
        Provider::SoundCloud(_) => "soundcloud"@,
        Provider::Tidal(_) => "tidal"@,
    }
}

impl MetadataProvider for Provider {
    fn name(&self) -> (r: &str)
        ensures
            r@ == provider_name(*self),
    {
        match self {
            Provider::Itunes(p) => p.name(),
            Provider::MusicBrainz(p) => p.name(),
            Provider::SoundCloud(p) => p.name(),
            Provider::Tidal(p) => p.name(),
        }
    }
}

/// Where the chain stands after hearing from a service: ask the service at
/// an index, the service at an index found the track, or none did.
#[derive(Clone, Copy, Debug, PartialEq, Eq, Structural)]
pub enum ChainStep {
    Ask(usize),
    Found(usize),
    Exhausted,
}

/// The first step of a chain of `len` services.
pub open spec fn start_spec(len: nat) -> ChainStep {
    if len > 0 {
        ChainStep::Ask(0)
    } else {
        ChainStep::Exhausted
    }
}

/// The step after the service at `at` answered (`found`) or not.
pub open spec fn step_spec(len: nat, at: int, found: bool) -> ChainStep {
    if found {
        ChainStep::Found(at as usize)
    } else if at + 1 < len {
        ChainStep::Ask((at + 1) as usize)
    } else {
        ChainStep::Exhausted
    }
}

/// Where the chain ends when the services answer as `found` says, following
/// at most `fuel` further questions from `step`.
pub open spec fn run_from(len: nat, found: Seq<bool>, step: ChainStep, fuel: nat) -> ChainStep
    decreases fuel,
{
    match step {
        ChainStep::Ask(k) => if fuel == 0 || k >= found.len() {
            step
        } else {
            run_from(len, found, step_spec(len, k as int, found[k as int]), (fuel - 1) as nat)
        },
        _ => step,
    }
}

/// The first index at or after `k` whose service found the track.
pub open spec fn first_found(found: Seq<bool>, k: int) -> Option<int>
    decreases found.len() - k,
{
    if k < 0 || k >= found.len() {
        None
    } else if found[k] {
        Some(k)
    } else {
        first_found(found, k + 1)
    }
}

/// Tries providers in order and keeps the first that finds the track.
pub struct ProviderChain {
    pub providers: Vec<Provider>,
}

impl ProviderChain {
    pub fn new(providers: Vec<Provider>) -> (r: Self)
        ensures
            r.providers@ == providers@,
    {
        ProviderChain { providers }
    }

    /// The first service to ask, if there is one.
    pub fn start(&self) -> (r: ChainStep)
        ensures
            r == start_spec(self.providers.len() as nat),
    {
        if self.providers.len() > 0 {
            ChainStep::Ask(0)
        } else {
            ChainStep::Exhausted
        }
    }

    /// The step after the service at `at` found the track (`found`) or
    /// gave no result or failed.
    pub fn step(&self, at: usize, found: bool) -> (r: ChainStep)
        requires
            at < self.providers.len(),
        ensures
            r == step_spec(self.providers.len() as nat, at as int, found),
    {
        if found {
            ChainStep::Found(at)
        } else if at + 1 < self.providers.len() {
            ChainStep::Ask(at + 1)
        } else {
            ChainStep::Exhausted
        }
    }

    /// The chain's answer when the service at `at` found `meta`: the
    /// service's name and the metadata.
    pub fn answer(&self, at: usize, meta: TrackMetadata) -> (r: (String, TrackMetadata))
        requires
            at < self.providers.len(),
        ensures
            r.0@ == provider_name(self.providers@[at as int]),
            r.1 == meta,
    {
        (owned(self.providers[at].name()), meta)
    }
}

/// Whatever the services answer, the chain asks them in order and ends on
/// the first that found the track, or exhausted when none did.
pub proof fn lemma_chain_first_found(found: Seq<bool>)
    requires
        found.len() <= usize::MAX,
    ensures
        run_from(found.len(), found, start_spec(found.len()), found.len()) == match first_found(
            found,
            0,
        ) {
            Some(i) => ChainStep::Found(i as usize),
            None => ChainStep::Exhausted,
        },
{
    if found.len() > 0 {
        lemma_run_from(found, 0);
    }
}

proof fn lemma_run_from(found: Seq<bool>, k: int)
    requires
        0 <= k < found.len() <= usize::MAX,
    ensures
        run_from(found.len(), found, ChainStep::Ask(k as usize), (found.len() - k) as nat)
            == match first_found(found, k) {
            Some(i) => ChainStep::Found(i as usize),
            None => ChainStep::Exhausted,
        },
    decreases found.len() - k,
{
    let fuel = (found.len() - k) as nat;
    assert(run_from(found.len(), found, ChainStep::Ask(k as usize), fuel) == run_from(
        found.len(),
        found,
        step_spec(found.len(), k, found[k]),
        (fuel - 1) as nat,
    ));
    if !found[k] && k + 1 < found.len() {
        lemma_run_from(found, k + 1);
    }
}

} // verus!
