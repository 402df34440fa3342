use termsuite::json::{Json, JsonNumber};
use termsuite::musicman::cleaner::{
    cleaned_tags, cover_mime, date_order_plan, select_files, with_metadata, CoverMime, FileEntry,
    FileKind, SongTags,
};
use termsuite::musicman::config::{config_path_for, config_path_in, resolve_tilde_in, Config};
use termsuite::musicman::converter::{ffmpeg_args, m4a_output_path};
use termsuite::musicman::metadata::{query_from_path, TrackMetadata, TrackQuery};
use termsuite::musicman::providers::{
    ChainStep, ItunesProvider, MetadataProvider, MusicBrainzProvider, Provider, ProviderChain,
    SoundCloudProvider, TidalProvider, TidalToken, TokenStep,
};
use termsuite::musicman::rockbox::{
    audio_destination, cover_destination, cover_under, export_kind, is_audio_ext, is_image_ext, lower_extension, sanitize,
    ExportKind, ExportReport, ExportTags,
};
use termsuite::musicman::view::export_lines;

fn s(x: &str) -> Json {
    Json::String(x.to_string())
}

fn obj(members: Vec<(&str, Json)>) -> Json {
    Json::Object(members.into_iter().map(|(k, v)| (k.to_string(), v)).collect())
}

#[test]
fn sanitize_replaces_forbidden_and_trims() {
    assert_eq!(sanitize("  AC/DC: Live?  "), "AC_DC_ Live_");
    assert_eq!(sanitize("a\\b*c\"d<e>f|g"), "a_b_c_d_e_f_g");
    assert_eq!(sanitize("   "), "");
    let once = sanitize(" x/y ");
    assert_eq!(sanitize(&once), once);
}

#[test]
fn extension_families() {
    for e in ["mp3", "m4a", "aac", "flac", "wav", "ogg"] {
        assert!(is_audio_ext(e));
    }
    assert!(!is_audio_ext("MP3"));
    for e in ["jpg", "jpeg", "png", "bmp", "webp"] {
        assert!(is_image_ext(e));
    }
    assert!(!is_image_ext("gif"));
}

#[test]
fn export_kind_by_extension_and_stem() {
    assert_eq!(export_kind("w/a/Song.MP3"), ExportKind::Audio);
    assert_eq!(lower_extension("w/a/Song.MP3"), "mp3");
    assert_eq!(export_kind("w/a/cover.JPG"), ExportKind::CoverArt);
    assert_eq!(export_kind("w/a/folder.png"), ExportKind::CoverArt);
    assert_eq!(export_kind("w/a/Cover.jpg"), ExportKind::Skip);
    assert_eq!(export_kind("w/a/back.jpg"), ExportKind::Skip);
    assert_eq!(export_kind("w/a/notes.txt"), ExportKind::Skip);
}

#[test]
fn audio_destination_uses_tags_or_defaults() {
    let tags = ExportTags {
        title: Some("Hey: You".to_string()),
        artist: Some("Pink/Floyd".to_string()),
        album: Some(" The Wall ".to_string()),
        track_number: Some(7),
    };
    assert_eq!(
        audio_destination("/ipod/Music", "/w/x.FLAC", &tags),
        "/ipod/Music/Pink_Floyd/The Wall/07 - Hey_ You.flac"
    );
    let none = ExportTags { title: None, artist: None, album: None, track_number: None };
    assert_eq!(
        audio_destination("/ipod/Music", "/w/track.mp3", &none),
        "/ipod/Music/Unknown Artist/Unknown Album/00 - track.mp3"
    );
    let big = ExportTags { track_number: Some(123), ..none };
    assert_eq!(
        audio_destination("/ipod/Music", "/w/t.mp3", &big),
        "/ipod/Music/Unknown Artist/Unknown Album/123 - t.mp3"
    );
}

#[test]
fn export_summary_counts() {
    let mut r = ExportReport::default();
    assert_eq!(r.summary(), "Exported: 0 tracks, 0 cover art files, 0 errors");
    r.exported.push("a".to_string());
    r.exported.push("b".to_string());
    r.errors.push("e".to_string());
    assert_eq!(r.summary(), "Exported: 2 tracks, 0 cover art files, 1 errors");
}

#[test]
fn query_from_file_name() {
    let q = query_from_path(&"/m/Daft Punk - One More Time.mp3".to_string());
    assert_eq!(q.artist.as_deref(), Some("Daft Punk"));
    assert_eq!(q.title.as_deref(), Some("One More Time"));
    assert!(q.album.is_none() && q.duration_secs.is_none());
    let q = query_from_path(&"/m/Just A Title.flac".to_string());
    assert_eq!(q.artist, None);
    assert_eq!(q.title.as_deref(), Some("Just A Title"));
    let q = query_from_path(&"/m/A - B - C.mp3".to_string());
    assert_eq!(q.artist.as_deref(), Some("A"));
    assert_eq!(q.title.as_deref(), Some("B - C"));
    let q = query_from_path(&"..".to_string());
    assert_eq!(q.title.as_deref(), Some(""));
}

#[test]
fn itunes_url_is_percent_encoded() {
    let p = ItunesProvider::new(500);
    let q = TrackQuery {
        title: Some("Héllo World".to_string()),
        artist: Some("AC/DC".to_string()),
        album: None,
        duration_secs: None,
    };
    assert_eq!(
        p.search_url(&q).unwrap(),
        "https://itunes.apple.com/search?term=H%C3%A9llo%20World%20AC%2FDC&entity=song&limit=1"
    );
    let none = TrackQuery { title: None, artist: None, album: None, duration_secs: None };
    assert_eq!(p.search_url(&none), None);
    assert_eq!(p.name(), "itunes");
}

#[test]
fn itunes_answer_is_read() {
    let p = ItunesProvider::new(0);
    let body = obj(vec![(
        "results",
        Json::Array(vec![obj(vec![
            ("trackName", s("Song")),
            ("artistName", s("Band")),
            ("collectionName", s("Record")),
            ("releaseDate", s("2019-03-01T00:00:00Z")),
            ("trackNumber", Json::Number(JsonNumber::PosInt(4))),
            ("primaryGenreName", s("Rock")),
            ("artworkUrl100", s("https://x/100x100bb.jpg")),
        ])]),
    )]);
    let m = p.metadata_from(&body).unwrap();
    assert_eq!(m.title.as_deref(), Some("Song"));
    assert_eq!(m.artist.as_deref(), Some("Band"));
    assert_eq!(m.album.as_deref(), Some("Record"));
    assert_eq!(m.year, Some(2019));
    assert_eq!(m.track_number, Some(4));
    assert_eq!(m.genre.as_deref(), Some("Rock"));
    assert_eq!(m.album_art_url.as_deref(), Some("https://x/600x600bb.jpg"));
    assert!(p.metadata_from(&obj(vec![("results", Json::Array(vec![]))])).is_none());
    let bare = p.metadata_from(&obj(vec![("results", Json::Array(vec![obj(vec![])]))])).unwrap();
    assert_eq!(bare.album_art_url.as_deref(), Some(""));
    assert_eq!(bare.year, None);
}

#[test]
fn provider_names_and_configuration() {
    assert_eq!(MusicBrainzProvider::new("ua", 1100).name(), "musicbrainz");
    let sc = SoundCloudProvider::new("");
    assert_eq!(sc.name(), "soundcloud");
    assert!(!sc.is_configured());
    assert!(SoundCloudProvider::new("id").is_configured());
    let t = TidalProvider::new("id", "");
    assert_eq!(t.name(), "tidal");
    assert!(!t.is_configured());
    assert!(TidalProvider::new("id", "secret").is_configured());
}

fn chain() -> ProviderChain {
    ProviderChain::new(vec![
        Provider::MusicBrainz(MusicBrainzProvider::new("ua", 1100)),
        Provider::Itunes(ItunesProvider::new(500)),
        Provider::Tidal(TidalProvider::new("", "")),
    ])
}

#[test]
fn chain_keeps_the_first_answer() {
    let c = chain();
    assert_eq!(c.start(), ChainStep::Ask(0));
    assert_eq!(c.step(0, false), ChainStep::Ask(1));
    assert_eq!(c.step(1, true), ChainStep::Found(1));
    assert_eq!(c.step(2, false), ChainStep::Exhausted);
    let meta = TrackMetadata::default();
    let (name, _m) = c.answer(1, meta);
    assert_eq!(name, "itunes");
    assert_eq!(c.providers[0].name(), "musicbrainz");
    let empty = ProviderChain::new(vec![]);
    assert_eq!(empty.start(), ChainStep::Exhausted);
}

#[test]
fn selection_of_files_by_kind() {
    let entries = vec![
        FileEntry { path: "/a/1.MP3".to_string(), is_file: true },
        FileEntry { path: "/a/sub.flac".to_string(), is_file: false },
        FileEntry { path: "/a/2.flac".to_string(), is_file: true },
        FileEntry { path: "/a/3.wav".to_string(), is_file: true },
        FileEntry { path: "/a/cover.jpg".to_string(), is_file: true },
    ];
    assert_eq!(select_files(&entries, FileKind::Cleanable), vec!["/a/1.MP3", "/a/2.flac"]);
    assert_eq!(select_files(&entries, FileKind::Flac), vec!["/a/2.flac"]);
    assert_eq!(select_files(&entries, FileKind::Audio), vec!["/a/1.MP3", "/a/2.flac", "/a/3.wav"]);
}

fn full_tags() -> SongTags {
    SongTags {
        title: Some("T".to_string()),
        artist: Some("A".to_string()),
        album_title: Some("Al".to_string()),
        album_artist: Some("AA".to_string()),
        composer: Some("C".to_string()),
        genre: Some("G".to_string()),
        comment: Some("x".to_string()),
        track_number: Some(3),
        total_tracks: Some(10),
        disc_number: Some(1),
        total_discs: Some(2),
        year: Some(1999),
        has_cover: true,
    }
}

#[test]
fn cleaning_keeps_only_the_essentials() {
    let c = cleaned_tags(&full_tags());
    assert_eq!(c.title.as_deref(), Some("T"));
    assert_eq!(c.artist.as_deref(), Some("A"));
    assert_eq!(c.track_number, Some(3));
    assert_eq!(c.year, Some(1999));
    assert!(c.album_title.is_none() && c.album_artist.is_none() && c.composer.is_none());
    assert!(c.genre.is_none() && c.comment.is_none());
    assert!(c.total_tracks.is_none() && c.disc_number.is_none() && c.total_discs.is_none());
    assert!(!c.has_cover);
}

#[test]
fn metadata_overrides_only_what_it_has() {
    let meta = TrackMetadata {
        title: Some("New".to_string()),
        artist: None,
        album: Some("ignored".to_string()),
        album_artist: None,
        track_number: Some(65537),
        year: Some(2020),
        genre: None,
        album_art_url: None,
    };
    let t = with_metadata(full_tags(), &meta);
    assert_eq!(t.title.as_deref(), Some("New"));
    assert_eq!(t.artist.as_deref(), Some("A"));
    assert_eq!(t.track_number, Some(1));
    assert_eq!(t.year, Some(2020));
    assert_eq!(t.album_title.as_deref(), Some("Al"));
}

#[test]
fn cover_format_by_mime() {
    assert_eq!(cover_mime("image/png"), CoverMime::Png);
    assert_eq!(cover_mime("image/jpeg"), CoverMime::Jpeg);
    assert_eq!(cover_mime(""), CoverMime::Jpeg);
}

#[test]
fn date_order_numbers_oldest_first() {
    let plan = date_order_plan(vec![
        ("c.mp3".to_string(), 300),
        ("a.mp3".to_string(), -5),
        ("b.mp3".to_string(), 300),
        ("d.mp3".to_string(), 0),
    ]);
    assert_eq!(
        plan,
        vec![
            ("a.mp3".to_string(), 1),
            ("d.mp3".to_string(), 2),
            ("c.mp3".to_string(), 3),
            ("b.mp3".to_string(), 4),
        ]
    );
    assert!(date_order_plan(vec![]).is_empty());
}

#[test]
fn conversion_paths_and_arguments() {
    assert_eq!(m4a_output_path("/w/album/01.flac"), "/w/album/01.m4a");
    assert_eq!(m4a_output_path("/w/album/Track"), "/w/album/Track.m4a");
    assert_eq!(
        ffmpeg_args("in.flac", "256k", "in.m4a"),
        vec!["-i", "in.flac", "-c:a", "aac", "-b:a", "256k", "-movflags", "+faststart", "-vn", "in.m4a"]
    );
}

#[test]
fn configuration_defaults_and_paths() {
    let c = Config::default();
    assert_eq!(c.general.source_dir, "~/Music");
    assert_eq!(c.keybinds.quit, 'q');
    assert_eq!(c.conversion.bitrate, "320k");
    assert!(!c.conversion.enabled);
    assert_eq!(c.metadata.provider_order, vec!["musicbrainz", "itunes", "tidal", "soundcloud"]);
    assert_eq!(c.providers.musicbrainz.rate_limit_ms, 1100);
    let (loaded, save) = Config::load_or_default(None);
    assert!(save);
    assert_eq!(loaded.unwrap().export.art_format, "bmp");
    let (failed, save) = Config::load_or_default(Some(Err("bad toml".to_string())));
    assert!(!save);
    assert_eq!(failed.err().unwrap(), "bad toml");
    assert_eq!(config_path_in("/home/me/.config"), "/home/me/.config/musicman/config.toml");
    assert_eq!(resolve_tilde_in("~/Music", Some("/home/me")), "/home/me/Music");
    assert_eq!(resolve_tilde_in("~/Music", None), "~/Music");
    assert_eq!(resolve_tilde_in("/abs/Music", Some("/home/me")), "/abs/Music");
}

#[test]
fn export_popup_text() {
    let lines = export_lines(&Config::default());
    assert_eq!(lines[4], "Layout: Music/{artist}/{album}/{track_number} - {title}");
    assert_eq!(lines[5], "Art format: BMP");
    assert_eq!(lines.len(), 8);
}

#[test]
fn cover_art_keeps_its_folder() {
    assert_eq!(
        cover_destination("/ipod/Music", "/w", "/w/Artist/Album/cover.jpg"),
        "/ipod/Music/Artist/Album/cover.bmp"
    );
    assert_eq!(cover_destination("/ipod/Music", "/w", "/w/cover.png"), "/ipod/Music/cover.bmp");
    assert_eq!(cover_destination("/ipod/Music", "/w", "/other/a/cover.jpg"), "/ipod/Music/cover.bmp");
    assert_eq!(cover_under("/ipod/Music", ""), "/ipod/Music/cover.bmp");
    assert_eq!(cover_under("/ipod/Music", "x/y"), "/ipod/Music/x/y/cover.bmp");
}

#[test]
fn export_report_records_outcomes() {
    let mut r = ExportReport::default();
    r.record_audio("/w/a.mp3", Ok("/i/a.mp3".to_string()));
    r.record_audio("/w/b.mp3", Err("disk full".to_string()));
    r.record_art(Ok("/i/cover.bmp".to_string()));
    r.record_art(Err("unreadable".to_string()));
    assert_eq!(r.exported, vec!["/i/a.mp3"]);
    assert_eq!(r.errors, vec!["/w/b.mp3: disk full"]);
    assert_eq!(r.art_exported, vec!["/i/cover.bmp"]);
    assert_eq!(r.summary(), "Exported: 1 tracks, 1 cover art files, 1 errors");
}

#[test]
fn configuration_file_location() {
    assert!(termsuite::musicman::config::config_path().ends_with("/musicman/config.toml"));
}

#[test]
fn paths_for_given_directories() {
    assert_eq!(config_path_for(Some("/c")), "/c/musicman/config.toml");
    assert_eq!(config_path_for(None), "./musicman/config.toml");
    let mut c = Config::default();
    assert_eq!(c.resolve_working_dir_in(Some("/home/me")), "/home/me/musicman_working");
    assert_eq!(c.resolve_source_dir_in(None), "~/Music");
    c.general.working_copy_dir = "~".to_string();
    assert_eq!(c.resolve_working_dir_in(None), "~");
    c.general.working_copy_dir = "~é".to_string();
    assert_eq!(c.resolve_working_dir_in(None), "~é");
    assert_eq!(resolve_tilde_in("~", None), "~");
    assert_eq!(resolve_tilde_in("~", Some("/home/me")), "/home/me");
    assert_eq!(resolve_tilde_in("~/", Some("/home/me")), "/home/me/");
    c.general.source_dir = "~".to_string();
    assert_eq!(c.resolve_source_dir_in(Some("/home/me")), "/home/me");
}

#[test]
fn tidal_token_is_asked_for_once() {
    let p = TidalProvider::new("id", "secret");
    let mut session = TidalToken::new();
    assert!(matches!(session.step(), TokenStep::Request));
    let bad = session.grant(&p, &obj(vec![("error", s("nope"))]));
    assert_eq!(bad.err().unwrap(), "No access token in Tidal response");
    assert!(matches!(session.step(), TokenStep::Request));
    let ok = session.grant(&p, &obj(vec![("access_token", s("tok"))]));
    assert_eq!(ok.unwrap(), "tok");
    for _ in 0..3 {
        match session.step() {
            TokenStep::Reuse(t) => assert_eq!(t, "tok"),
            TokenStep::Request => panic!("the granted token is reused"),
        }
    }
}
