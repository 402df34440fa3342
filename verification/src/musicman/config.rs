//! Configuration of the music manager and the paths it resolves.
use vstd::prelude::*;
use crate::env;
use crate::paths::{join, join_spec, or_current_dir};
use crate::text::{chars_of, owned, string_of};

verus! {

broadcast use vstd::string::group_string_axioms;

#[derive(Debug, Clone)]
pub struct Config {
    pub general: GeneralConfig,
    pub keybinds: KeybindConfig,
    pub conversion: ConversionConfig,
    pub metadata: MetadataConfig,
    pub providers: ProvidersConfig,
    pub export: ExportConfig,
}

#[derive(Debug, Clone)]
pub struct GeneralConfig {
    pub working_copy_dir: String,
    pub source_dir: String,
}

#[derive(Debug, Clone, Copy)]
pub struct KeybindConfig {
    pub navigate_up: char,
    pub navigate_down: char,
    pub expand: char,
    pub collapse: char,
    pub quit: char,
}

#[derive(Debug, Clone)]
pub struct ConversionConfig {
    pub enabled: bool,
    pub format: String,
    pub bitrate: String,
}

#[derive(Debug, Clone)]
pub struct MetadataConfig {
    pub essentials: Vec<String>,
    pub provider_order: Vec<String>,
}

#[derive(Debug, Clone)]
pub struct ProvidersConfig {
    pub tidal: TidalConfig,
    pub soundcloud: SoundcloudConfig,
    pub musicbrainz: MusicBrainzConfig,
    pub itunes: ItunesConfig,
}

#[derive(Debug, Clone)]
pub struct TidalConfig {
    pub client_id: String,
    pub client_secret: String,
}

#[derive(Debug, Clone)]
pub struct SoundcloudConfig {
    pub client_id: String,
}

#[derive(Debug, Clone)]
pub struct MusicBrainzConfig {
    pub user_agent: String,
    pub rate_limit_ms: u64,
}

#[derive(Debug, Clone)]
pub struct ItunesConfig {
    pub rate_limit_ms: u64,
}

#[derive(Debug, Clone)]
pub struct ExportConfig {
    pub rockbox_layout: String,
    pub art_format: String,
}

/// The views of a list of strings.
pub open spec fn string_views(v: Seq<String>) -> Seq<Seq<char>> {
    v.map_values(|s: String| s@)
}

/// Every setting of the default configuration.
pub open spec fn is_default_config(c: Config) -> bool {
    &&& c.general.working_copy_dir@ == "~/musicman_working"@
    &&& c.general.source_dir@ == "~/Music"@
    &&& c.keybinds.navigate_up == 'k'
    &&& c.keybinds.navigate_down == 'j'
    &&& c.keybinds.expand == 'l'
    &&& c.keybinds.collapse == 'h'
    &&& c.keybinds.quit == 'q'
    &&& !c.conversion.enabled
    &&& c.conversion.format@ == "m4a"@
    &&& c.conversion.bitrate@ == "320k"@
    &&& string_views(c.metadata.essentials@) == seq![
        "title"@,
        "artist"@,
        "track_number"@,
        "year"@,
    ]
    &&& string_views(c.metadata.provider_order@) == seq![
        "musicbrainz"@,
        "itunes"@,
        "tidal"@,
        "soundcloud"@,
    ]
    &&& c.providers.tidal.client_id@ == Seq::<char>::empty()
    &&& c.providers.tidal.client_secret@ == Seq::<char>::empty()
    &&& c.providers.soundcloud.client_id@ == Seq::<char>::empty()
    &&& c.providers.musicbrainz.user_agent@ == "musicman/0.1.0 (user@example.com)"@
    &&& c.providers.musicbrainz.rate_limit_ms == 1100
    &&& c.providers.itunes.rate_limit_ms == 500
    &&& c.export.rockbox_layout@ == "Music/{artist}/{album}/{track_number} - {title}"@
    &&& c.export.art_format@ == "bmp"@
}

fn strings(a: &str, b: &str, c: &str, d: &str) -> (r: Vec<String>)
    ensures
        string_views(r@) == seq![a@, b@, c@, d@],
{
    let mut r: Vec<String> = Vec::new();
    r.push(owned(a));
    r.push(owned(b));
    r.push(owned(c));
    r.push(owned(d));
    assert(string_views(r@) =~= seq![a@, b@, c@, d@]);
    r
}

impl Default for Config {
    fn default() -> (r: Self)
        ensures
            is_default_config(r),
    {
        Config {
            general: GeneralConfig {
                working_copy_dir: owned("~/musicman_working"),
                source_dir: owned("~/Music"),
            },
            keybinds: KeybindConfig {
                navigate_up: 'k',
                navigate_down: 'j',
                expand: 'l',
                collapse: 'h',
                quit: 'q',
            },
            conversion: ConversionConfig {
                enabled: false,
                format: owned("m4a"),
                bitrate: owned("320k"),
            },
            metadata: MetadataConfig {
                essentials: strings("title", "artist", "track_number", "year"),
                provider_order: strings("musicbrainz", "itunes", "tidal", "soundcloud"),
            },
            providers: ProvidersConfig {
                tidal: TidalConfig { client_id: String::new(), client_secret: String::new() },
                soundcloud: SoundcloudConfig { client_id: String::new() },
                musicbrainz: MusicBrainzConfig {
                    user_agent: owned("musicman/0.1.0 (user@example.com)"),
                    rate_limit_ms: 1100,
                },
                itunes: ItunesConfig { rate_limit_ms: 500 },
            },
            export: ExportConfig {
                rockbox_layout: owned("Music/{artist}/{album}/{track_number} - {title}"),
                art_format: owned("bmp"),
            },
        }
    }
}

/// Whether `path` starts with `~`.
pub open spec fn starts_with_tilde(path: Seq<char>) -> bool {
    path.len() > 0 && path[0] == '~'
}

/// A path that can be resolved: a path `~` followed by more text is cut
/// past its first two bytes, so its second character must be ASCII.
pub open spec fn tilde_sliceable(path: Seq<char>) -> bool {
    (starts_with_tilde(path) && path.len() >= 2) ==> (path[1] as u32) < 128
}

/// `~` resolution: with a home directory, `~` alone becomes the home
/// directory, and a longer path starting with `~` becomes the home
/// directory joined with the path minus its first two characters; any
/// other path is kept.
pub open spec fn resolve_tilde_spec(path: Seq<char>, home: Option<Seq<char>>) -> Seq<char> {
    match home {
        Some(h) => if path == seq!['~'] {
            h
        } else if starts_with_tilde(path) {
            join_spec(h, path.skip(2))
        } else {
            path
        },
        None => path,
    }
}

/// Resolves a leading `~` against the given home directory (the path is
/// cut past its first two bytes only when there is a home directory, so
/// only then must that cut fall between characters).
pub fn resolve_tilde_in(path: &str, home: Option<&str>) -> (r: String)
    requires
        home is Some ==> tilde_sliceable(path@),
    ensures
        r@ == resolve_tilde_spec(
            path@,
            match home {
                Some(h) => Some(h@),
                None => None,
            },
        ),
{
    let cs = chars_of(path);
    if cs.len() > 0 && cs[0] == '~' {
        if let Some(h) = home {
            if cs.len() == 1 {
                assert(path@ =~= seq!['~']);
                return owned(h);
            }
            let mut rest: Vec<char> = Vec::new();
            for i in 2..cs.len()
                invariant
                    cs.len() >= 2,
                    rest@ == cs@.subrange(2, i as int),
            {
                rest.push(cs[i]);
                assert(cs@.subrange(2, i + 1) =~= cs@.subrange(2, i as int).push(cs@[i as int]));
            }
            assert(rest@ =~= path@.skip(2));
            let rest_s = string_of(rest.as_slice());
            return join(h, rest_s.as_str());
        }
    }
    string_of(cs.as_slice())
}

/// Resolves a leading `~` against the user's home directory, which is
/// whatever `dirs::home_dir` reports.
pub fn resolve_tilde(path: &str) -> (r: String)
    requires
        tilde_sliceable(path@),
    ensures
        exists|home: Option<Seq<char>>| r@ == resolve_tilde_spec(path@, home),
{
    let home = env::home_dir();
    let r = match &home {
        Some(h) => resolve_tilde_in(path, Some(h.as_str())),
        None => resolve_tilde_in(path, None),
    };
    proof {
        let hv: Option<Seq<char>> = match home {
            Some(h) => Some(h@),
            None => None,
        };
        assert(r@ == resolve_tilde_spec(path@, hv));
    }
    r
}

impl Config {
    /// The configuration to run with, given what the configuration file
    /// held: `None` when there is no file, else what reading and parsing it
    /// gave (the configuration or the error). Without a file the defaults
    /// are used, and the flag asks for them to be written out.
    pub fn load_or_default(stored: Option<Result<Config, String>>) -> (r: (
        Result<Config, String>,
        bool,
    ))
        ensures
            match stored {
                Some(res) => r.0 == res && !r.1,
                None => (r.0 matches Ok(c) && is_default_config(c)) && r.1,
            },
    {
        match stored {
            Some(res) => (res, false),
            None => (Ok(Config::default()), true),
        }
    }

    /// Resolve ~ in paths: the source directory resolved against the home
    /// directory that `dirs::home_dir` reports. Whether there is one depends
    /// on the environment, so the path must be one that resolves without a
    /// panic whether or not there is (see [`Config::resolve_source_dir_in`]
    /// for a given home directory).
    pub fn resolve_source_dir(&self) -> (r: String)
        requires
            tilde_sliceable(self.general.source_dir@),
        ensures
            exists|home: Option<Seq<char>>| r@ == resolve_tilde_spec(self.general.source_dir@, home),
    {
        resolve_tilde(self.general.source_dir.as_str())
    }

    pub fn resolve_working_dir(&self) -> (r: String)
        requires
            tilde_sliceable(self.general.working_copy_dir@),
        ensures
            exists|home: Option<Seq<char>>| r@ == resolve_tilde_spec(
                self.general.working_copy_dir@,
                home,
            ),
    {
        resolve_tilde(self.general.working_copy_dir.as_str())
    }

    /// The source directory resolved against the given home directory.
    pub fn resolve_source_dir_in(&self, home: Option<&str>) -> (r: String)
        requires
            home is Some ==> tilde_sliceable(self.general.source_dir@),
        ensures
            r@ == resolve_tilde_spec(
                self.general.source_dir@,
                match home {
                    Some(h) => Some(h@),
                    None => None,
                },
            ),
    {
        resolve_tilde_in(self.general.source_dir.as_str(), home)
    }

    /// The working copy resolved against the given home directory.
    pub fn resolve_working_dir_in(&self, home: Option<&str>) -> (r: String)
        requires
            home is Some ==> tilde_sliceable(self.general.working_copy_dir@),
        ensures
            r@ == resolve_tilde_spec(
                self.general.working_copy_dir@,
                match home {
                    Some(h) => Some(h@),
                    None => None,
                },
            ),
    {
        resolve_tilde_in(self.general.working_copy_dir.as_str(), home)
    }
}

/// The configuration file under the given configuration directory.
pub open spec fn config_path_spec(config_dir: Seq<char>) -> Seq<char> {
    join_spec(join_spec(config_dir, "musicman"@), "config.toml"@)
}

/// The configuration file under `config_dir`.
pub fn config_path_in(config_dir: &str) -> (r: String)
    ensures
        r@ == config_path_spec(config_dir@),
{
    let d = join(config_dir, "musicman");
    join(d.as_str(), "config.toml")
}

/// The configuration file under the given configuration directory, or
/// under `.` when there is none.
pub fn config_path_for(config_dir: Option<&str>) -> (r: String)
    ensures
        r@ == config_path_spec(
            or_current_dir(
                match config_dir {
                    Some(d) => Some(d@),
                    None => None,
                },
            ),
        ),
{
    match config_dir {
        Some(d) => config_path_in(d),
        None => {
            proof {
                reveal_strlit(".");
            }
            config_path_in(".")
        },
    }
}

/// The configuration file under the user's configuration directory (as
/// `dirs::config_dir` reports it), or under `.` when there is none.
pub fn config_path() -> (r: String)
    ensures
        exists|dir: Option<Seq<char>>| r@ == config_path_spec(or_current_dir(dir)),
{
    let d = env::config_dir();
    let r = match &d {
        Some(x) => config_path_for(Some(x.as_str())),
        None => config_path_for(None),
    };
    proof {
        let dv: Option<Seq<char>> = match d {
            Some(x) => Some(x@),
            None => None,
        };
        assert(r@ == config_path_spec(or_current_dir(dv)));
    }
    r
}

} // verus!
