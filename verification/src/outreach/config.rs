//! Configuration of the mail client and where it keeps its files.
use vstd::prelude::*;
use crate::env;
use crate::paths::{join, join_spec, or_current_dir};
use crate::text::{chars_of, owned, str_is};

verus! {

broadcast use vstd::string::group_string_axioms;

/// Application-wide configuration, loaded from ~/.config/outreach/config.toml
#[derive(Debug)]
pub struct Config {
    pub auth: AuthConfig,
}

#[derive(Debug)]
pub struct AuthConfig {
    /// Azure AD app client ID (public client, no secret needed)
    pub client_id: String,
    /// Tenant ID or "common" for multi-tenant
    pub tenant_id: String,
}

/// The client id of an unconfigured installation.
pub open spec fn placeholder_client_id() -> Seq<char> {
    "YOUR_CLIENT_ID"@
}

impl Default for AuthConfig {
    fn default() -> (r: Self)
        ensures
            r.client_id@ == placeholder_client_id(),
            r.tenant_id@ == "common"@,
    {
        // Placeholder — users must register their own Azure app
        AuthConfig { client_id: owned("YOUR_CLIENT_ID"), tenant_id: owned("common") }
    }
}

impl Default for Config {
    fn default() -> (r: Self)
        ensures
            r.auth.client_id@ == placeholder_client_id(),
            r.auth.tenant_id@ == "common"@,
    {
        Config { auth: AuthConfig::default() }
    }
}

impl AuthConfig {
    /// Whether the client id is still the placeholder, so that an Azure app
    /// must be registered first.
    pub fn needs_client_id(&self) -> (r: bool)
        ensures
            r == (self.client_id@ == placeholder_client_id()),
    {
        str_is(chars_of(self.client_id.as_str()).as_slice(), "YOUR_CLIENT_ID")
    }
}

/// The application's directory under a configuration directory.
pub open spec fn app_dir_spec(config_dir: Seq<char>) -> Seq<char> {
    join_spec(config_dir, "outreach"@)
}

/// The application's directory under `config_dir`.
pub fn app_dir_in(config_dir: &str) -> (r: String)
    ensures
        r@ == app_dir_spec(config_dir@),
{
    join(config_dir, "outreach")
}

impl Config {
    /// The configuration to run with, given what the configuration file
    /// held: `None` when there is no file (the defaults are used), else
    /// what reading and parsing it gave.
    pub fn load(stored: Option<Result<Config, String>>) -> (r: Result<Config, String>)
        ensures
            match stored {
                Some(res) => r == res,
                None => r matches Ok(c) && c.auth.client_id@ == placeholder_client_id()
                    && c.auth.tenant_id@ == "common"@,
            },
    {
        match stored {
            Some(res) => res,
            None => Ok(Config::default()),
        }
    }

    /// The application's directory under the given configuration directory,
    /// or under `.` when there is none.
    pub fn config_dir_for(config_dir: Option<&str>) -> (r: String)
        ensures
            r@ == app_dir_spec(or_current_dir(opt_str(config_dir))),
    {
        match config_dir {
            Some(d) => app_dir_in(d),
            None => {
                proof {
                    reveal_strlit(".");
                }
                app_dir_in(".")
            },
        }
    }

    /// The configuration file for the given configuration directory.
    pub fn config_path_for(config_dir: Option<&str>) -> (r: String)
        ensures
            r@ == app_file_spec(opt_str(config_dir), "config.toml"@),
    {
        let d = Self::config_dir_for(config_dir);
        join(d.as_str(), "config.toml")
    }

    /// The token file for the given configuration directory.
    pub fn token_path_for(config_dir: Option<&str>) -> (r: String)
        ensures
            r@ == app_file_spec(opt_str(config_dir), "token.json"@),
    {
        let d = Self::config_dir_for(config_dir);
        join(d.as_str(), "token.json")
    }

    /// The mail cache for the given configuration directory.
    pub fn db_path_for(config_dir: Option<&str>) -> (r: String)
        ensures
            r@ == app_file_spec(opt_str(config_dir), "outreach.db"@),
    {
        let d = Self::config_dir_for(config_dir);
        join(d.as_str(), "outreach.db")
    }

    /// The application's directory under the user's configuration directory
    /// (as `dirs::config_dir` reports it), or under `.` when there is none.
    pub fn config_dir() -> (r: String)
        ensures
            exists|d: Option<Seq<char>>| r@ == app_dir_spec(or_current_dir(d)),
    {
        let d = env::config_dir();
        let r = Self::config_dir_for(as_opt_str(&d));
        proof {
            assert(r@ == app_dir_spec(or_current_dir(opt_string(d))));
        }
        r
    }

    pub fn config_path() -> (r: String)
        ensures
            exists|d: Option<Seq<char>>| r@ == app_file_spec(d, "config.toml"@),
    {
        let d = env::config_dir();
        let r = Self::config_path_for(as_opt_str(&d));
        proof {
            assert(r@ == app_file_spec(opt_string(d), "config.toml"@));
        }
        r
    }

    pub fn token_path() -> (r: String)
        ensures
            exists|d: Option<Seq<char>>| r@ == app_file_spec(d, "token.json"@),
    {
        let d = env::config_dir();
        let r = Self::token_path_for(as_opt_str(&d));
        proof {
            assert(r@ == app_file_spec(opt_string(d), "token.json"@));
        }
        r
    }

    pub fn db_path() -> (r: String)
        ensures
            exists|d: Option<Seq<char>>| r@ == app_file_spec(d, "outreach.db"@),
    {
        let d = env::config_dir();
        let r = Self::db_path_for(as_opt_str(&d));
        proof {
            assert(r@ == app_file_spec(opt_string(d), "outreach.db"@));
        }
        r
    }
}

/// The view of an optional string slice.
pub open spec fn opt_str(o: Option<&str>) -> Option<Seq<char>> {
    match o {
        Some(s) => Some(s@),
        None => None,
    }
}

/// The view of an optional string.
pub open spec fn opt_string(o: Option<String>) -> Option<Seq<char>> {
    match o {
        Some(s) => Some(s@),
        None => None,
    }
}

fn as_opt_str(o: &Option<String>) -> (r: Option<&str>)
    ensures
        opt_str(r) == opt_string(*o),
{
    match o {
        Some(s) => Some(s.as_str()),
        None => None,
    }
}

/// A file of the application's directory, for the configuration directory
/// found (or `.` when there is none).
pub open spec fn app_file_spec(config_dir: Option<Seq<char>>, name: Seq<char>) -> Seq<char> {
    join_spec(app_dir_spec(or_current_dir(config_dir)), name)
}

/// For whatever configuration directory is found, the configuration, token
/// and cache files sit side by side in the application's directory, and
/// are three different files.
pub proof fn lemma_app_files(d: Option<Seq<char>>)
    ensures
        app_file_spec(d, "config.toml"@) == join_spec(app_dir_spec(or_current_dir(d)), "config.toml"@),
        app_file_spec(d, "token.json"@) == join_spec(app_dir_spec(or_current_dir(d)), "token.json"@),
        app_file_spec(d, "outreach.db"@) == join_spec(app_dir_spec(or_current_dir(d)), "outreach.db"@),
        app_file_spec(d, "config.toml"@) != app_file_spec(d, "token.json"@),
        app_file_spec(d, "config.toml"@) != app_file_spec(d, "outreach.db"@),
        app_file_spec(d, "token.json"@) != app_file_spec(d, "outreach.db"@),
{
    reveal_strlit("config.toml");
    reveal_strlit("token.json");
    reveal_strlit("outreach.db");
    reveal_strlit("outreach");
    let dir = app_dir_spec(or_current_dir(d));
    assert(dir.len() > 0);
    let c = app_file_spec(d, "config.toml"@);
    let t = app_file_spec(d, "token.json"@);
    let b = app_file_spec(d, "outreach.db"@);
    assert(c.len() == t.len() + 1);
    assert(b.len() == t.len() + 1);
    assert(c[c.len() - 1] != b[b.len() - 1]);
}

} // verus!
