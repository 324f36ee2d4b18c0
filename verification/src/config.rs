//! Server configuration from the values of its environment variables.

use vstd::prelude::*;
use crate::paths::{chars_skip, join_path, spec_is_absolute, spec_join};
use crate::settings::value_or;
use crate::text::{
    chars_of, parse_in_range, parse_integer_text, spec_trim, starts_with_chars,
    string_from_chars, trim_chars, CharClass,
};

verus! {

/// Port used when `PORT` is unset or unreadable.
pub const DEFAULT_PORT: u16 = 3000;

/// Credits per song when `COST_PER_SONG` is unset or unreadable.
pub const DEFAULT_COST_PER_SONG: i64 = 100;

/// The server configuration.
pub struct Config {
    pub database_url: String,
    pub port: u16,
    pub cost_per_song: i64,
    pub media_root: String,
    pub yt_dlp_path: String,
    /// PIN of the maintainer panel; without one the admin endpoints ask for no session.
    pub admin_pin: Option<String>,
}

/// The values of the environment variables that the configuration reads; `None`
/// for one that is unset (or not valid Unicode).
pub struct ConfigVars {
    pub database_url: Option<String>,
    pub port: Option<String>,
    pub cost_per_song: Option<String>,
    pub media_root: Option<String>,
    pub yt_dlp_path: Option<String>,
    pub admin_pin: Option<String>,
}

/// Why no configuration could be made.
#[derive(Clone, Copy, Debug, PartialEq, Eq, Structural)]
pub enum ConfigError {
    /// A relative path had to be resolved and the working directory was unknown.
    NoCurrentDir,
}

/// The `sqlite:` scheme.
pub open spec fn sqlite_scheme() -> Seq<char> {
    "sqlite:"@
}

/// The database URL with a relative `sqlite:` path resolved against `cwd`.
pub open spec fn resolved_database_url(url: Seq<char>, cwd: Seq<char>) -> Seq<char> {
    let n = sqlite_scheme().len();
    if n <= url.len() && url.take(n as int) == sqlite_scheme() && !spec_is_absolute(url.skip(n as int)) {
        sqlite_scheme() + spec_join(cwd, url.skip(n as int))
    } else {
        url
    }
}

/// Whether resolving the database URL needs the working directory.
pub open spec fn database_url_needs_cwd(url: Seq<char>) -> bool {
    let n = sqlite_scheme().len();
    n <= url.len() && url.take(n as int) == sqlite_scheme() && !spec_is_absolute(url.skip(n as int))
}

/// The media root resolved against `cwd` when relative.
pub open spec fn resolved_media_root(root: Seq<char>, cwd: Seq<char>) -> Seq<char> {
    if spec_is_absolute(root) {
        root
    } else {
        spec_join(cwd, root)
    }
}

/// The port read from its variable: 3000 when unset or not a `u16`.
pub open spec fn port_of(v: Option<Seq<char>>) -> u16 {
    match parse_in_range(value_or(v, "3000"@), false, 0, 65535) {
        Some(p) => p as u16,
        None => DEFAULT_PORT,
    }
}

/// The cost per song read from its variable: 100 when unset or not an `i64`.
pub open spec fn cost_of(v: Option<Seq<char>>) -> i64 {
    match parse_in_range(value_or(v, "100"@), true, i64::MIN as int, i64::MAX as int) {
        Some(c) => c as i64,
        None => DEFAULT_COST_PER_SONG,
    }
}

/// The admin PIN: kept only when something but whitespace is in it.
pub open spec fn pin_of(v: Option<Seq<char>>) -> Option<Seq<char>> {
    match v {
        Some(p) => if spec_trim(p).len() > 0 {
            Some(p)
        } else {
            None
        },
        None => None,
    }
}

/// The characters of an optional string.
pub open spec fn opt_chars(v: Option<String>) -> Option<Seq<char>> {
    match v {
        Some(s) => Some(s@),
        None => None,
    }
}

/// Whether the configuration made from `vars` needs the working directory.
pub open spec fn needs_cwd(vars: ConfigVars, default_database_url: Seq<char>) -> bool {
    database_url_needs_cwd(value_or(opt_chars(vars.database_url), default_database_url))
        || !spec_is_absolute(value_or(opt_chars(vars.media_root), "./rockola-media"@))
}

/// `c` is the configuration made from `vars` with working directory `cwd`.
pub open spec fn config_from(c: Config, vars: ConfigVars, default_database_url: Seq<char>, cwd: Seq<char>) -> bool {
    &&& c.database_url@ == resolved_database_url(value_or(opt_chars(vars.database_url), default_database_url), cwd)
    &&& c.port == port_of(opt_chars(vars.port))
    &&& c.cost_per_song == cost_of(opt_chars(vars.cost_per_song))
    &&& c.media_root@ == resolved_media_root(value_or(opt_chars(vars.media_root), "./rockola-media"@), cwd)
    &&& c.yt_dlp_path@ == value_or(opt_chars(vars.yt_dlp_path), "yt-dlp"@)
    &&& opt_chars(c.admin_pin) == pin_of(opt_chars(vars.admin_pin))
}

fn text_or(v: Option<String>, default: &str) -> (r: String)
    ensures
        r@ == value_or(opt_chars(v), default@),
{
    match v {
        Some(s) => s,
        None => String::from_str(default),
    }
}

impl Config {
    /// The configuration from the values of `DATABASE_URL`, `PORT`,
    /// `COST_PER_SONG`, `MEDIA_ROOT`, `YT_DLP_PATH` and `ADMIN_PIN`, with
    /// `default_database_url` for an unset `DATABASE_URL` and `cwd` the working
    /// directory, if it is known. Relative paths (a `sqlite:` one in the database
    /// URL, the media root) are resolved against `cwd`; without it that fails.
    pub fn from_vars(vars: ConfigVars, default_database_url: &str, cwd: Option<String>) -> (r: Result<Config, ConfigError>)
        ensures
            match r {
                Ok(c) => cwd matches Some(d) ==> config_from(c, vars, default_database_url@, d@),
                Err(e) => e == ConfigError::NoCurrentDir,
            },
            r is Ok ==> (needs_cwd(vars, default_database_url@) ==> cwd is Some),
            r is Ok <== (needs_cwd(vars, default_database_url@) ==> cwd is Some),
            cwd is None && !needs_cwd(vars, default_database_url@) ==> (r matches Ok(c) && config_from(c, vars, default_database_url@, Seq::empty())),
    {
        let ghost v = vars;
        let ConfigVars { database_url, port, cost_per_song, media_root, yt_dlp_path, admin_pin } = vars;
        let url = text_or(database_url, default_database_url);
        let url_chars = chars_of(url.as_str());
        let scheme = chars_of("sqlite:");
        proof {
            reveal_strlit("sqlite:");
        }
        let database_url = if starts_with_chars(&url_chars, &scheme) && !(url_chars.len() > 7 && url_chars[7] == '/') {
            let rest = chars_skip(&url_chars, 7);
            match &cwd {
                Some(d) => {
                    let joined = join_path(d.as_str(), string_from_chars(&rest).as_str());
                    String::from_str("sqlite:").concat(joined.as_str())
                },
                None => {
                    return Err(ConfigError::NoCurrentDir);
                },
            }
        } else {
            url
        };
        let port_text = text_or(port, "3000");
        let port_value: u16 = match parse_integer_text(port_text.as_str(), false, 0, 65535) {
            Some(p) => p as u16,
            None => DEFAULT_PORT,
        };
        let cost_text = text_or(cost_per_song, "100");
        let cost_value: i64 = match parse_integer_text(cost_text.as_str(), true, -0x8000_0000_0000_0000, 0x7FFF_FFFF_FFFF_FFFF) {
            Some(c) => c as i64,
            None => DEFAULT_COST_PER_SONG,
        };
        let root = text_or(media_root, "./rockola-media");
        let root_chars = chars_of(root.as_str());
        let media_root = if root_chars.len() > 0 && root_chars[0] == '/' {
            root
        } else {
            match &cwd {
                Some(d) => join_path(d.as_str(), root.as_str()),
                None => {
                    return Err(ConfigError::NoCurrentDir);
                },
            }
        };
        let yt_dlp_path = text_or(yt_dlp_path, "yt-dlp");
        let admin_pin = match admin_pin {
            Some(p) => {
                let t = trim_chars(&chars_of(p.as_str()), CharClass::Whitespace);
                if t.len() > 0 {
                    Some(p)
                } else {
                    None
                }
            },
            None => None,
        };
        Ok(Config { database_url, port: port_value, cost_per_song: cost_value, media_root, yt_dlp_path, admin_pin })
    }
}


proof fn lemma_join_absolute(dir: Seq<char>, name: Seq<char>)
    requires
        spec_is_absolute(dir),
    ensures
        spec_is_absolute(spec_join(dir, name)),
{
    if !spec_is_absolute(name) {
        if dir.last() != '/' {
            assert((dir + seq!['/'] + name)[0] == dir[0]);
        } else {
            assert((dir + name)[0] == dir[0]);
        }
    }
}

/// Relative paths become absolute: with an absolute working directory the media
/// root is absolute, and a `sqlite:` database URL names an absolute file.
pub proof fn law_resolved_paths_are_absolute(url: Seq<char>, root: Seq<char>, cwd: Seq<char>)
    requires
        spec_is_absolute(cwd),
    ensures
        spec_is_absolute(resolved_media_root(root, cwd)),
        ({
            let n = sqlite_scheme().len() as int;
            let r = resolved_database_url(url, cwd);
            (n <= url.len() && url.take(n) == sqlite_scheme()) ==> (r.take(n) == sqlite_scheme()
                && spec_is_absolute(r.skip(n)))
        }),
{
    lemma_join_absolute(cwd, root);
    let n = sqlite_scheme().len() as int;
    if n <= url.len() && url.take(n) == sqlite_scheme() {
        let rest = url.skip(n);
        if !spec_is_absolute(rest) {
            lemma_join_absolute(cwd, rest);
            let r = sqlite_scheme() + spec_join(cwd, rest);
            assert(r.take(n) =~= sqlite_scheme());
            assert(r.skip(n) =~= spec_join(cwd, rest));
        }
    }
}

} // verus!
