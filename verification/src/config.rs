use vstd::prelude::*;

use vstd::string::StringSliceAdditionalSpecFns;
use vstd::utf8::{decode_utf8, encode_utf8, valid_utf8};

use crate::text::{is_blank, is_blank_str};

verus! {

/// Where wallpapers come from.
#[derive(Clone, Copy, Debug, PartialEq, Eq, Structural)]
pub enum WallpaperProviderType {
    Reddit,
    Unsplash,
    EarthView,
    Bing,
    Wallhaven,
}

impl Default for WallpaperProviderType {
    fn default() -> (r: Self)
        ensures
            r == WallpaperProviderType::Reddit,
    {
        WallpaperProviderType::Reddit
    }
}

/// Where quotes come from.
#[derive(Clone, Copy, Debug, PartialEq, Eq, Structural)]
pub enum QuoteProviderType {
    ZenQuotes,
    LocalFile,
}

impl Default for QuoteProviderType {
    fn default() -> (r: Self)
        ensures
            r == QuoteProviderType::ZenQuotes,
    {
        QuoteProviderType::ZenQuotes
    }
}

/// A rule of the configuration that a value breaks.
#[derive(Clone, Copy, Debug, PartialEq, Eq, Structural)]
pub enum ConfigError {
    WallpaperIntervalZero,
    QuoteIntervalZero,
    SubredditEmpty,
    UnsplashKeyMissing,
    QuoteLocalPathMissing,
}

/// The text that tells the user which rule a configuration breaks.
pub open spec fn config_error_text(e: ConfigError) -> Seq<char> {
    match e {
        ConfigError::WallpaperIntervalZero => "wallpaper_interval_mins must be greater than 0"@,
        ConfigError::QuoteIntervalZero => "quote_interval_mins must be greater than 0"@,
        ConfigError::SubredditEmpty => "subreddit cannot be empty when provider_type=reddit"@,
        ConfigError::UnsplashKeyMissing => "unsplash_access_key is required when provider_type=unsplash"@,
        ConfigError::QuoteLocalPathMissing => "quote_local_path is required when quote_provider_type=localfile"@,
    }
}

impl ConfigError {
    /// The message of this error.
    pub fn message(&self) -> (m: String)
        ensures
            m@ == config_error_text(*self),
    {
        match self {
            ConfigError::WallpaperIntervalZero => "wallpaper_interval_mins must be greater than 0".to_owned(),
            ConfigError::QuoteIntervalZero => "quote_interval_mins must be greater than 0".to_owned(),
            ConfigError::SubredditEmpty => "subreddit cannot be empty when provider_type=reddit".to_owned(),
            ConfigError::UnsplashKeyMissing => "unsplash_access_key is required when provider_type=unsplash".to_owned(),
            ConfigError::QuoteLocalPathMissing => "quote_local_path is required when quote_provider_type=localfile".to_owned(),
        }
    }
}

/// An optional text setting that is absent or blank.
pub open spec fn missing_or_blank(v: Option<String>) -> bool {
    match v {
        Some(s) => is_blank(s@),
        None => true,
    }
}

fn is_missing_or_blank(v: &Option<String>) -> (b: bool)
    ensures
        b == missing_or_blank(*v),
{
    match v {
        Some(s) => is_blank_str(s.as_str()),
        None => true,
    }
}

/// The text of a path, as `to_string_lossy` gives it, holds only white space. A byte that
/// is not valid UTF-8 turns into U+FFFD there, which is no white space; so this is the case
/// exactly when the bytes are valid UTF-8 and their characters are all white space.
pub open spec fn path_is_blank(p: Seq<u8>) -> bool {
    valid_utf8(p) && is_blank(decode_utf8(p))
}

/// An optional path that is absent or blank.
pub open spec fn path_missing_or_blank(v: Option<Vec<u8>>) -> bool {
    match v {
        Some(p) => path_is_blank(p@),
        None => true,
    }
}

/// `std::str::from_utf8`: the text that `bytes` encode, or `None` when they are no valid
/// UTF-8. Its documentation: `Ok` exactly for valid UTF-8, holding the same bytes.
#[verifier::external_body]
fn utf8_text(bytes: &[u8]) -> (r: Option<&str>)
    ensures
        r is Some <==> valid_utf8(bytes@),
        r matches Some(s) ==> s.spec_bytes() == bytes@,
{
    std::str::from_utf8(bytes).ok()
}

/// Whether the path `p`, as text, holds only white space (`p.to_string_lossy().trim().is_empty()`).
pub fn is_path_blank(p: &[u8]) -> (b: bool)
    ensures
        b == path_is_blank(p@),
{
    match utf8_text(p) {
        Some(s) => {
            proof {
                vstd::utf8::encode_utf8_decode_utf8(s@);
            }
            is_blank_str(s)
        },
        None => false,
    }
}

fn is_path_missing_or_blank(v: &Option<Vec<u8>>) -> (b: bool)
    ensures
        b == path_missing_or_blank(*v),
{
    match v {
        Some(p) => is_path_blank(p.as_slice()),
        None => true,
    }
}

/// The settings of the application (`~/.config/vibe/config.toml`).
#[derive(Clone, Debug)]
pub struct AppConfig {
    pub wallpaper_interval_mins: u32,
    pub quote_interval_mins: u32,
    pub subreddit: String,
    pub provider_type: WallpaperProviderType,
    pub unsplash_access_key: Option<String>,
    pub unsplash_query: Option<String>,
    pub quote_provider_type: QuoteProviderType,
    /// The local quote file, as the bytes of its path.
    pub quote_local_path: Option<Vec<u8>>,
    pub is_paused: bool,
}

impl AppConfig {
    /// The configuration that applies when none is given.
    pub open spec fn is_default(&self) -> bool {
        &&& self.wallpaper_interval_mins == 60
        &&& self.quote_interval_mins == 60
        &&& self.subreddit@ == "EarthPorn"@
        &&& self.provider_type == WallpaperProviderType::Reddit
        &&& self.unsplash_access_key is None
        &&& self.unsplash_query matches Some(q) && q@ == "nature,wallpapers"@
        &&& self.quote_provider_type == QuoteProviderType::ZenQuotes
        &&& self.quote_local_path is None
        &&& !self.is_paused
    }

    /// The first rule that this configuration breaks, or `Ok` when it keeps them all.
    pub open spec fn spec_validate(&self) -> Result<(), ConfigError> {
        if self.wallpaper_interval_mins == 0 {
            Err(ConfigError::WallpaperIntervalZero)
        } else if self.quote_interval_mins == 0 {
            Err(ConfigError::QuoteIntervalZero)
        } else if self.provider_type == WallpaperProviderType::Reddit && is_blank(self.subreddit@) {
            Err(ConfigError::SubredditEmpty)
        } else if self.provider_type == WallpaperProviderType::Unsplash && missing_or_blank(
            self.unsplash_access_key,
        ) {
            Err(ConfigError::UnsplashKeyMissing)
        } else if self.quote_provider_type == QuoteProviderType::LocalFile && path_missing_or_blank(
            self.quote_local_path,
        ) {
            Err(ConfigError::QuoteLocalPathMissing)
        } else {
            Ok(())
        }
    }

    /// Checks the rules of the configuration, in order: both intervals positive, a subreddit
    /// for Reddit, an access key for Unsplash and a quote file for local quotes.
    pub fn validate(&self) -> (r: Result<(), ConfigError>)
        ensures
            r == self.spec_validate(),
    {
        if self.wallpaper_interval_mins == 0 {
            return Err(ConfigError::WallpaperIntervalZero);
        }
        if self.quote_interval_mins == 0 {
            return Err(ConfigError::QuoteIntervalZero);
        }
        if self.provider_type == WallpaperProviderType::Reddit && is_blank_str(
            self.subreddit.as_str(),
        ) {
            return Err(ConfigError::SubredditEmpty);
        }
        if self.provider_type == WallpaperProviderType::Unsplash && is_missing_or_blank(
            &self.unsplash_access_key,
        ) {
            return Err(ConfigError::UnsplashKeyMissing);
        }
        if self.quote_provider_type == QuoteProviderType::LocalFile && is_path_missing_or_blank(
            &self.quote_local_path,
        ) {
            return Err(ConfigError::QuoteLocalPathMissing);
        }
        Ok(())
    }

    /// The configuration that was read, or the default one when reading or parsing failed.
    pub fn load(loaded: Result<AppConfig, String>) -> (c: AppConfig)
        ensures
            match loaded {
                Ok(l) => c == l,
                Err(_) => c.is_default(),
            },
    {
        match loaded {
            Ok(config) => config,
            Err(_) => AppConfig::default(),
        }
    }
}

/// The byte of the path separator `'/'`.
pub const SLASH: u8 = 0x2f;

/// `dir` joined with `name` as `Path::join` does on Unix, on the bytes of the paths: an
/// absolute `name` replaces `dir`, and a `'/'` goes between them unless `dir` is empty or
/// already ends with one.
pub open spec fn path_join(dir: Seq<u8>, name: Seq<u8>) -> Seq<u8> {
    if name.len() > 0 && name[0] == SLASH {
        name
    } else if dir.len() == 0 || dir.last() == SLASH {
        dir + name
    } else {
        dir + seq![SLASH] + name
    }
}

/// `dir` joined with `name` (`Path::new(dir).join(name)`), on the bytes of the paths.
pub fn join_path(dir: &[u8], name: &[u8]) -> (p: Vec<u8>)
    ensures
        p@ == path_join(dir@, name@),
{
    let mut out: Vec<u8> = Vec::new();
    if !(name.len() > 0 && name[0] == SLASH) {
        let mut i: usize = 0;
        while i < dir.len()
            invariant
                i <= dir@.len(),
                out@ == dir@.subrange(0, i as int),
            decreases dir.len() - i,
        {
            out.push(dir[i]);
            assert(dir@.subrange(0, i + 1) == dir@.subrange(0, i as int).push(dir@[i as int]));
            i = i + 1;
        }
        assert(dir@.subrange(0, dir@.len() as int) == dir@);
        if dir.len() > 0 && dir[dir.len() - 1] != SLASH {
            out.push(SLASH);
        }
    }
    let ghost prefix = out@;
    let mut j: usize = 0;
    while j < name.len()
        invariant
            j <= name@.len(),
            out@ == prefix + name@.subrange(0, j as int),
        decreases name.len() - j,
    {
        out.push(name[j]);
        assert(name@.subrange(0, j + 1) == name@.subrange(0, j as int).push(name@[j as int]));
        j = j + 1;
    }
    assert(name@.subrange(0, name@.len() as int) == name@);
    out
}

/// The name of the configuration file inside the configuration directory, as bytes.
pub open spec fn config_file_name() -> Seq<u8> {
    encode_utf8("config.toml"@)
}

/// An application name that `directories` takes as it is: not empty, and made of ASCII
/// lower-case letters, digits, `-`, `_` and `.`, so that trimming, splitting at white space
/// and lower-casing leave it unchanged.
pub open spec fn plain_app_name(name: Seq<char>) -> bool {
    name.len() > 0 && forall|i: int| 0 <= i < name.len() ==> {
        let c = #[trigger] name[i];
        ('a' <= c <= 'z') || ('0' <= c <= '9') || c == '-' || c == '_' || c == '.'
    }
}

/// The name of the application, which `config_dir` hands to `directories`.
pub open spec fn app_name() -> Seq<char> {
    "vibe"@
}

/// The configuration directory that `directories::ProjectDirs::from(qualifier, organization,
/// application)` gives, by its `config_dir()`, as the bytes of the path.
///
/// On Linux the source builds it as a base directory (`$XDG_CONFIG_HOME` when that is
/// absolute, else `$HOME/.config`) joined with the application name, trimmed, with its white
/// space removed and lower-cased; for a plain name that is the name itself. Which base comes
/// back depends on the environment and is not stated, nor when a home directory is found
/// (`None` otherwise).
#[verifier::external_body]
fn project_config_dir(qualifier: &str, organization: &str, application: &str) -> (r: Option<Vec<u8>>)
    requires
        plain_app_name(application@),
    ensures
        r matches Some(d) ==> exists|base: Seq<u8>|
            d@ == path_join(base, encode_utf8(application@)),
{
    let dirs = directories::ProjectDirs::from(qualifier, organization, application)?;
    Some(dirs.config_dir().as_os_str().as_encoded_bytes().to_vec())
}

/// The directory of the configuration (on Linux `$XDG_CONFIG_HOME/vibe` or
/// `$HOME/.config/vibe`), as the bytes of the path; `None` when no home directory can be
/// found. The base directory depends on the environment: the contract states that the result
/// is some base joined with `vibe`.
pub fn config_dir() -> (r: Option<Vec<u8>>)
    ensures
        r matches Some(d) ==> exists|base: Seq<u8>|
            d@ == path_join(base, encode_utf8(app_name())),
{
    let app = "vibe";
    proof {
        reveal_strlit("vibe");
        assert(app@ == app_name());
    }
    project_config_dir("com", "vibe", app)
}

impl AppConfig {
    /// The path of the configuration file inside the directory `dir`, when there is one.
    pub fn config_path_in(dir: Option<Vec<u8>>) -> (p: Option<Vec<u8>>)
        ensures
            match dir {
                Some(d) => p matches Some(path) && path@ == path_join(d@, config_file_name()),
                None => p is None,
            },
    {
        match dir {
            Some(d) => Some(join_path(d.as_slice(), "config.toml".as_bytes())),
            None => None,
        }
    }

    /// The path of the configuration file: `config.toml` inside `config_dir()`.
    pub fn config_path() -> (p: Option<Vec<u8>>)
        ensures
            p matches Some(path) ==> exists|base: Seq<u8>|
                path@ == path_join(path_join(base, encode_utf8(app_name())), config_file_name()),
    {
        let dir = config_dir();
        let ghost seen = dir;
        let p = Self::config_path_in(dir);
        proof {
            if let Some(d) = seen {
                let base = choose|base: Seq<u8>| d@ == path_join(base, encode_utf8(app_name()));
                assert(p->0@ == path_join(path_join(base, encode_utf8(app_name())), config_file_name()));
            }
        }
        p
    }
}

/// A configuration is valid exactly when it keeps the five rules: both intervals positive,
/// a non-blank subreddit for Reddit, a non-blank access key for Unsplash, and a non-blank
/// quote file for local quotes. Nothing else counts: the Unsplash query, the pause state and
/// the settings of providers not chosen never make it invalid.
pub proof fn lemma_valid_exactly_when_rules_kept(c: AppConfig)
    ensures
        c.spec_validate() is Ok <==> {
            &&& c.wallpaper_interval_mins > 0
            &&& c.quote_interval_mins > 0
            &&& c.provider_type == WallpaperProviderType::Reddit ==> !is_blank(c.subreddit@)
            &&& c.provider_type == WallpaperProviderType::Unsplash ==> (c.unsplash_access_key
                matches Some(k) && !is_blank(k@))
            &&& c.quote_provider_type == QuoteProviderType::LocalFile ==> (c.quote_local_path
                matches Some(p) && !path_is_blank(p@))
        },
{
}

/// Each error names the first rule, in order, that the configuration breaks.
pub proof fn lemma_validate_error_is_first_broken_rule(c: AppConfig)
    ensures
        c.wallpaper_interval_mins == 0 ==> c.spec_validate() == Err::<(), ConfigError>(
            ConfigError::WallpaperIntervalZero,
        ),
        c.wallpaper_interval_mins > 0 && c.quote_interval_mins == 0 ==> c.spec_validate() == Err::<
            (),
            ConfigError,
        >(ConfigError::QuoteIntervalZero),
        c.spec_validate() == Err::<(), ConfigError>(ConfigError::UnsplashKeyMissing) ==> {
            &&& c.provider_type == WallpaperProviderType::Unsplash
            &&& !(c.unsplash_access_key matches Some(k) && !is_blank(k@))
        },
        c.spec_validate() == Err::<(), ConfigError>(ConfigError::SubredditEmpty) ==> {
            &&& c.provider_type == WallpaperProviderType::Reddit
            &&& is_blank(c.subreddit@)
        },
        c.spec_validate() == Err::<(), ConfigError>(ConfigError::QuoteLocalPathMissing) ==> {
            &&& c.quote_provider_type == QuoteProviderType::LocalFile
            &&& !(c.quote_local_path matches Some(p) && !path_is_blank(p@))
        },
{
}

/// The default configuration keeps every rule.
pub proof fn lemma_default_config_is_valid(c: AppConfig)
    requires
        c.is_default(),
    ensures
        c.spec_validate() == Ok::<(), ConfigError>(()),
{
    reveal_strlit("EarthPorn");
    assert(c.subreddit@[0] == 'E');
    assert(!is_blank(c.subreddit@)) by {
        assert(!crate::text::is_whitespace(c.subreddit@[0]));
    }
}

impl Default for AppConfig {
    fn default() -> (c: Self)
        ensures
            c.is_default(),
    {
        AppConfig {
            wallpaper_interval_mins: 60,
            quote_interval_mins: 60,
            subreddit: "EarthPorn".to_owned(),
            provider_type: WallpaperProviderType::Reddit,
            unsplash_access_key: None,
            unsplash_query: Some("nature,wallpapers".to_owned()),
            quote_provider_type: QuoteProviderType::ZenQuotes,
            quote_local_path: None,
            is_paused: false,
        }
    }
}

} // verus!
