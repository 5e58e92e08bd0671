//! The decisions of the background service: which providers a configuration asks for, what
//! the control interface does to the shared state, when a wallpaper cycle runs, and which
//! quote it shows.
use vstd::prelude::*;

use crate::config::{is_path_blank, missing_or_blank, path_is_blank, AppConfig, ConfigError, QuoteProviderType, WallpaperProviderType};
use crate::providers::quote::{LocalFileQuoteProvider, ZenQuotesProvider};
use crate::providers::wallpaper::{opt_view, EarthViewProvider, RedditProvider, UnsplashProvider};
use crate::scheduler::Scheduler;
use crate::text::{is_blank, is_blank_str, lemma_trim_empty_iff_blank, trim, trim_whitespace};

verus! {

/// Why the service cannot build the providers that a configuration asks for.
#[derive(Clone, Copy, Debug, PartialEq, Eq, Structural)]
pub enum SetupError {
    /// A setting that the chosen provider needs is missing.
    Config(ConfigError),
    /// The chosen wallpaper provider has no implementation.
    UnsupportedProvider(WallpaperProviderType),
    /// The path of the local quote file holds only white space.
    QuoteLocalPathEmpty,
}

/// The message of a setup error.
pub open spec fn setup_error_text(e: SetupError) -> Seq<char> {
    match e {
        SetupError::Config(c) => crate::config::config_error_text(c),
        SetupError::UnsupportedProvider(_) => "wallpaper provider is not supported"@,
        SetupError::QuoteLocalPathEmpty => "quote_local_path is empty"@,
    }
}

impl SetupError {
    /// The message of this error.
    pub fn message(&self) -> (m: String)
        ensures
            m@ == setup_error_text(*self),
    {
        match self {
            SetupError::Config(c) => c.message(),
            SetupError::UnsupportedProvider(_) => "wallpaper provider is not supported".to_owned(),
            SetupError::QuoteLocalPathEmpty => "quote_local_path is empty".to_owned(),
        }
    }
}

/// The wallpaper provider that a configuration asks for.
pub enum WallpaperSource {
    Reddit(RedditProvider),
    Unsplash(UnsplashProvider),
    EarthView(EarthViewProvider),
}

/// The quote provider that a configuration asks for.
pub enum QuoteSource {
    ZenQuotes(ZenQuotesProvider),
    LocalFile(LocalFileQuoteProvider),
}

/// An optional text, trimmed, or `None` when it is absent or blank.
pub open spec fn trimmed_non_blank(o: Option<String>) -> Option<Seq<char>> {
    match o {
        Some(s) => if is_blank(s@) {
            None
        } else {
            Some(trim(s@))
        },
        None => None,
    }
}

fn trim_non_blank(o: &Option<String>) -> (r: Option<String>)
    ensures
        opt_view(r) == trimmed_non_blank(*o),
{
    match o {
        Some(s) => {
            let t = trim_whitespace(s.as_str());
            proof {
                lemma_trim_empty_iff_blank(s@);
            }
            if t.as_str().is_empty() {
                None
            } else {
                Some(t)
            }
        },
        None => None,
    }
}

/// Why the wallpaper provider of `c` cannot be built, if it cannot.
pub open spec fn wallpaper_setup_error(c: AppConfig) -> Option<SetupError> {
    match c.provider_type {
        WallpaperProviderType::Reddit => if is_blank(c.subreddit@) {
            Some(SetupError::Config(ConfigError::SubredditEmpty))
        } else {
            None
        },
        WallpaperProviderType::Unsplash => if missing_or_blank(c.unsplash_access_key) {
            Some(SetupError::Config(ConfigError::UnsplashKeyMissing))
        } else {
            None
        },
        WallpaperProviderType::EarthView => None,
        _ => Some(SetupError::UnsupportedProvider(c.provider_type)),
    }
}

/// Why the quote provider of `c` cannot be built, if it cannot.
pub open spec fn quote_setup_error(c: AppConfig) -> Option<SetupError> {
    match c.quote_provider_type {
        QuoteProviderType::ZenQuotes => None,
        QuoteProviderType::LocalFile => match c.quote_local_path {
            Some(p) => if path_is_blank(p@) {
                Some(SetupError::QuoteLocalPathEmpty)
            } else {
                None
            },
            None => Some(SetupError::Config(ConfigError::QuoteLocalPathMissing)),
        },
    }
}

/// The wallpaper provider of `config`: Reddit for its trimmed subreddit, Unsplash for its
/// trimmed key and (non-blank, trimmed) query, or Earth View.
pub fn wallpaper_source(config: &AppConfig) -> (r: Result<WallpaperSource, SetupError>)
    ensures
        match wallpaper_setup_error(*config) {
            Some(e) => r == Err::<WallpaperSource, SetupError>(e),
            None => match r {
                Ok(WallpaperSource::Reddit(p)) => config.provider_type
                    == WallpaperProviderType::Reddit && p.subreddit@ == trim(config.subreddit@),
                Ok(WallpaperSource::Unsplash(p)) => config.provider_type
                    == WallpaperProviderType::Unsplash && opt_view(p.access_key)
                    == trimmed_non_blank(config.unsplash_access_key) && opt_view(p.query)
                    == trimmed_non_blank(config.unsplash_query),
                Ok(WallpaperSource::EarthView(_)) => config.provider_type
                    == WallpaperProviderType::EarthView,
                Err(_) => false,
            },
        },
{
    match config.provider_type {
        WallpaperProviderType::Reddit => {
            let subreddit = trim_whitespace(config.subreddit.as_str());
            proof {
                lemma_trim_empty_iff_blank(config.subreddit@);
            }
            if subreddit.as_str().is_empty() {
                return Err(SetupError::Config(ConfigError::SubredditEmpty));
            }
            Ok(WallpaperSource::Reddit(RedditProvider::new(subreddit.as_str())))
        },
        WallpaperProviderType::Unsplash => {
            let key = trim_non_blank(&config.unsplash_access_key);
            let key = match key {
                Some(k) => k,
                None => {
                    return Err(SetupError::Config(ConfigError::UnsplashKeyMissing));
                },
            };
            let query = trim_non_blank(&config.unsplash_query);
            Ok(WallpaperSource::Unsplash(UnsplashProvider::new(Some(key), query)))
        },
        WallpaperProviderType::EarthView => Ok(WallpaperSource::EarthView(EarthViewProvider::new())),
        other => Err(SetupError::UnsupportedProvider(other)),
    }
}

/// The quote provider of `config`: ZenQuotes, or the local file at its (non-blank) path.
pub fn quote_source(config: &AppConfig) -> (r: Result<QuoteSource, SetupError>)
    ensures
        match quote_setup_error(*config) {
            Some(e) => r == Err::<QuoteSource, SetupError>(e),
            None => match r {
                Ok(QuoteSource::ZenQuotes(_)) => config.quote_provider_type
                    == QuoteProviderType::ZenQuotes,
                Ok(QuoteSource::LocalFile(p)) => config.quote_provider_type
                    == QuoteProviderType::LocalFile && (config.quote_local_path matches Some(path)
                    && p.path@ == path@),
                Err(_) => false,
            },
        },
{
    match config.quote_provider_type {
        QuoteProviderType::ZenQuotes => Ok(QuoteSource::ZenQuotes(ZenQuotesProvider)),
        QuoteProviderType::LocalFile => match &config.quote_local_path {
            Some(path) => {
                if is_path_blank(path.as_slice()) {
                    return Err(SetupError::QuoteLocalPathEmpty);
                }
                let owned = vstd::slice::slice_to_vec(path.as_slice());
                Ok(QuoteSource::LocalFile(LocalFileQuoteProvider::new(owned)))
            },
            None => Err(SetupError::Config(ConfigError::QuoteLocalPathMissing)),
        },
    }
}


/// A request to the wallpaper loop, sent by the control interface.
#[derive(Clone, Copy, Debug, PartialEq, Eq, Structural)]
pub enum DaemonCommand {
    Next,
    Pause,
    Resume,
    ReloadConfig,
}

/// What the control interface shares with the wallpaper loop: whether rotation is paused,
/// and the configuration in force.
pub struct DaemonControl {
    pub paused: bool,
    pub config: AppConfig,
}

/// The text that `status` answers.
pub open spec fn status_text(paused: bool) -> Seq<char> {
    if paused {
        "Paused"@
    } else {
        "Running"@
    }
}

impl DaemonControl {
    /// The shared state at start: paused as the configuration says.
    pub fn new(config: AppConfig) -> (d: Self)
        ensures
            d.config == config,
            d.paused == config.is_paused,
    {
        let paused = config.is_paused;
        DaemonControl { paused, config }
    }

    /// Pauses rotation, also in the configuration (which the caller then saves).
    pub fn pause(&mut self) -> (c: DaemonCommand)
        ensures
            final(self).paused,
            final(self).config == (AppConfig { is_paused: true, ..old(self).config }),
            c == DaemonCommand::Pause,
    {
        self.paused = true;
        self.config.is_paused = true;
        DaemonCommand::Pause
    }

    /// Resumes rotation, also in the configuration (which the caller then saves).
    pub fn resume(&mut self) -> (c: DaemonCommand)
        ensures
            !final(self).paused,
            final(self).config == (AppConfig { is_paused: false, ..old(self).config }),
            c == DaemonCommand::Resume,
    {
        self.paused = false;
        self.config.is_paused = false;
        DaemonCommand::Resume
    }

    /// Puts a configuration read anew in force, with its pause setting, when it is valid;
    /// an invalid one changes nothing.
    pub fn reload(&mut self, loaded: AppConfig) -> (r: Result<DaemonCommand, ConfigError>)
        ensures
            match loaded.spec_validate() {
                Ok(()) => {
                    &&& r == Ok::<DaemonCommand, ConfigError>(DaemonCommand::ReloadConfig)
                    &&& final(self).config == loaded
                    &&& final(self).paused == loaded.is_paused
                },
                Err(e) => {
                    &&& r == Err::<DaemonCommand, ConfigError>(e)
                    &&& final(self).config == old(self).config
                    &&& final(self).paused == old(self).paused
                },
            },
    {
        match loaded.validate() {
            Ok(()) => {
                let paused = loaded.is_paused;
                self.config = loaded;
                self.paused = paused;
                Ok(DaemonCommand::ReloadConfig)
            },
            Err(e) => Err(e),
        }
    }

    /// `"Paused"` or `"Running"`.
    pub fn status(&self) -> (s: String)
        ensures
            s@ == status_text(self.paused),
    {
        if self.paused {
            "Paused".to_owned()
        } else {
            "Running".to_owned()
        }
    }
}

/// The configuration the service starts with: the one read when it is valid, else the
/// default one. The flag says whether the default replaced it (and should be saved).
pub fn startup_config(loaded: AppConfig) -> (r: (AppConfig, bool))
    ensures
        loaded.spec_validate() is Ok ==> r.0 == loaded && !r.1,
        loaded.spec_validate() is Err ==> r.0.is_default() && r.1,
        r.0.spec_validate() is Ok,
{
    match loaded.validate() {
        Ok(()) => (loaded, false),
        Err(_) => {
            let d = AppConfig::default();
            proof {
                crate::config::lemma_default_config_is_valid(d);
            }
            (d, true)
        },
    }
}

/// A configuration that keeps every rule yields its quote provider, and its wallpaper
/// provider unless that one has no implementation (Bing, Wallhaven).
pub proof fn lemma_valid_config_builds_providers(c: AppConfig)
    requires
        c.spec_validate() is Ok,
    ensures
        quote_setup_error(c) is None,
        c.provider_type == WallpaperProviderType::Reddit || c.provider_type
            == WallpaperProviderType::Unsplash || c.provider_type
            == WallpaperProviderType::EarthView ==> wallpaper_setup_error(c) is None,
{
}

/// After a reload the loop forgets the cached quote, so its next cycle fetches a new one,
/// whatever the clock and the quote interval.
pub proof fn lemma_reload_renews_quote(now: u64, interval_secs: u64)
    ensures
        fetch_after_wake(WaitKind::Interval, WakeEvent::Command(DaemonCommand::ReloadConfig), false)
            == Some(true),
        refresh_due(None, now, interval_secs),
{
}

/// A quote fetched at `fetched_at` is shown again, without a new fetch, until the quote
/// interval has passed, and renewed from then on.
pub proof fn lemma_quote_kept_for_interval(fetched_at: u64, now: u64, interval_secs: u64)
    requires
        fetched_at <= now,
    ensures
        refresh_due(Some(fetched_at), now, interval_secs) <==> now - fetched_at >= interval_secs
            * NANOS_PER_SEC,
{
}

/// When a quote fetch fails, a cycle shows the cached quote if there is one.
pub proof fn lemma_failed_quote_falls_back(cached: String, error: String)
    ensures
        cycle_quote(Some(cached), Some(Err(error))) == Ok::<Seq<char>, Seq<char>>(cached@),
{
}

/// The commands drive the loop whatever it waits for and whatever the pause state: `next`
/// and `resume` run a cycle at once, `pause` runs none, and a closed control channel stops
/// the loop.
pub proof fn lemma_commands_drive_the_loop(kind: WaitKind, paused: bool)
    ensures
        fetch_after_wake(kind, WakeEvent::Command(DaemonCommand::Next), paused) == Some(true),
        fetch_after_wake(kind, WakeEvent::Command(DaemonCommand::Resume), paused) == Some(true),
        fetch_after_wake(kind, WakeEvent::Command(DaemonCommand::Pause), paused) == Some(false),
        fetch_after_wake(kind, WakeEvent::ChannelClosed, paused) is None,
{
}

/// While rotation is paused, the end of the wallpaper interval runs no cycle; a retry
/// after a failed cycle still does.
pub proof fn lemma_paused_interval_does_not_fetch()
    ensures
        fetch_after_wake(WaitKind::Interval, WakeEvent::TimerFired, true) == Some(false),
        fetch_after_wake(WaitKind::Retry, WakeEvent::TimerFired, true) == Some(true),
{
}

/// The end of a wait runs a cycle unless rotation is paused; a retry after a failed cycle
/// runs one even while paused.
pub proof fn lemma_timer_runs_cycle_unless_paused(kind: WaitKind, paused: bool)
    ensures
        fetch_after_wake(WaitKind::Interval, WakeEvent::TimerFired, paused) == Some(!paused),
        fetch_after_wake(WaitKind::Retry, WakeEvent::TimerFired, paused) == Some(true),
        !paused ==> fetch_after_wake(kind, WakeEvent::TimerFired, paused) == Some(true),
{
}

/// A reload runs a cycle at once exactly when rotation is not paused, whatever the loop
/// waited for.
pub proof fn lemma_reload_runs_cycle_unless_paused(kind: WaitKind, paused: bool)
    ensures
        fetch_after_wake(kind, WakeEvent::Command(DaemonCommand::ReloadConfig), paused)
            == Some(!paused),
{
}

/// A quote that was fetched is the one a cycle shows, whatever was cached.
pub proof fn lemma_fetched_quote_is_shown(cached: Option<String>, q: String)
    ensures
        cycle_quote(cached, Some(Ok(q))) == Ok::<Seq<char>, Seq<char>>(q@),
{
}

/// Without a newly fetched quote, a cycle shows the cached one when there is one, and fails
/// only when nothing is cached.
pub proof fn lemma_cached_quote_is_shown(c: String, fetched: Option<Result<String, String>>)
    requires
        !(fetched matches Some(Ok(_))),
    ensures
        cycle_quote(Some(c), fetched) == Ok::<Seq<char>, Seq<char>>(c@),
        cycle_quote(None, fetched) is Err,
{
}

/// A wallpaper provider is built exactly for Reddit with a non-blank subreddit, Unsplash
/// with a non-blank access key (whatever the query), and Earth View.
pub proof fn lemma_wallpaper_setup_succeeds_exactly(c: AppConfig)
    ensures
        wallpaper_setup_error(c) is None <==> {
            ||| c.provider_type == WallpaperProviderType::Reddit && !is_blank(c.subreddit@)
            ||| c.provider_type == WallpaperProviderType::Unsplash && (c.unsplash_access_key
                matches Some(k) && !is_blank(k@))
            ||| c.provider_type == WallpaperProviderType::EarthView
        },
{
}

/// A quote provider is built exactly for ZenQuotes, and for a local file with a non-blank
/// path.
pub proof fn lemma_quote_setup_succeeds_exactly(c: AppConfig)
    ensures
        quote_setup_error(c) is None <==> {
            ||| c.quote_provider_type == QuoteProviderType::ZenQuotes
            ||| c.quote_provider_type == QuoteProviderType::LocalFile && (c.quote_local_path
                matches Some(p) && !path_is_blank(p@))
        },
{
}

/// An optional setting is kept trimmed when it holds anything but white space, and dropped
/// otherwise.
pub proof fn lemma_trimmed_setting(s: String)
    ensures
        !is_blank(s@) ==> trimmed_non_blank(Some(s)) == Some(trim(s@)),
        is_blank(s@) ==> trimmed_non_blank(Some(s)) is None,
        trimmed_non_blank(None) is None,
{
}

/// Seconds the loop waits after a failed cycle before it tries again.
pub const RETRY_DELAY_SECS: u64 = 120;

/// Nanoseconds in a second.
pub const NANOS_PER_SEC: u64 = 1_000_000_000;

/// What the loop waits for.
#[derive(Clone, Copy, Debug, PartialEq, Eq, Structural)]
pub enum WaitKind {
    /// The wallpaper interval, after a successful cycle or when no cycle ran.
    Interval,
    /// The retry delay, after a failed cycle.
    Retry,
}

/// What ends a wait of the loop.
#[derive(Clone, Copy, Debug, PartialEq, Eq, Structural)]
pub enum WakeEvent {
    TimerFired,
    Command(DaemonCommand),
    /// The control interface is gone.
    ChannelClosed,
}

/// The quote shown last and when it was fetched, in nanoseconds on the service's
/// monotonic clock.
pub struct QuoteCache {
    pub quote: Option<String>,
    pub refreshed_at: Option<u64>,
}

/// Whether a quote fetched at `refreshed_at` is due for renewal at `now`
/// (`last.elapsed() >= interval`; an unknown time is always due).
pub open spec fn refresh_due(refreshed_at: Option<u64>, now: u64, interval_secs: u64) -> bool {
    match refreshed_at {
        Some(t) => (if now >= t { now - t } else { 0 }) >= interval_secs * NANOS_PER_SEC,
        None => true,
    }
}

/// The quote a cycle shows, when its wallpaper arrived: the new quote when one was fetched,
/// else the cached one.
pub open spec fn cycle_quote(cached: Option<String>, fetched: Option<Result<String, String>>) -> Result<Seq<char>, Seq<char>> {
    match fetched {
        Some(Ok(q)) => Ok(q@),
        Some(Err(e)) => match cached {
            Some(c) => Ok(c@),
            None => Err(e@),
        },
        None => match cached {
            Some(c) => Ok(c@),
            None => Err("Quote cache is unexpectedly empty"@),
        },
    }
}

impl QuoteCache {
    pub fn new() -> (c: Self)
        ensures
            c.quote is None,
            c.refreshed_at is None,
    {
        QuoteCache { quote: None, refreshed_at: None }
    }

    /// Forgets the cached quote, so that the next cycle fetches one.
    pub fn clear(&mut self)
        ensures
            final(self).quote is None,
            final(self).refreshed_at is None,
    {
        self.quote = None;
        self.refreshed_at = None;
    }

    /// Whether the next cycle fetches a new quote.
    pub fn needs_refresh(&self, now: u64, interval_secs: u64) -> (b: bool)
        ensures
            b == refresh_due(self.refreshed_at, now, interval_secs),
    {
        match self.refreshed_at {
            Some(t) => {
                let elapsed = if now >= t { now - t } else { 0 };
                let secs = elapsed / NANOS_PER_SEC;
                proof {
                    lemma_whole_seconds(elapsed as int, interval_secs as int);
                }
                secs >= interval_secs
            },
            None => true,
        }
    }

    /// Settles a cycle once its fetches ended: a failed wallpaper fails the cycle and keeps
    /// the cache; else a new quote is cached (with `now`) and shown, and without one the
    /// cached quote is shown, or the cycle fails when there is none.
    pub fn settle(
        &mut self,
        wallpaper: Result<Vec<u8>, String>,
        fetched: Option<Result<String, String>>,
        now: u64,
    ) -> (r: Result<(Vec<u8>, String), String>)
        ensures
            match wallpaper {
                Err(e) => {
                    &&& r == Err::<(Vec<u8>, String), String>(e)
                    &&& final(self).quote == old(self).quote
                    &&& final(self).refreshed_at == old(self).refreshed_at
                },
                Ok(w) => {
                    &&& match cycle_quote(old(self).quote, fetched) {
                        Ok(q) => r matches Ok((w2, q2)) && w2 == w && q2@ == q,
                        Err(e) => r matches Err(e2) && e2@ == e,
                    }
                    &&& match fetched {
                        Some(Ok(q)) => final(self).quote == Some(q) && final(self).refreshed_at
                            == Some(now),
                        _ => final(self).quote == old(self).quote && final(self).refreshed_at
                            == old(self).refreshed_at,
                    }
                },
            },
    {
        let bytes = match wallpaper {
            Ok(b) => b,
            Err(e) => {
                return Err(e);
            },
        };
        match fetched {
            Some(Ok(q)) => {
                self.quote = Some(q.clone());
                self.refreshed_at = Some(now);
                Ok((bytes, q))
            },
            Some(Err(e)) => match &self.quote {
                Some(c) => Ok((bytes, c.clone())),
                None => Err(e),
            },
            None => match &self.quote {
                Some(c) => Ok((bytes, c.clone())),
                None => Err("Quote cache is unexpectedly empty".to_owned()),
            },
        }
    }
}

/// Whole seconds reach a bound exactly when the nanoseconds reach it.
proof fn lemma_whole_seconds(elapsed: int, bound: int)
    requires
        elapsed >= 0,
        bound >= 0,
    ensures
        (elapsed / 1_000_000_000 >= bound) == (elapsed >= bound * 1_000_000_000),
{
    assert((elapsed / 1_000_000_000 >= bound) == (elapsed >= bound * 1_000_000_000))
        by (nonlinear_arith)
        requires
            elapsed >= 0,
            bound >= 0,
    ;
}

/// The state of the wallpaper loop between cycles.
pub struct CycleState {
    /// Whether the next turn of the loop runs a cycle.
    pub should_fetch: bool,
    pub quote_cache: QuoteCache,
}

/// How long a wait lasts, in seconds.
pub open spec fn wait_duration_secs(kind: WaitKind, wallpaper_interval_mins: u32) -> nat {
    match kind {
        WaitKind::Interval => Scheduler::spec_interval_secs(wallpaper_interval_mins),
        WaitKind::Retry => RETRY_DELAY_SECS as nat,
    }
}

/// Whether a cycle runs after a wait of `kind` that `event` ended (`None`: the loop stops).
pub open spec fn fetch_after_wake(kind: WaitKind, event: WakeEvent, paused: bool) -> Option<bool> {
    match event {
        WakeEvent::TimerFired => Some(kind == WaitKind::Retry || !paused),
        WakeEvent::Command(DaemonCommand::Next) => Some(true),
        WakeEvent::Command(DaemonCommand::Pause) => Some(false),
        WakeEvent::Command(DaemonCommand::Resume) => Some(true),
        WakeEvent::Command(DaemonCommand::ReloadConfig) => Some(!paused),
        WakeEvent::ChannelClosed => None,
    }
}

impl CycleState {
    /// The loop at start: a cycle runs at once unless rotation is paused.
    pub fn new(paused: bool) -> (s: Self)
        ensures
            s.should_fetch == !paused,
            s.quote_cache.quote is None,
            s.quote_cache.refreshed_at is None,
    {
        CycleState { should_fetch: !paused, quote_cache: QuoteCache::new() }
    }

    /// What the loop waits for after a cycle: the retry delay when it failed.
    pub fn wait_after_cycle(succeeded: bool) -> (k: WaitKind)
        ensures
            k == (if succeeded { WaitKind::Interval } else { WaitKind::Retry }),
    {
        if succeeded {
            WaitKind::Interval
        } else {
            WaitKind::Retry
        }
    }

    /// How many seconds a wait of `kind` lasts.
    pub fn wait_secs(kind: WaitKind, wallpaper_interval_mins: u32) -> (secs: u64)
        ensures
            secs == wait_duration_secs(kind, wallpaper_interval_mins),
    {
        match kind {
            WaitKind::Interval => Scheduler::new(wallpaper_interval_mins).interval_secs(),
            WaitKind::Retry => RETRY_DELAY_SECS,
        }
    }

    /// Takes in what ended a wait; `paused` is the shared pause state at that moment.
    /// A reload forgets the cached quote. Returns whether the loop goes on.
    pub fn wake(&mut self, kind: WaitKind, event: WakeEvent, paused: bool) -> (go_on: bool)
        ensures
            match fetch_after_wake(kind, event, paused) {
                Some(f) => go_on && final(self).should_fetch == f,
                None => !go_on && final(self).should_fetch == old(self).should_fetch,
            },
            event == WakeEvent::Command(DaemonCommand::ReloadConfig) ==> {
                &&& final(self).quote_cache.quote is None
                &&& final(self).quote_cache.refreshed_at is None
            },
            event != WakeEvent::Command(DaemonCommand::ReloadConfig) ==> {
                &&& final(self).quote_cache.quote == old(self).quote_cache.quote
                &&& final(self).quote_cache.refreshed_at == old(self).quote_cache.refreshed_at
            },
    {
        match event {
            WakeEvent::TimerFired => {
                self.should_fetch = match kind {
                    WaitKind::Retry => true,
                    WaitKind::Interval => !paused,
                };
                true
            },
            WakeEvent::Command(DaemonCommand::Next) => {
                self.should_fetch = true;
                true
            },
            WakeEvent::Command(DaemonCommand::Pause) => {
                self.should_fetch = false;
                true
            },
            WakeEvent::Command(DaemonCommand::Resume) => {
                self.should_fetch = true;
                true
            },
            WakeEvent::Command(DaemonCommand::ReloadConfig) => {
                self.quote_cache.clear();
                self.should_fetch = !paused;
                true
            },
            WakeEvent::ChannelClosed => false,
        }
    }
}

} // verus!
