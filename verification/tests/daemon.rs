use vibe_core::config::{AppConfig, ConfigError, QuoteProviderType, WallpaperProviderType};
use vibe_core::daemon::{
    quote_source, startup_config, wallpaper_source, CycleState, DaemonCommand, DaemonControl,
    QuoteCache, QuoteSource, SetupError, WaitKind, WakeEvent, WallpaperSource, NANOS_PER_SEC,
};
use vibe_core::desktop::{DesktopError, PortalAdapter};
use vibe_core::Scheduler;

#[test]
fn scheduler_interval() {
    assert_eq!(Scheduler::new(0).interval_secs(), 60);
    assert_eq!(Scheduler::new(5).interval_secs(), 300);
    assert_eq!(Scheduler::new(5).interval(), std::time::Duration::from_secs(300));
    assert_eq!(Scheduler::default().interval_secs(), 3600);
    assert_eq!(Scheduler::new(u32::MAX).interval_secs(), u64::from(u32::MAX) * 60);
}

#[test]
fn control_pause_resume_status() {
    let mut control = DaemonControl::new(AppConfig::default());
    assert_eq!(control.status(), "Running");
    assert_eq!(control.pause(), DaemonCommand::Pause);
    assert!(control.paused && control.config.is_paused);
    assert_eq!(control.status(), "Paused");
    assert_eq!(control.resume(), DaemonCommand::Resume);
    assert!(!control.paused && !control.config.is_paused);
    assert_eq!(control.status(), "Running");
}

#[test]
fn control_reload() {
    let mut control = DaemonControl::new(AppConfig::default());
    let bad = AppConfig { wallpaper_interval_mins: 0, is_paused: true, ..AppConfig::default() };
    assert_eq!(control.reload(bad), Err(ConfigError::WallpaperIntervalZero));
    assert!(!control.paused);
    assert_eq!(control.config.wallpaper_interval_mins, 60);
    let good = AppConfig { wallpaper_interval_mins: 5, is_paused: true, ..AppConfig::default() };
    assert_eq!(control.reload(good), Ok(DaemonCommand::ReloadConfig));
    assert!(control.paused);
    assert_eq!(control.config.wallpaper_interval_mins, 5);
}

#[test]
fn startup_replaces_invalid_config() {
    let (c, replaced) = startup_config(AppConfig { quote_interval_mins: 0, ..AppConfig::default() });
    assert!(replaced);
    assert_eq!(c.quote_interval_mins, 60);
    assert!(c.validate().is_ok());
    let (c, replaced) = startup_config(AppConfig { quote_interval_mins: 7, ..AppConfig::default() });
    assert!(!replaced);
    assert_eq!(c.quote_interval_mins, 7);
}

#[test]
fn provider_selection() {
    let reddit = AppConfig { subreddit: "  wallpapers ".to_string(), ..AppConfig::default() };
    match wallpaper_source(&reddit) {
        Ok(WallpaperSource::Reddit(p)) => assert_eq!(p.subreddit, "wallpapers"),
        _ => panic!("expected reddit"),
    }
    let blank = AppConfig { subreddit: " ".to_string(), ..AppConfig::default() };
    assert_eq!(
        wallpaper_source(&blank).err(),
        Some(SetupError::Config(ConfigError::SubredditEmpty))
    );
    let unsplash = AppConfig {
        provider_type: WallpaperProviderType::Unsplash,
        unsplash_access_key: Some(" k ".to_string()),
        unsplash_query: Some("  ".to_string()),
        ..AppConfig::default()
    };
    match wallpaper_source(&unsplash) {
        Ok(WallpaperSource::Unsplash(p)) => {
            assert_eq!(p.access_key.as_deref(), Some("k"));
            assert_eq!(p.query, None);
        }
        _ => panic!("expected unsplash"),
    }
    let earth = AppConfig { provider_type: WallpaperProviderType::EarthView, ..AppConfig::default() };
    assert!(matches!(wallpaper_source(&earth), Ok(WallpaperSource::EarthView(_))));
    let bing = AppConfig { provider_type: WallpaperProviderType::Bing, ..AppConfig::default() };
    assert_eq!(
        wallpaper_source(&bing).err(),
        Some(SetupError::UnsupportedProvider(WallpaperProviderType::Bing))
    );
    assert!(matches!(quote_source(&AppConfig::default()), Ok(QuoteSource::ZenQuotes(_))));
    let local = AppConfig {
        quote_provider_type: QuoteProviderType::LocalFile,
        quote_local_path: Some(b"/q.txt".to_vec()),
        ..AppConfig::default()
    };
    match quote_source(&local) {
        Ok(QuoteSource::LocalFile(p)) => assert_eq!(p.path, b"/q.txt".to_vec()),
        _ => panic!("expected local file"),
    }
    let empty = AppConfig { quote_local_path: Some(b" ".to_vec()), ..local };
    assert_eq!(quote_source(&empty).err(), Some(SetupError::QuoteLocalPathEmpty));
    assert_eq!(SetupError::QuoteLocalPathEmpty.message(), "quote_local_path is empty");
    let none = AppConfig { quote_local_path: None, ..empty };
    assert_eq!(
        quote_source(&none).err(),
        Some(SetupError::Config(ConfigError::QuoteLocalPathMissing))
    );
}

#[test]
fn loop_wake_decisions() {
    let mut s = CycleState::new(true);
    assert!(!s.should_fetch);
    assert!(s.wake(WaitKind::Interval, WakeEvent::TimerFired, true));
    assert!(!s.should_fetch);
    assert!(s.wake(WaitKind::Retry, WakeEvent::TimerFired, true));
    assert!(s.should_fetch);
    assert!(s.wake(WaitKind::Interval, WakeEvent::Command(DaemonCommand::Pause), false));
    assert!(!s.should_fetch);
    assert!(s.wake(WaitKind::Interval, WakeEvent::Command(DaemonCommand::Next), true));
    assert!(s.should_fetch);
    assert!(s.wake(WaitKind::Retry, WakeEvent::Command(DaemonCommand::Resume), true));
    assert!(s.should_fetch);
    s.quote_cache.quote = Some("q".to_string());
    s.quote_cache.refreshed_at = Some(5);
    assert!(s.wake(WaitKind::Interval, WakeEvent::Command(DaemonCommand::ReloadConfig), true));
    assert!(!s.should_fetch);
    assert!(s.quote_cache.quote.is_none() && s.quote_cache.refreshed_at.is_none());
    assert!(!s.wake(WaitKind::Interval, WakeEvent::ChannelClosed, false));
    assert_eq!(CycleState::wait_after_cycle(true), WaitKind::Interval);
    assert_eq!(CycleState::wait_after_cycle(false), WaitKind::Retry);
    assert_eq!(CycleState::wait_secs(WaitKind::Retry, 60), 120);
    assert_eq!(CycleState::wait_secs(WaitKind::Interval, 0), 60);
    assert_eq!(CycleState::wait_secs(WaitKind::Interval, 30), 1800);
}

#[test]
fn quote_cache_cycle() {
    let mut cache = QuoteCache::new();
    assert!(cache.needs_refresh(0, 60));
    // A quote fetch without a wallpaper changes nothing.
    let r = cache.settle(Err("no wallpaper".to_string()), Some(Ok("q1".to_string())), 10);
    assert_eq!(r, Err("no wallpaper".to_string()));
    assert!(cache.quote.is_none());
    // A fresh quote is cached.
    let r = cache.settle(Ok(vec![1, 2]), Some(Ok("q1".to_string())), 10);
    assert_eq!(r, Ok((vec![1, 2], "q1".to_string())));
    assert_eq!(cache.refreshed_at, Some(10));
    assert!(!cache.needs_refresh(10 + 60 * NANOS_PER_SEC - 1, 60));
    assert!(cache.needs_refresh(10 + 60 * NANOS_PER_SEC, 60));
    assert!(!cache.needs_refresh(0, 60));
    // A failed quote falls back to the cached one.
    let r = cache.settle(Ok(vec![3]), Some(Err("down".to_string())), 20);
    assert_eq!(r, Ok((vec![3], "q1".to_string())));
    assert_eq!(cache.refreshed_at, Some(10));
    // Without a fetch the cached quote is shown.
    let r = cache.settle(Ok(vec![4]), None, 30);
    assert_eq!(r, Ok((vec![4], "q1".to_string())));
    cache.clear();
    assert!(cache.needs_refresh(40, 60));
    assert_eq!(cache.settle(Ok(vec![5]), Some(Err("down".to_string())), 50), Err("down".to_string()));
    assert_eq!(
        cache.settle(Ok(vec![5]), None, 50),
        Err("Quote cache is unexpectedly empty".to_string())
    );
}

#[test]
fn gsettings_fallback_commands() {
    let cmds = PortalAdapter::gsettings_fallback("/tmp/vibe/wallpaper 1.jpg").unwrap();
    assert_eq!(cmds.len(), 2);
    assert_eq!(cmds[0].schema, "org.gnome.desktop.background");
    assert_eq!(cmds[0].key, "picture-uri");
    assert_eq!(cmds[0].value, "file:///tmp/vibe/wallpaper%201.jpg");
    assert_eq!(cmds[1].key, "picture-uri-dark");
    assert_eq!(cmds[1].value, cmds[0].value);
    assert!(matches!(
        PortalAdapter::gsettings_fallback("relative.jpg"),
        Err(DesktopError::InvalidFileUri)
    ));
    assert_eq!(
        DesktopError::InvalidFileUri.message(),
        "Failed to convert wallpaper path to file URI"
    );
}
