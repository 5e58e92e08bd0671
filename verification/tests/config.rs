use vibe_core::config::{is_path_blank, join_path, AppConfig, ConfigError, QuoteProviderType, WallpaperProviderType};

#[test]
fn validate_rejects_invalid_intervals() {
    let config = AppConfig {
        wallpaper_interval_mins: 0,
        ..AppConfig::default()
    };
    assert!(config.validate().is_err());
}

#[test]
fn validate_requires_local_quote_path_for_localfile_provider() {
    let config = AppConfig {
        quote_provider_type: QuoteProviderType::LocalFile,
        quote_local_path: None,
        ..AppConfig::default()
    };
    assert!(config.validate().is_err());
}

#[test]
fn default_config_values() {
    let config = AppConfig::default();
    assert_eq!(config.provider_type, WallpaperProviderType::Reddit);
    assert_eq!(config.quote_provider_type, QuoteProviderType::ZenQuotes);
    assert_eq!(config.wallpaper_interval_mins, 60);
    assert_eq!(config.quote_interval_mins, 60);
    assert_eq!(config.subreddit, "EarthPorn");
    assert_eq!(config.unsplash_query.as_deref(), Some("nature,wallpapers"));
    assert!(config.unsplash_access_key.is_none());
    assert!(config.quote_local_path.is_none());
    assert!(!config.is_paused);
}

#[test]
fn default_config_is_valid() {
    assert_eq!(AppConfig::default().validate(), Ok(()));
}

#[test]
fn validate_reports_each_rule() {
    let quote_zero = AppConfig { quote_interval_mins: 0, ..AppConfig::default() };
    assert_eq!(quote_zero.validate(), Err(ConfigError::QuoteIntervalZero));

    let both_zero = AppConfig { wallpaper_interval_mins: 0, quote_interval_mins: 0, ..AppConfig::default() };
    assert_eq!(both_zero.validate(), Err(ConfigError::WallpaperIntervalZero));

    let blank_subreddit = AppConfig { subreddit: " \t\u{3000}".to_string(), ..AppConfig::default() };
    assert_eq!(blank_subreddit.validate(), Err(ConfigError::SubredditEmpty));

    let blank_subreddit_other_provider = AppConfig {
        subreddit: String::new(),
        provider_type: WallpaperProviderType::EarthView,
        ..AppConfig::default()
    };
    assert_eq!(blank_subreddit_other_provider.validate(), Ok(()));

    let no_key = AppConfig { provider_type: WallpaperProviderType::Unsplash, ..AppConfig::default() };
    assert_eq!(no_key.validate(), Err(ConfigError::UnsplashKeyMissing));

    let blank_key = AppConfig {
        provider_type: WallpaperProviderType::Unsplash,
        unsplash_access_key: Some("   ".to_string()),
        ..AppConfig::default()
    };
    assert_eq!(blank_key.validate(), Err(ConfigError::UnsplashKeyMissing));

    let key = AppConfig {
        provider_type: WallpaperProviderType::Unsplash,
        unsplash_access_key: Some(" abc ".to_string()),
        ..AppConfig::default()
    };
    assert_eq!(key.validate(), Ok(()));

    let blank_path = AppConfig {
        quote_provider_type: QuoteProviderType::LocalFile,
        quote_local_path: Some(b"\n".to_vec()),
        ..AppConfig::default()
    };
    assert_eq!(blank_path.validate(), Err(ConfigError::QuoteLocalPathMissing));

    let path = AppConfig {
        quote_provider_type: QuoteProviderType::LocalFile,
        quote_local_path: Some(b"/home/me/quotes.txt".to_vec()),
        ..AppConfig::default()
    };
    assert_eq!(path.validate(), Ok(()));
}

#[test]
fn config_error_messages() {
    assert_eq!(ConfigError::WallpaperIntervalZero.message(), "wallpaper_interval_mins must be greater than 0");
    assert_eq!(ConfigError::QuoteIntervalZero.message(), "quote_interval_mins must be greater than 0");
    assert_eq!(ConfigError::SubredditEmpty.message(), "subreddit cannot be empty when provider_type=reddit");
    assert_eq!(ConfigError::UnsplashKeyMissing.message(), "unsplash_access_key is required when provider_type=unsplash");
    assert_eq!(ConfigError::QuoteLocalPathMissing.message(), "quote_local_path is required when quote_provider_type=localfile");
}

#[test]
fn load_falls_back_to_defaults() {
    let read = AppConfig { subreddit: "wallpapers".to_string(), ..AppConfig::default() };
    assert_eq!(AppConfig::load(Ok(read)).subreddit, "wallpapers");
    let fallback = AppConfig::load(Err("Failed to parse config".to_string()));
    assert_eq!(fallback.subreddit, "EarthPorn");
    assert_eq!(fallback.wallpaper_interval_mins, 60);
}

#[test]
fn join_path_like_std() {
    assert_eq!(join_path(b"/home/me/.config/vibe", b"config.toml"), b"/home/me/.config/vibe/config.toml".to_vec());
    assert_eq!(join_path(b"/home/me/.config/vibe/", b"config.toml"), b"/home/me/.config/vibe/config.toml".to_vec());
    assert_eq!(join_path(b"", b"config.toml"), b"config.toml".to_vec());
    assert_eq!(join_path(b"/a", b"/b"), b"/b".to_vec());
    assert_eq!(join_path(b"/caf\xe9", b"config.toml"), b"/caf\xe9/config.toml".to_vec());
    for (dir, name) in [("/x/y", "z.tmp"), ("rel", "f"), ("/", "f")] {
        let expected = std::path::Path::new(dir).join(name);
        assert_eq!(join_path(dir.as_bytes(), name.as_bytes()), expected.to_str().unwrap().as_bytes().to_vec());
    }
}

#[test]
fn config_path_ends_with_file_name() {
    if let Some(path) = AppConfig::config_path() {
        assert!(path.ends_with(b"/config.toml"));
        let dir = vibe_core::config::config_dir().unwrap();
        assert_eq!(path, join_path(&dir, b"config.toml"));
        assert!(dir.ends_with(b"/vibe"));
    }
}

#[test]
fn config_path_in_joins_file_name() {
    assert_eq!(AppConfig::config_path_in(None), None);
    assert_eq!(
        AppConfig::config_path_in(Some(b"/home/me/.config/vibe".to_vec())),
        Some(b"/home/me/.config/vibe/config.toml".to_vec())
    );
    assert_eq!(
        AppConfig::config_path_in(Some(b"/home/\xff/".to_vec())),
        Some(b"/home/\xff/config.toml".to_vec())
    );
}

#[test]
fn path_blankness() {
    assert!(is_path_blank(b""));
    assert!(is_path_blank(b" \n\t"));
    assert!(!is_path_blank(b"/q.txt"));
    assert!(!is_path_blank(b"\xff"));
    assert!(!is_path_blank(b" \xff "));
}
