//! Core logic of the Vibe wallpaper manager.
pub mod compositor;
pub mod config;
pub mod daemon;
pub mod desktop;
pub mod form;
pub mod providers;
pub mod scheduler;
pub mod text;

pub use config::{AppConfig, ConfigError, QuoteProviderType, WallpaperProviderType};
pub use scheduler::Scheduler;
