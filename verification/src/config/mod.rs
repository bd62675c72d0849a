//! The persisted configuration: window placement, locale and its resolution.
pub mod app_config;
pub mod store;
pub mod window_snapshot;
