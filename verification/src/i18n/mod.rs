//! Localization.
pub mod localizer;
pub mod languages;
pub mod navigation_messages;
