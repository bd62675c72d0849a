//! Bookmarks: saved reading positions.
pub mod controller;
pub mod model;
pub mod service;

pub use model::{BookmarkEntry, BookmarkSource};
pub use service::{BookmarkError, BookmarkService};
