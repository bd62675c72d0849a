//! Verified core of an image and archive viewer: page prefetch windows,
//! spread construction, decode caching, bookmarks, localization text and
//! header probing of image files.
use vstd::prelude::*;

pub mod types;
pub mod cache;
pub mod document;
pub mod text;
pub mod hashing;
pub mod paths;
pub mod i18n;
pub mod bookmark;
pub mod input;
pub mod color_management;
pub mod config;
pub mod navigation_commit;
pub mod database;
pub mod window_title;
pub mod bootstrap;
pub mod layout_transition;
pub mod navigation_targets;
pub mod sorting;
pub mod slideshow;
pub mod file_names;
pub mod commands;

verus! {


} // verus!
