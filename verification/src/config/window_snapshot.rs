//! The window's size and position as they are saved.
use crate::config::app_config::{AppConfig, WindowConfig};
use vstd::prelude::*;

verus! {

/// The inner size and outer position of the window.
#[derive(Debug, Clone, Copy, PartialEq, Eq, Structural)]
pub struct WindowSnapshot {
    pub width: u32,
    pub height: u32,
    pub x: i32,
    pub y: i32,
}

impl WindowSnapshot {
    /// The window configuration that restores this size and position.
    pub fn into_config_window(self) -> (r: WindowConfig)
        ensures
            r == (WindowConfig { width: self.width, height: self.height, x: self.x, y: self.y }),
    {
        WindowConfig { width: self.width, height: self.height, x: self.x, y: self.y }
    }
}

/// A snapshot of a window with inner size `size` and outer position `position`, where the
/// position is known and the size is not empty.
pub fn snapshot_from_window(size: (u32, u32), position: Option<(i32, i32)>) -> (r: Option<
    WindowSnapshot,
>)
    ensures
        match position {
            Some((x, y)) => if size.0 == 0 || size.1 == 0 {
                r is None
            } else {
                r == Some(WindowSnapshot { width: size.0, height: size.1, x, y })
            },
            None => r is None,
        },
{
    let (x, y) = match position {
        Some(p) => p,
        None => return None,
    };
    if size.0 == 0 || size.1 == 0 {
        return None;
    }
    Some(WindowSnapshot { width: size.0, height: size.1, x, y })
}

/// Saves the snapshot's size and position in the configuration.
pub fn apply_window_to_config(config: &mut AppConfig, snapshot: WindowSnapshot)
    ensures
        final(config).window == (WindowConfig {
            width: snapshot.width,
            height: snapshot.height,
            x: snapshot.x,
            y: snapshot.y,
        }),
        final(config).locale == old(config).locale,
{
    config.window = snapshot.into_config_window();
}

} // verus!
