//! The configuration saved between runs.
use vstd::prelude::*;

verus! {

/// Default window width in pixels.
pub const DEFAULT_WINDOW_WIDTH: u32 = 1280;

/// Default window height in pixels.
pub const DEFAULT_WINDOW_HEIGHT: u32 = 720;

/// Default window X position in pixels.
pub const DEFAULT_WINDOW_X: i32 = 100;

/// Default window Y position in pixels.
pub const DEFAULT_WINDOW_Y: i32 = 100;

/// Size and position of the main window.
#[derive(Debug, Clone, Copy, PartialEq, Eq, Structural)]
pub struct WindowConfig {
    pub width: u32,
    pub height: u32,
    pub x: i32,
    pub y: i32,
}

impl Default for WindowConfig {
    fn default() -> (r: Self)
        ensures
            r == (WindowConfig {
                width: DEFAULT_WINDOW_WIDTH,
                height: DEFAULT_WINDOW_HEIGHT,
                x: DEFAULT_WINDOW_X,
                y: DEFAULT_WINDOW_Y,
            }),
    {
        WindowConfig {
            width: DEFAULT_WINDOW_WIDTH,
            height: DEFAULT_WINDOW_HEIGHT,
            x: DEFAULT_WINDOW_X,
            y: DEFAULT_WINDOW_Y,
        }
    }
}

/// The saved configuration: the window and the interface language.
#[derive(Debug, Clone)]
pub struct AppConfig {
    pub window: WindowConfig,
    pub locale: String,
}

impl Default for AppConfig {
    fn default() -> (r: Self)
        ensures
            r.window == (WindowConfig {
                width: DEFAULT_WINDOW_WIDTH,
                height: DEFAULT_WINDOW_HEIGHT,
                x: DEFAULT_WINDOW_X,
                y: DEFAULT_WINDOW_Y,
            }),
            r.locale@ == "en"@,
    {
        let locale = "en".to_string();
        proof {
            broadcast use vstd::string::group_string_axioms;

        }
        AppConfig { window: WindowConfig::default(), locale }
    }
}

} // verus!
