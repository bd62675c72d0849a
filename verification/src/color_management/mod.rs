//! Colour management: the profile of the display.
pub mod display_profile;
