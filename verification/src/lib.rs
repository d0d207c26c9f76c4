//! Verified core of a command-line controller for Philips Hue lights.

pub mod text;
pub mod error;
pub mod json;
pub mod presets;
pub mod config;
pub mod bridge;
pub mod rgb;
pub mod commands;
pub mod setup;
pub mod laws;
