//! Verified core of a menu-bar monitor for Volcengine Ark plan usage.

pub mod text;
pub mod settings;
pub mod markers;
pub mod std_text;
pub mod reset;
pub mod ark_usage;
pub mod tray;
pub mod billing;
pub mod launch;
