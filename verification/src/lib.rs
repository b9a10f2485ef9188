//! Configuration model and editing logic for the Logitech G13 gameboard tools.
//!
//! The library holds what the configuration tools decide: the configuration
//! record and its defaults, the decoding of the device's input reports into
//! key events, the profile catalogue, and the state machine of the key
//! binding editor. Reading devices, files and the screen is left to callers.

pub mod config;
pub mod editor;
pub mod hid;
pub mod profiles;
pub mod str_map;
pub mod text;

pub use config::{default_color, default_profile_name, G13Config};
