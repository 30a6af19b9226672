//! Relay from a Brook fight-stick (or compatible HID controller) to the
//! keyboard: the controller's input reports are decoded into button and
//! hat-switch changes, mapped through the active profile to macOS virtual key
//! codes, and turned into keyboard events and user-interface notifications.
//!
//! Modules:
//! - `keycodes`: the table of named keys and the lookups between names and codes.
//! - `config`: button mappings, profiles and settings, and the profile operations.
//! - `named_map`: the map from names to values that profiles are kept in.
//! - `device`: parsing and formatting of vendor and product ids.
//! - `device_list`: the list of connected devices shown in the device picker.
//! - `hid`: decoding of input reports and the relay's decisions.
//! - `relay`: which keyboard events are posted.
//! - `text`: string comparison and number formatting.

pub mod config;
pub mod device;
pub mod device_list;
pub mod hid;
pub mod keycodes;
pub mod named_map;
pub mod relay;
pub mod text;
