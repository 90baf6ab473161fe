//! What the panel decides around its exchanges with BlueZ over D-Bus.

pub mod bluez;
pub mod devices;
pub mod properties;
