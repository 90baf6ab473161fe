//! Configuration and BlueZ device logic of a Bluetooth panel, with the
//! decisions that surround each D-Bus exchange stated and proved.

pub mod config;
pub mod dbus;
pub mod text;
