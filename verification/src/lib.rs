//! Verified core of the Steam Controller XInput adapter.

pub mod buttons;
pub mod config;
pub mod hid;
pub mod protocol;
pub mod report;
pub mod xinput;
pub mod text;
pub mod cli;
pub mod input_devices;
pub mod profiles;
