//! The rules of a system-tray controller for Sony Bluetooth headphones.
//!
//! Everything that decides or computes stands here, on plain values, with its
//! contract: the wire format of the sound profiles, the reading of what the
//! Bluetooth tools print, the state of the tray, its menu, its configuration
//! files and the steps of a transmission. Sockets, processes, files, the bus
//! and the tray widget itself belong to the program around this library.

pub mod address;
pub mod command;
pub mod config;
pub mod devices;
pub mod menu;
pub mod monitor;
pub mod platform;
pub mod profile;
pub mod session;
pub mod signal;
pub mod startup;
pub mod text;
pub mod text_lemmas;
pub mod tray;
