//! Verified core of a terminal Flatpak manager: parsers for the `flatpak`
//! command-line output, the background-job bookkeeping, and the
//! keyboard-driven application state machine.

pub mod text;
pub mod time;
pub mod flatpak_service;
pub mod app;
pub mod config;
pub mod ui;
