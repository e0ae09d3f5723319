//! Core logic of a command-line tool that deploys self-built iOS apps to
//! connected devices: device and project resolution, configuration
//! bookkeeping, signing plans and local cache inventory.

pub mod text;
pub mod decimal;
pub mod lexorder;
pub mod keyed_map;
pub mod error;
pub mod config;
pub mod interaction;
pub mod device;
pub mod time;
pub mod actions;
pub mod clean;
pub mod paths;
pub mod lines;
pub mod sign;
pub mod entitlements;
pub mod deploy;
pub mod sign_session;
pub mod tui;
pub mod diagnostics;
pub mod doctor;
pub mod state;
pub mod project;
pub mod render;
pub mod settings;
pub mod signing_report;
