//! Core of the tray launcher: what it decides, apart from carrying it out.
//!
//! An operation is a function from its state and the last answer to its next state and a list of
//! effects; see [`effect`]. The modules whose names end in `_laws` state what holds across several
//! steps or operations.

pub mod call_laws;
pub mod calls;
pub mod command_laws;
pub mod commands;
pub mod definition;
pub mod desktop_laws;
pub mod desktop_run_laws;
pub mod desktop_step_laws;
pub mod effect;
pub mod effect_laws;
pub mod ending_laws;
pub mod launchd_run_laws;
pub mod launcher;
pub mod linux_service;
pub mod location_laws;
pub mod locations;
pub mod log_laws;
pub mod macos_service;
pub mod native;
pub mod path;
pub mod path_laws;
pub mod plist;
pub mod plist_laws;
pub mod plist_value_laws;
pub mod programs;
pub mod run_laws;
pub mod search;
pub mod search_laws;
pub mod search_run_laws;
pub mod service_laws;
pub mod service_run_laws;
pub mod systemd_run_laws;
pub mod text;
pub mod text_laws;
pub mod tray;
pub mod unit_laws;
pub mod version;
pub mod version_laws;
pub mod window;
