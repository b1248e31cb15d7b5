//! Core of a tray-resident quick-launch toolbox: double-tap gesture
//! detection, window visibility decisions, a reference-counted icon cache,
//! and the shortcut, popup, configuration and search logic that the user
//! interface drives.
pub mod config;
pub mod gesture;
pub mod icon_cache;
pub mod launch;
pub mod links;
pub mod popups;
pub mod search;
pub mod text;
pub mod visibility;
