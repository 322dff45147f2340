//! Device classification, de-duplication and configuration logic of a
//! peripheral monitor, with the contracts that Verus proves of it.

pub mod audio;
pub mod bt;
pub mod classify;
pub mod collections;
pub mod config;
pub mod dedup;
pub mod device;
pub mod device_data;
pub mod filter;
pub mod fmt;
pub mod logging;
pub mod pairs;
pub mod popup;
pub mod scan;
pub mod state;
pub mod system;
pub mod text;
pub mod tray;
pub mod update;
