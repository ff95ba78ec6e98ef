//! Verified core of a photo viewer and editor: collections, directory
//! navigation, cache file formats, load-state machines and command-line
//! parsing.

pub mod detail_load;
pub mod text;
pub mod paths;
pub mod natural;
pub mod collection;
pub mod nav;
pub mod library;
pub mod launch;
pub mod control;
pub mod sliders;
pub mod edit;
pub mod wire;
pub mod local_edits;
pub mod browse;
pub mod calendar;
pub mod run;
pub mod decode;
pub mod session_cache;
pub mod harness;
pub mod loading;
pub mod lens;
pub mod json;
pub mod harness_input;
pub mod harness_commands;
pub mod stats;
pub mod run_order;
pub mod persist_queue;
pub mod warm_queue;
pub mod raster;
pub mod harness_controls;
pub mod harness_session;
