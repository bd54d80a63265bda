//! A registry of launchable applications, ranked by how often and how
//! recently each was launched.
//!
//! The registry takes the applications that a scan of the desktop entries
//! found, merges them into what it knew without losing the history of the
//! applications that stay, and ranks its records by score. Everything here
//! works on plain values: reading files, telling the time, watching
//! directories and starting processes are left to the caller, who is told
//! what to do and hands back what came of it.
//!
//! - [`desktop_entry`] reads the fields of a desktop entry;
//!   [`desktop_entry_laws`] says what holds of every reading.
//! - [`scan`] turns what a walk through the search directories found into
//!   application records; [`order`] is the order that they are put in.
//! - [`db`] is the registry; [`merge_laws`] says what holds of every merge,
//!   [`ranking`] and [`ranking_laws`] order records by score.
//! - [`score`] is the score of a record as it is stored.
//! - [`persistence`] plans the storing and loading of the registry.
//! - [`hot_reload`] plans the watching for changes.
//! - [`runner`] works out the command that runs an application.
//! - [`config`] holds the settings.
//! - [`parsing_error`] and [`pool`] are errors of neighbouring parts.
pub mod app;
pub mod app_order;
pub mod config;
pub mod db;
pub mod desktop_entry;
pub mod desktop_entry_laws;
pub mod hot_reload;
pub mod merge_laws;
pub mod order;
pub mod parsing_error;
pub mod persistence;
pub mod pool;
pub mod ranking;
pub mod ranking_laws;
pub mod runner;
pub mod scan;
pub mod score;
pub mod text;

pub use crate::app::App;
pub use crate::config::Config;
pub use crate::db::AppsDB;
