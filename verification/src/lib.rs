//! A verified core for an interactive build-log viewer.
//!
//! The library ingests output lines of a compiler run, classifies each line
//! against a configurable rule set of regular-expression markers, derives a
//! navigable index of diagnostic blocks, and maintains the selection and
//! search state that a terminal front end renders.

pub mod block;
pub mod bytes;
pub mod config;
pub mod event;
pub mod help;
pub mod output;
pub mod entry;
pub mod error;
pub mod marker;
pub mod pattern;
pub mod rule;
pub mod tag;
pub mod laws;
pub mod location;
pub mod log;
pub mod opt;
pub mod origin;
pub mod range;
pub mod search_ui;
pub mod status;
pub mod style;
