//! Building blocks for a handful of small command-line tools: a falling-glyph
//! terminal animation, a systemd-unit to TOML converter, a reader for the
//! `[Unit]` section of a unit file, a directory lister and a default
//! configuration.
//!
//! Everything here works on plain values. Terminal and file-system access
//! belong to the caller, which performs the operations this crate decides on.

pub mod clock;
pub mod config;
pub mod field;
pub mod lifecycle;
pub mod listing;
pub mod particle;
pub mod random;
pub mod render;
pub mod terminal;
pub mod text;
pub mod unit_section;
pub mod unit_toml;
pub mod watcher;
