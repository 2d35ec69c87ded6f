//! Profiles of the Eruption keyboard lighting daemon: the typed configuration
//! parameters that a profile stores per effect script, the rules by which they
//! are read and written, and the selection of profiles from what was loaded.
//!
//! Reading and writing files, TOML and YAML parsing and serialisation stay
//! outside this crate: callers hand in what was read and take back plain values.

pub mod text;
pub mod config;
pub mod config_map;
pub mod profile;
pub mod laws;
pub mod loading;
pub mod manifest;
pub mod editor;
