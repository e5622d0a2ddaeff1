//! Launches an editor with an isolated profile and lists the extensions that
//! the profile holds.
pub mod extension;
pub mod listing;
pub mod manifest;
pub mod profile;
pub mod text;
