//! Notes kept as plain files beside a key-value catalogue, every change
//! recorded as a commit. This crate holds the rules: the catalogue and the
//! settings file, the decisions of each note operation, the first-run
//! dialogue and the shape of a commit. Files, the editor and the repository
//! itself are the caller's business.

pub mod model;
pub mod ini;
mod clock;
pub mod paint;
pub mod index;
pub mod config;
pub mod history;
pub mod notes;
pub mod bootstrap;
