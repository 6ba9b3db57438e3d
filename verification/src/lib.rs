//! Core of a workspace command-line client: OAuth2 installed-application
//! authentication and token lifecycle, plus the pure request/response shaping
//! used by the per-service command modules.
//!
//! All decision logic lives here and is verified; file, network and terminal
//! work is left to the surrounding application, which feeds plain values in
//! and carries plain values out.

pub mod batch;
pub mod calendar;
pub mod credentials;
pub mod docs;
pub mod drive;
pub mod encoding;
pub mod errors;
pub mod gmail;
pub mod json;
pub mod listener;
pub mod manager;
pub mod oauth;
pub mod runtime;
pub mod sheets;
pub mod slides;
pub mod tasks;
pub mod token;
