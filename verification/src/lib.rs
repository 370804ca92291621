//! Core of a small music-streaming service: validated input types, the
//! acquisition pipeline that turns a remote reference into a locally stored
//! audio artifact, and the expiring in-memory cache that serves ranged reads
//! of those artifacts.

pub mod api;
pub mod cache;
pub mod pipeline;
pub mod result;
pub mod template;
pub mod validation;
