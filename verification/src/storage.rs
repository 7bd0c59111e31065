//! Storage: objects in buckets, by project, and the ways to upload them.

pub mod errors;
pub mod events;
pub mod laws;
pub mod multipart;
pub mod objects;
pub mod sessions;
pub mod state;
pub mod upload_laws;
