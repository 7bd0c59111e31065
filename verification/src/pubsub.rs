//! Pub/Sub: topics, subscriptions and the messages between them, by project.

pub mod delivery;
pub mod errors;
pub mod events;
pub mod grpc;
pub mod grpc_laws;
pub mod laws;
pub mod request_laws;
pub mod state;
pub mod wire;
