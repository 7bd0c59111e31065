//! Functions: how requests and events reach them, and how their worker is kept running.

pub mod colors;
pub mod descriptors;
pub mod dispatch;
pub mod laws;
pub mod log_laws;
pub mod records;
pub mod routes;
pub mod source;
pub mod supervisor;
pub mod worker_log;
