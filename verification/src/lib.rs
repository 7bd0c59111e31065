#![allow(unused_imports)]

pub mod auth;
pub mod base64_text;
pub mod calendar;
pub mod checksum;
pub mod control;
pub mod decimal;
pub mod digest;
pub mod fresh;
pub mod functions;
pub mod json;
pub mod log_level;
pub mod pair_map;
pub mod percent;
pub mod pubsub;
pub mod storage;
pub mod task_laws;
pub mod tasks;
pub mod text;
pub mod text_map;
pub mod text_order;
pub mod trim;
