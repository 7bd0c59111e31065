//! Authentication: accounts, their tokens and second factors, by project.

pub mod account_laws;
pub mod accounts;
pub mod action_laws;
pub mod actions;
pub mod directory;
pub mod errors;
pub mod factor_laws;
pub mod laws;
pub mod provider;
pub mod queries;
pub mod records;
pub mod requests;
pub mod responses;
pub mod second_factor;
pub mod sign_in;
pub mod sign_in_laws;
pub mod soundness;
pub mod state;
pub mod tokens;
pub mod validity;
