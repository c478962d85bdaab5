//! Credential checking and signed bearer tokens for a small users service.

pub mod claims;
pub mod config;
pub mod credentials;
pub mod error;
pub mod guard;
pub mod models;
pub mod text;
pub mod token;
