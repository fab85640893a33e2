//! Order service: request authentication, order intake and listing rules,
//! the order record codec and the cache keys of the token blacklist.
pub mod text;
pub mod json;
pub mod orders;
pub mod repository;
pub mod error;
pub mod auth;
pub mod cache;
pub mod service;
pub mod settings;
