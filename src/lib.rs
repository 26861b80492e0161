//! A URL shortener's core: a base-62 codec from record ids to short codes,
//! URL validation, and the lifecycle of short-URL records (creation,
//! resolution, visit counting, updates, soft deletion, listing).
pub mod base62;
pub mod config;
pub mod error;
pub mod model;
pub mod requests;
pub mod service;
pub mod text;
pub mod time;
pub mod validation;
