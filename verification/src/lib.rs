//! Verified core of a multi-account Telegram desktop client.

pub mod model;
pub mod text;
pub mod services;
pub mod config;
pub mod errors;
pub mod event;
pub mod sync;
pub mod secrets;
pub mod blob;
pub mod session;
pub mod store;
pub mod format;
pub mod login;
