//! The verified core of the terminal mail client: configuration, token
//! handling, message conversion and the inbox view.
pub mod config;
pub mod time;
pub mod auth;
pub mod api;
pub mod db;
pub mod tui;
