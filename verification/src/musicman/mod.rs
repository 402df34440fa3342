//! The verified core of the music library manager: configuration, the file
//! browser, key handling, metadata queries and export planning.
pub mod file_browser;
pub mod config;
pub mod app;
pub mod rockbox;
pub mod metadata;
pub mod providers;
pub mod cleaner;
pub mod converter;
pub mod view;
