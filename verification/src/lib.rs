//! Core state and rules of the Morphic terminal dashboard: configuration
//! repair, table sorting and filtering, keyboard and mouse handling of the
//! quality views, the settings page and the shell that routes events.

pub mod app;
pub mod config;
pub mod framework;
pub mod header;
pub mod info;
pub mod layout;
pub mod monitor;
pub mod quality;
pub mod rows;
pub mod settings;
pub mod sorting;
pub mod text;
pub mod models;
