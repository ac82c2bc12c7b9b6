use vstd::prelude::*;

pub mod desktop;
pub mod text;
pub mod error;
pub mod models;
pub mod urls;
pub mod paths;
pub mod security;
pub mod download;
pub mod json;
pub mod metadata;
pub mod logging;
pub mod filtering;
pub mod deeplink;
pub mod browser;
pub mod commands;
pub mod process;
pub mod updates;
pub mod webfilter;
pub mod queue;
pub mod settings;
