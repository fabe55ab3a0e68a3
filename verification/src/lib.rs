//! Decision logic for a desktop shell that drives the `kitowall` wallpaper
//! manager: which executable to launch and how, how to read what it printed,
//! and how to merge the wallpaper folders on disk into one listing.
//!
//! Nothing here touches the file system or starts a process. Callers gather
//! plain facts (environment variables, directory listings, process output)
//! and hand them in; every function states what it returns for them.

pub mod args;
pub mod command;
pub mod config;
pub mod environment;
pub mod folders;
pub mod invoker;
pub mod json;
pub mod keys;
pub mod kitsune;
pub mod operations;
pub mod order;
pub mod packs;
pub mod path;
pub mod resolver;
pub mod service;
pub mod text;
pub mod tools;
pub mod walk;
pub mod wallpaper_laws;
pub mod wallpapers;
