//! ForgeISO engine: configuration, autoinstall documents, ISO metadata
//! inference, release policy and the pure decisions of the build pipeline.

pub mod autoinstall;
pub mod backends;
pub mod cli;
pub mod desktop;
pub mod digest;
pub mod config;
pub mod error;
pub mod events;
pub mod gui;
pub mod iso;
pub mod modules;
pub mod orchestrator;
pub mod policy;
pub mod release_tracker;
pub mod report;
pub mod runtime;
pub mod scanner;
pub mod text;
pub mod tui;
pub mod workspace;
pub mod yaml;
