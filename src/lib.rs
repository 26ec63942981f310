//! Launcher core for a desktop front end that starts and supervises an
//! image-analysis backend process.
pub mod cli;
pub mod config_dir;
pub mod error;
pub mod launch;
pub mod options;
pub mod paths;
pub mod scope;
pub mod supervisor;
pub mod text;
pub mod window;
