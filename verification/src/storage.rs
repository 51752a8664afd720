//! Where the tool keeps its files.
pub mod config_dir;
