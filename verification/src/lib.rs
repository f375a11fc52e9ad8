pub mod cli;
pub mod config;
pub mod interactive;
pub mod notes;
pub mod text;
pub mod time;
