pub mod chars;
pub mod config;
pub mod domain;
pub mod error;
pub mod help;
pub mod laws;
pub mod ports;
pub mod red_flags;
pub mod runner;
pub mod session;
pub mod settings;
pub mod tasks;
pub mod text;
pub mod vote;
