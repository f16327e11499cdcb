//! The settings of the command line: what the user keeps in the home
//! configuration file, and which source wins where several give a setting.

pub mod config;
