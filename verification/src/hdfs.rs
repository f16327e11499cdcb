//! The HDFS side: errors, the client configuration and the site files it is
//! read from, what a connection is made with, directory entries as the
//! client reports them, and the options a file is opened with.

pub mod config;
pub mod connect;
pub mod entry;
pub mod err;
pub mod open;
pub mod xml;
