//! A glob-capable filesystem walker over pluggable backends, with the
//! configuration and option handling of an HDFS client and the settings of
//! its command line.

pub mod cmd;
pub mod hdfs;
pub mod io;
pub mod text;
pub mod walk;
