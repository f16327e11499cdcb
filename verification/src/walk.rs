//! The walker: path patterns, filters, the backend interface and the traversal.

pub mod backend;
pub mod err;
pub mod filter;
pub mod path;
pub mod walker;
