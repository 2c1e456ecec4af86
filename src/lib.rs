//! Frame cache and batch extraction planning for an external media tool.
pub mod text;
pub mod cmd;
pub mod error;
pub mod path;
pub mod proc;
pub mod server;
pub mod frame;
pub mod frame_range;
pub mod cache;
pub mod probe;
pub mod sequence;
pub mod subtitle;
