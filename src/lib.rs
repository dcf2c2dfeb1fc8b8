//! A request tool's library: a single-pass JSON pretty-printer and colorizer,
//! and the small decisions that the command line makes before it sends a request.
pub mod scan;
pub mod render;
pub mod laws;
pub mod cli;
