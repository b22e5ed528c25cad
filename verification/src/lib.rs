//! A streaming hex-dump library: a reader that bounds a byte source to a
//! `[start, end)` offset window, a writer that renders fixed-width hex-dump
//! lines with an ASCII sidecar, and pluggable byte-classification colorers.

pub mod buf;
pub mod colorer;
pub mod error;
pub mod pipeline;
pub mod range;
pub mod range_reader;
pub mod render;
pub mod writer;
