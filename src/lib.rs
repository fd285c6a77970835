//! A real-time audio/video packet synchronizer: timestamped packets from two
//! streams are buffered per stream, stale ones are discarded, and the rest are
//! handed out in an order decided by comparing the two buffer heads.
//!
//! Alongside it live a few small helpers: the naming rule of a bulk file
//! renamer, an in-memory spreadsheet workbook, and a log line parser.

pub mod packet;
pub mod buffer;
pub mod dual;
pub mod sync;
pub mod config;
pub mod workbook;
pub mod renamer;
pub mod logline;
