//! Calibration profiles of robots and teleoperators.
//!
//! A profile holds the joints of one device by name. This library decides
//! what a profile store does with them: which profiles are valid, where each
//! one lives below the root directory, what a listing of a directory shows,
//! which operations on files store or delete a profile, and what becomes of a
//! partial update. It touches no file itself. Whoever calls it walks the
//! directories, reads and writes the files, and hands the library what was
//! found there.

pub mod api;
pub mod config;
pub mod laws;
pub mod model;
pub mod names;
pub mod paths;
pub mod store;
pub mod text;
pub mod web;
