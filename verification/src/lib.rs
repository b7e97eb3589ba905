//! Command configuration model for a code-size profiler.
//!
//! A run of the profiler is described by one [`definitions::Options`]
//! value: which analysis mode to run (`top`, `dominators` or `paths`),
//! which binary to read, where and in which format to write the
//! report, and the mode's tuning bounds.
//!
//! A configuration can be built two ways, and both agree on every
//! default and every effective value:
//! - declaratively, by parsing a list of command-line tokens
//!   ([`definitions::Options::parse`] and the per-mode parsers in
//!   [`cli`]); or
//! - imperatively, starting from a default constructor and mutating
//!   field by field through the accessors and mutators on each mode
//!   struct.
//!
//! This crate only defines, defaults and validates the shape of a
//! profiling request. It performs no I/O: paths are carried as plain
//! strings and never opened here.

pub mod cli;
pub mod definitions;
pub mod errors;
pub mod output;
pub mod text;
