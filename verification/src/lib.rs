//! Runtime support library for a SQL dataflow compiler.
//!
//! The core of the crate canonicalizes a weighted multiset of query result
//! rows into a deterministic list of formatted rows and a stable digest, so
//! that results of a possibly reordered computation can be compared against
//! reference expectations.  Around that core stand the scalar runtime
//! helpers the compiled queries call: three-valued boolean logic,
//! null-propagating arithmetic and comparisons, and date and timestamp
//! field extraction.

pub mod calendar;
pub mod interval;
pub mod strutil;
pub mod sqlvalue;
pub mod timestamp;
pub mod hashing;
pub mod sqllib;
pub mod sqllibbool;
