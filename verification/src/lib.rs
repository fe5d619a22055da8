//! The deciding half of a parallel deep copy of a directory tree.
//!
//! One producer walks the source tree in pre-order, mirrors every directory
//! under the destination as soon as it is met, and hands every file to a pool
//! of workers that copy the bytes. A failure never stops the copy: it is
//! recorded, and only what depends on the failed step is left out.
//!
//! This crate holds the decisions of that procedure and proves what they
//! guarantee. The file system, the threads and the channels stay with the
//! caller, which reports what it met and does what it is told.

pub mod tree;
pub mod producer;
pub mod record;
pub mod walk;
pub mod copier;
pub mod laws;
pub mod select;
