//! Support routines for a code-generation build helper.
//!
//! Two independent facilities live here: filesystem result annotation,
//! where every failed platform operation is paired with a message naming
//! the operation and the paths involved (`fs`), and a scanner that pulls
//! the build tool's target directory out of captured metadata output
//! (`cargo`), with a UTF-8 validity check (`encoding`) backing it.
//!
//! Neither facility performs I/O itself: each takes the outcome of the
//! underlying platform or process call as a value and is verified for
//! every such outcome. The thin layer that makes those calls lives with
//! the caller.

pub mod cargo;
pub mod encoding;
pub mod fs;
