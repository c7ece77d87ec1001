//! Owning handles for another process's argument vector.
//!
//! The operating-system retrieval call hands back raw, foreign-allocated
//! records; the unverified shell around this library converts those records
//! into owned byte values and passes them in.  This crate holds the logic on
//! top of that boundary: a printable argument block ([`Argv`]) and a
//! double-ended, length-known argument sequence ([`ArgvArgc`]), each with a
//! well-defined empty state, deep-copy semantics, and exact contracts on
//! length, traversal, and rendering.

pub mod argv;
pub mod argvargc;
pub mod error;
pub mod render;

pub use crate::argv::Argv;
pub use crate::argvargc::ArgvArgc;
pub use crate::error::OsError;
