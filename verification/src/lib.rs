//! Narrows an infrastructure project down to chosen declarations and
//! prepares one run of the external tool on exactly those.
//!
//! - [`types`]: the entity model, a resource or module declaration and the
//!   scope that selects declarations.
//! - [`scanner`]: which entries of a directory tree are declaration files.
//! - [`project`]: the parser that finds the declarations in a file, and the
//!   index that answers queries on them.
//! - [`executor`]: target flags, the choice of the operation, the command
//!   line, and the outcome of a run.
//! - [`invocation`]: one run as a state machine, stepped by a driver that
//!   does the input and output.
//! - [`text`]: character sequences, their order and their parts.
//! - [`pattern`]: the boundary to the regular-expression engine.
//! - [`error`]: the failures.

pub mod error;
pub mod executor;
pub mod invocation;
pub mod pattern;
pub mod project;
pub mod scanner;
pub mod text;
pub mod types;
