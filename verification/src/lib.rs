//! The core of a report generator: find the file extensions under a directory,
//! let the user select some of them, and make the job that reports on the
//! files that have them.
//!
//! The library does no input or output. The shell round it walks the file
//! system, shows the dialogs and runs the worker, and hands what it learned to
//! the functions here.

pub mod dispatch;
pub mod extension;
pub mod extension_set;
pub mod order;
pub mod scan;
pub mod selection;
pub mod shell;
