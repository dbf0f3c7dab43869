//! Annotates the lines of a file with the pull request that introduced each of them.
//!
//! The crate decides and lays out; it runs no process and writes nothing. The caller
//! runs `git blame` and `git log`, hands over what they left behind, and writes the
//! report lines that it gets back:
//!
//! - [`config`] reads the command line;
//! - [`blame`] turns the output of `git blame` into per-line records;
//! - [`annotate`] walks the records and says, step by step, which commit to look up
//!   and which line to write;
//! - [`resolve`] finds the pull request in the output of `git log`, by way of [`log`];
//! - [`cache`] keeps the label of each commit that has been resolved;
//! - [`format`] lays out a report line;
//! - [`process`] describes what a finished process leaves behind.

pub mod process;
pub mod log;
pub mod resolve;
pub mod blame;
pub mod format;
pub mod cache;
pub mod annotate;
pub mod config;
