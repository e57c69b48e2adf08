//! Core of a batch image converter.
//!
//! The library decides; it reads and writes no files. Around it a program
//! looks up the files, decodes them, performs what the conversion policy
//! asks for and prints the statistics.
//!
//! - [`format`]: the image formats and their file extensions
//! - [`paths`]: paths as text, and where the output of an input goes
//! - [`filter`]: which files are converted at all
//! - [`resolver`]: the check of a glob pattern, and the order of the files
//! - [`policy`]: what is done with one file, step by step
//! - [`pipeline`]: what a run does to the files, and what follows from that
//! - [`cancel`]: the flag that an interrupt sets
//! - [`stats`]: outcomes and their reduction into a report
//! - [`converter`]: the configuration, the bitmap and the encoders
//! - [`error`]: the error type
//! - [`text`]: helpers on characters

pub mod cancel;
pub mod converter;
pub mod error;
pub mod filter;
pub mod format;
pub mod paths;
pub mod pipeline;
pub mod policy;
pub mod resolver;
pub mod stats;
pub mod text;

pub use error::Error;
