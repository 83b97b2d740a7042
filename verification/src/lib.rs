//! The logic of an archive tool that compresses, extracts and lists zip, tar,
//! gz, bz2, xz, tar.gz, tar.bz2, tar.xz, 7z and RAR files: format detection
//! and default names, command planning, the layout of content listings, what a
//! directory walk adds to an archive, the steps of RAR extraction, in-memory
//! xz, gzip and bzip2 compression, the reading of tar, zip and 7z contents,
//! zip extraction and zip archive building.

pub mod text;
pub mod path;
pub mod parts;
pub mod format;
pub mod error;
pub mod listing;
pub mod command;
pub mod packing;
pub mod codec;
pub mod contents;
pub mod zipping;
