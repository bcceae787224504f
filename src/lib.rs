//! Collects the artifacts of a Python application for packaging, and reads the packaged
//! in-memory resources back as a read-only file hierarchy.
//!
//! - `location`: placement tokens and locations.
//! - `collector`: the resource collector, over python_packaging's collector.
//! - `index`: the in-memory resources, their lookup and directory listing.
//! - `reader`: the per-package resource reader and its traversable root and paths.
//! - `paths`, `text`: resource paths and character sequences.

pub mod collector;
pub mod index;
pub mod location;
pub mod paths;
pub mod reader;
pub mod text;
