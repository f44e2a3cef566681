//! A resumable, collision-safe pipeline that turns the raster images of a
//! directory tree into JPEG XL files and packs each directory into an archive.
//!
//! This crate holds the decisions of the pipeline: which directories still need
//! work and in what order, how an image file is classified, which name a new
//! output takes when its canonical name is taken, how duplicates are reconciled
//! by content digest, and what happens to a directory once all of its files have
//! been handled. Filesystem access, the encoder process and the archive writer
//! are driven by the caller.

pub mod fingerprint;
pub mod collision;
pub mod config;
pub mod text;
pub mod classify;
pub mod worklist;
pub mod schedule;
pub mod directory;
pub mod input;
pub mod timing;
