//! Relocation planning for date-organized media libraries.
//!
//! The library computes, for each media file discovered under a source
//! directory, the destination path `root/Y/MM - MonthName/Y-MM-DD/name`
//! derived from the file's creation date, together with the paths of any
//! sidecar metadata files that travel with it. Discovery filtering (by
//! ASCII-case-insensitive extension and by walk depth), date derivation,
//! path computation and outcome accounting are verified; the surrounding
//! binary performs the filesystem walk, metadata reads, directory
//! creation and renames, and hands the library plain values.

pub mod date;
pub mod dirtree;
pub mod discovery;
pub mod layout;
pub mod outcome;
pub mod pathname;
pub mod text;
