//! Which source files an analysis run takes in.
//!
//! A `FileSpec` names file patterns; a `FileSpecLoader` turns them into
//! loaded sources.  The engine's own loader reads the filesystem and lives
//! with the rest of the I/O, outside this crate's verified core; the types
//! and the capability live here.

use vstd::prelude::*;

verus! {

/// One loaded source: the path it came from (used in diagnostics) and its
/// text.
#[derive(Debug, Clone, PartialEq, Eq, Hash)]
pub struct Source {
    pub path: String,
    pub content: String,
}

/// The files one analysis run takes in, as glob-style patterns.
#[derive(Debug, Clone, PartialEq, Eq, Hash)]
pub struct FileSpec {
    pub patterns: Vec<String>,
}

/// Loads the sources a `FileSpec` designates.  Implementations decide where
/// sources come from; the error is a human-readable detail.
pub trait FileSpecLoader {
    fn load(&self, spec: &FileSpec) -> Result<Vec<Source>, String>;
}

} // verus!
