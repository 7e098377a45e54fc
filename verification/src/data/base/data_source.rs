//! What a data source says about itself: where it is published, where its
//! data file lies once unpacked, and where its structure is described.

use vstd::prelude::*;

verus! {

/// A data source published on the web as a zip archive.
pub trait DataSource<'a>: Sized {
    /// The address of the archive.
    fn _web_source(&self) -> String;

    /// The path of the data file, relative to the data directory.
    fn _source_path(&self) -> String;

    /// The path of the file that describes the data's structure.
    fn _struct_path(&self) -> String;

    /// A handle on the source.
    fn new() -> Self;
}

} // verus!
