//! Data sources unpacked from a zip archive.

use vstd::prelude::*;
use super::DataSource;

verus! {

/// A data source that is built from a zip archive.
pub trait ZipDataSource: DataSource {
    /// Builds the source from its archive.
    fn zip_init() -> Self;

    /// Builds the source, which for these is unpacking its archive.
    fn init() -> Self {
        Self::zip_init()
    }
}

} // verus!
