//! Data sources fetched from the web.

use vstd::prelude::*;
use super::DataSource;

verus! {

/// A data source that is built from the web.
pub trait WebDataSource: DataSource {
    /// Builds the source from the web.
    fn web_init() -> Self;

    /// Builds the source, which for these is building it from the web.
    fn init() -> Self {
        Self::web_init()
    }
}

} // verus!
