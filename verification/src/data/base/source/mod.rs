//! Kinds of data source, each able to build itself.

use vstd::prelude::*;

pub mod web;
pub mod zip;

pub use web::WebDataSource;
pub use zip::ZipDataSource;

verus! {

/// A data source that can build itself.
pub trait DataSource: Sized {
    /// Builds the source.
    fn init() -> Self;
}

} // verus!
