//! Where a data file comes from.

use vstd::prelude::*;

verus! {

/// Where a data file comes from: a path of the data directory, or a path
/// together with the address of the archive that holds it.
pub enum Source {
    /// A file already in the data directory.
    Local(String),
    /// A file unpacked from the archive published at the second address.
    Remote(String, String),
}

impl Source {
    /// The path of the data file within the data directory.
    pub fn path(&self) -> (r: &String)
        ensures
            match self {
                Source::Local(p) => r == p,
                Source::Remote(p, _) => r == p,
            },
    {
        match self {
            Source::Local(p) => p,
            Source::Remote(p, _) => p,
        }
    }
}

impl Clone for Source {
    /// A source with the same path and address.
    fn clone(&self) -> (r: Self)
        ensures
            r == *self,
    {
        match self {
            Source::Local(path) => Source::Local(path.clone()),
            Source::Remote(path, url) => Source::Remote(path.clone(), url.clone()),
        }
    }
}

} // verus!
