//! Types shared by the data sources.

pub mod maybe_mut;
pub mod source;
pub mod symmetric_key;

pub use maybe_mut::UniRef;
pub use source::Source;
pub use symmetric_key::SymmetricKey;
