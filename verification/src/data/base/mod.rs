//! The first form of the data layer: items keyed by column name, and data
//! sources described by where they come from.

pub mod data_item;
pub mod data_source;
pub mod source;

pub use data_item::DataItem;
pub use data_source::DataSource;
