//! Data files, their headers and their items.

pub mod base;
pub mod data_item;
pub mod enem;
pub mod escolas;
pub mod filters;
pub mod header;
pub mod item;
pub mod parse;
pub mod source;

pub use header::{DataHeader, TextMap};
pub use enem::EnemDataSource;
pub use escolas::EscolasDataSource;
pub use item::DataItem;
