//! Small utilities shared by the data sources.

pub mod debug_timer;
pub mod get_csv_cols;
pub mod rand;

pub use debug_timer::DebugTimer;
pub use get_csv_cols::get_csv_cols;
pub use rand::rand;
