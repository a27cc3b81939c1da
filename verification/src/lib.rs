//! Saving and loading of records as JSON or TOML text, with the format chosen
//! explicitly or inferred from a path's extension.

pub mod error;
pub mod format;
pub mod storeable;

pub use error::Error;
pub use format::{path_to_format, Format};
pub use storeable::{ReadRequest, Record, Storeable, WriteRequest};
