//! The storage format: no tags, every value at its place.

pub mod de;
pub mod en;
pub mod encoding;
pub mod format;
pub mod integer_encoding;
pub mod protocol;
pub mod value;
