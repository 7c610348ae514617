//! The binary-tagged format: every value starts with a tag byte.

pub mod de;
pub mod en;
pub mod encoding;
pub mod format;
pub mod integer_encoding;
pub mod model;
pub mod pack;
pub mod protocol;
pub mod test;
pub mod traits;
pub mod types;
pub mod value;
