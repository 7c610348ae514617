//! The JSON format.

pub mod de;
pub mod en;
pub mod encoding;
pub mod protocol;
pub mod reader;
pub mod value;
