//! A serialisation framework with several wire formats behind one protocol.

pub mod compat;
pub mod context;
pub mod de;
pub mod en;
pub mod encoding;
pub mod error;
pub mod impls;
pub mod integer;
pub mod io;
pub mod json;
pub mod mode;
pub mod never;
pub mod reader;
pub mod results;
pub mod storage;
pub mod text;
pub mod value;
pub mod wire;
pub mod wrap;
pub mod writer;
