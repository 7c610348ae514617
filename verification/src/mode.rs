//! Modes of encoding: markers that let one type be encoded in more than one
//! way, chosen where encoding starts and handed on to every part of a value.

use vstd::prelude::*;

verus! {

/// The default mode, which is used where no other one is asked for.
#[derive(Debug, Clone, Copy, PartialEq, Eq)]
pub struct DefaultMode;

} // verus!
