//! A long-running script as a generator: each line it prints becomes the
//! text; its end is an error.

use vstd::prelude::*;

verus! {

/// A generator that follows a long-running script.
pub struct FolGen;

impl FolGen {
    pub fn new() -> (r: Self) {
        FolGen
    }
}

} // verus!
