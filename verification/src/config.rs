use vstd::prelude::*;

verus! {

/// Number of bytes in one block, and therefore in one page buffer.
pub const BLOCK_SIZE: usize = 4096;

} // verus!
