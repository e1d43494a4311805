use vstd::prelude::*;

verus! {

use crate::config::BLOCK_SIZE;

/// The byte offset at which block `number` starts inside its file.
pub open spec fn spec_block_offset(number: u64) -> int {
    number * (BLOCK_SIZE as int)
}

/// The number of the block that one append-allocation creates, from the
/// file's current byte length: `file_len / BLOCK_SIZE`.
pub open spec fn spec_append_block_number(file_len: u64) -> int {
    file_len as int / (BLOCK_SIZE as int)
}

/// The byte offset at which that append writes its `BLOCK_SIZE` zero bytes.
pub open spec fn spec_append_write_offset(file_len: u64) -> int {
    spec_append_block_number(file_len) * (BLOCK_SIZE as int)
}

/// The file's byte length once those zero bytes are written.
pub open spec fn spec_append_new_len(file_len: u64) -> int {
    spec_append_write_offset(file_len) + BLOCK_SIZE
}

/// What one append-allocation does, computed from the file's current byte
/// length: the new block's number, the offset at which its zero bytes are
/// written, and the file's length afterwards.
pub struct AppendPlan {
    pub block_number: u64,
    pub write_offset: u64,
    pub new_len: u64,
}

/// The byte offset of block `number`, or `None` when `number * BLOCK_SIZE`
/// does not fit in a `u64`.
pub fn block_offset(number: u64) -> (r: Option<u64>)
    ensures
        spec_block_offset(number) <= u64::MAX ==> r == Some(spec_block_offset(number) as u64),
        spec_block_offset(number) > u64::MAX ==> r is None,
{
    number.checked_mul(BLOCK_SIZE as u64)
}

/// The plan for appending one fresh block to a file currently `file_len`
/// bytes long, or `None` when the grown file's length would not fit in a
/// `u64`.  A length that is not a multiple of `BLOCK_SIZE` is tolerated:
/// the write offset is then the last block boundary at or below it.
pub fn append_plan(file_len: u64) -> (r: Option<AppendPlan>)
    ensures
        spec_append_new_len(file_len) <= u64::MAX ==> (r matches Some(p) && p.block_number
            == spec_append_block_number(file_len) && p.write_offset == spec_append_write_offset(
            file_len,
        ) && p.new_len == spec_append_new_len(file_len)),
        spec_append_new_len(file_len) > u64::MAX ==> r is None,
{
    let number = file_len / (BLOCK_SIZE as u64);
    proof {
        vstd::arithmetic::div_mod::lemma_fundamental_div_mod(file_len as int, BLOCK_SIZE as int);
    }
    let offset = number * (BLOCK_SIZE as u64);
    match offset.checked_add(BLOCK_SIZE as u64) {
        Some(new_len) => Some(
            AppendPlan { block_number: number, write_offset: offset, new_len },
        ),
        None => None,
    }
}

/// Allocation sequencing: on an empty file the first append creates block 0
/// and leaves the file exactly `BLOCK_SIZE` bytes long; a second append on
/// that file then creates block 1 and leaves it `2 * BLOCK_SIZE` bytes long.
pub proof fn lemma_append_sequencing()
    ensures
        spec_append_block_number(0) == 0,
        spec_append_new_len(0) == BLOCK_SIZE,
        spec_append_block_number(BLOCK_SIZE as u64) == 1,
        spec_append_new_len(BLOCK_SIZE as u64) == 2 * BLOCK_SIZE,
{
}

/// On a block-aligned file of `k` blocks, an append creates block `k`, writes
/// it at the file's current end, and grows the file by one block.
pub proof fn lemma_append_on_aligned(file_len: u64)
    requires
        file_len as int % (BLOCK_SIZE as int) == 0,
    ensures
        spec_append_block_number(file_len) * (BLOCK_SIZE as int) == file_len,
        spec_append_write_offset(file_len) == file_len,
        spec_append_new_len(file_len) == file_len + BLOCK_SIZE,
{
    vstd::arithmetic::div_mod::lemma_fundamental_div_mod(file_len as int, BLOCK_SIZE as int);
}

} // verus!
