//! Disk I/O core of a BitTorrent client.
//!
//! The library buffers out-of-order block writes per piece, verifies each
//! completed piece against its expected SHA-1 digest, and decides which
//! alerts and positioned file writes follow from every command. All mutable
//! state lives in a single [`disk::Disk`] value that is driven sequentially;
//! the surrounding binary performs the actual file operations and message
//! passing that the state machine asks for.

use vstd::prelude::*;

pub mod disk;
pub mod error;
pub mod handle;
pub mod piece;
pub mod storage;

verus! {

/// A process-unique identifier for one torrent, assigned by the engine.
/// The core treats it as an equality-comparable key only.
pub type TorrentId = u32;

/// The size of a block in bytes, the unit in which peers transfer piece data.
/// Every block of a piece starts at a multiple of this size; all blocks are
/// exactly this long except the final block of a piece, which may be shorter.
pub const BLOCK_LEN: u32 = 0x4000;

/// The number of blocks that a piece of `piece_len` bytes is divided into:
/// the number of `BLOCK_LEN`-sized slots needed to cover the piece.
pub open spec fn spec_block_count(piece_len: int) -> int {
    (piece_len + BLOCK_LEN as int - 1) / (BLOCK_LEN as int)
}

/// The length of block `k` of a piece of `piece_len` bytes: `BLOCK_LEN` for
/// every block that fits wholly inside the piece, the remainder for the last.
pub open spec fn spec_slot_len(piece_len: int, k: int) -> int {
    if (k + 1) * (BLOCK_LEN as int) <= piece_len {
        BLOCK_LEN as int
    } else {
        piece_len - k * (BLOCK_LEN as int)
    }
}

/// A piece of at least one byte is covered by at least one block; its block
/// count is the least number of `BLOCK_LEN`-sized slots that reach its end.
pub proof fn lemma_block_count_bounds(piece_len: int)
    requires
        1 <= piece_len,
    ensures
        1 <= spec_block_count(piece_len),
        (spec_block_count(piece_len) - 1) * (BLOCK_LEN as int) < piece_len,
        piece_len <= spec_block_count(piece_len) * (BLOCK_LEN as int),
{
    let b = BLOCK_LEN as int;
    let x = piece_len + b - 1;
    vstd::arithmetic::div_mod::lemma_fundamental_div_mod(x, b);
}

/// Every block of a piece is between 1 and `BLOCK_LEN` bytes long.
pub proof fn lemma_slot_len_bounds(piece_len: int, k: int)
    requires
        1 <= piece_len,
        0 <= k < spec_block_count(piece_len),
    ensures
        1 <= spec_slot_len(piece_len, k) <= BLOCK_LEN as int,
        k * (BLOCK_LEN as int) + spec_slot_len(piece_len, k) <= piece_len,
{
    lemma_block_count_bounds(piece_len);
    let b = BLOCK_LEN as int;
    let bc = spec_block_count(piece_len);
    assert(k * b <= (bc - 1) * b) by (nonlinear_arith)
        requires k <= bc - 1, b >= 0;
}

/// Returns the number of blocks in a piece of `piece_len` bytes.
pub fn block_count(piece_len: u32) -> (r: usize)
    ensures
        r == spec_block_count(piece_len as int),
{
    (((piece_len as u64) + (BLOCK_LEN as u64) - 1) / (BLOCK_LEN as u64)) as usize
}

/// Returns the length in bytes of block `k` of a piece of `piece_len` bytes.
pub fn slot_len(piece_len: u32, k: usize) -> (r: u32)
    requires
        1 <= piece_len,
        k < spec_block_count(piece_len as int),
    ensures
        r == spec_slot_len(piece_len as int, k as int),
{
    proof {
        lemma_slot_len_bounds(piece_len as int, k as int);
    }
    let start: u64 = (k as u64) * (BLOCK_LEN as u64);
    if start + (BLOCK_LEN as u64) <= piece_len as u64 {
        BLOCK_LEN
    } else {
        ((piece_len as u64) - start) as u32
    }
}

/// Locates a sub-range of a piece: the piece's index, the byte offset of the
/// range within the piece, and its length in bytes.
#[derive(Clone, Copy, Debug, PartialEq, Eq, Structural)]
pub struct BlockInfo {
    /// The index of the piece the block belongs to.
    pub piece_index: usize,
    /// The byte offset of the block within its piece; always a multiple of
    /// `BLOCK_LEN`.
    pub offset: u32,
    /// The length of the block in bytes; at most `BLOCK_LEN`.
    pub len: u32,
}

/// The locator of block `k` of piece `piece_index`, for a piece of
/// `piece_len` bytes.
pub open spec fn spec_canonical_block(piece_index: usize, piece_len: int, k: int) -> BlockInfo {
    BlockInfo {
        piece_index,
        offset: (k * (BLOCK_LEN as int)) as u32,
        len: spec_slot_len(piece_len, k) as u32,
    }
}

/// Returns the locators of all blocks of piece `piece_index`, in ascending
/// offset order, for a piece of `piece_len` bytes.
pub fn piece_block_infos(piece_index: usize, piece_len: u32) -> (r: Vec<BlockInfo>)
    requires
        1 <= piece_len,
    ensures
        r@.len() == spec_block_count(piece_len as int),
        forall|k: int| 0 <= k < r@.len()
            ==> r@[k] == spec_canonical_block(piece_index, piece_len as int, k),
{
    let bc = block_count(piece_len);
    let mut r: Vec<BlockInfo> = Vec::new();
    let mut k: usize = 0;
    while k < bc
        invariant
            1 <= piece_len,
            bc == spec_block_count(piece_len as int),
            k <= bc,
            r@.len() == k,
            forall|j: int| 0 <= j < k
                ==> r@[j] == spec_canonical_block(piece_index, piece_len as int, j),
        decreases bc - k,
    {
        proof {
            lemma_slot_len_bounds(piece_len as int, k as int);
        }
        let offset: u32 = ((k as u64) * (BLOCK_LEN as u64)) as u32;
        let len: u32 = slot_len(piece_len, k);
        r.push(BlockInfo { piece_index, offset, len });
        k = k + 1;
    }
    r
}

} // verus!
