//! Per-piece accumulation of downloaded blocks.
//!
//! A [`PieceBuffer`] collects the blocks of one in-progress piece, one slot
//! per `BLOCK_LEN`-sized block, and hands out the assembled piece image once
//! every slot is filled.

use vstd::prelude::*;

use crate::{spec_block_count, spec_slot_len, lemma_block_count_bounds, lemma_slot_len_bounds,
    block_count, BLOCK_LEN};

verus! {

/// The number of filled slots in a slot sequence.
pub open spec fn count_some(s: Seq<Option<Seq<u8>>>) -> int
    decreases s.len(),
{
    if s.len() == 0 {
        0
    } else {
        count_some(s.drop_last()) + if s.last() is Some {
            1int
        } else {
            0int
        }
    }
}

/// The concatenation of the first `n` slots' payloads, in slot order.
pub open spec fn concat_upto(s: Seq<Option<Seq<u8>>>, n: int) -> Seq<u8>
    decreases n,
{
    if n <= 0 {
        Seq::empty()
    } else {
        concat_upto(s, n - 1) + s[n - 1].unwrap()
    }
}

/// The piece image that a fully filled slot sequence assembles to.
pub open spec fn spec_assembled(s: Seq<Option<Seq<u8>>>) -> Seq<u8> {
    concat_upto(s, s.len() as int)
}

pub proof fn lemma_count_some_le(s: Seq<Option<Seq<u8>>>)
    ensures
        0 <= count_some(s) <= s.len(),
    decreases s.len(),
{
    if s.len() > 0 {
        lemma_count_some_le(s.drop_last());
    }
}

/// Filling one empty slot raises the filled count by exactly one.
pub proof fn lemma_count_some_update(s: Seq<Option<Seq<u8>>>, k: int, d: Seq<u8>)
    requires
        0 <= k < s.len(),
        s[k] is None,
    ensures
        count_some(s.update(k, Some(d))) == count_some(s) + 1,
    decreases s.len(),
{
    let u = s.update(k, Some(d));
    if k == s.len() - 1 {
        assert(u.drop_last() =~= s.drop_last());
    } else {
        assert(u.drop_last() =~= s.drop_last().update(k, Some(d)));
        lemma_count_some_update(s.drop_last(), k, d);
    }
}

/// A slot sequence is fully filled exactly when its filled count reaches its
/// length.
pub proof fn lemma_count_some_full(s: Seq<Option<Seq<u8>>>)
    ensures
        count_some(s) == s.len() <==> (forall|k: int| 0 <= k < s.len() ==> s[k] is Some),
    decreases s.len(),
{
    if s.len() > 0 {
        lemma_count_some_full(s.drop_last());
        lemma_count_some_le(s.drop_last());
        if count_some(s) == s.len() {
            assert(forall|k: int| 0 <= k < s.len() - 1 ==> s[k] == s.drop_last()[k]);
        } else {
            if forall|k: int| 0 <= k < s.len() ==> s[k] is Some {
                assert(forall|k: int| 0 <= k < s.len() - 1 ==> s.drop_last()[k] == s[k]);
            }
        }
    }
}

/// Whether every slot of a slot sequence is filled: the piece is complete.
pub open spec fn spec_slots_complete(s: Seq<Option<Seq<u8>>>) -> bool {
    forall|k: int| 0 <= k < s.len() ==> s[k] is Some
}

/// Each accepted block fills exactly one empty slot, and the piece
/// completes exactly at the block that fills its last empty slot: an
/// incomplete buffer stays incomplete until then, so over any order in
/// which a piece's blocks arrive there is exactly one completion — and so
/// exactly one alert — per downloaded piece.
pub proof fn lemma_single_completion(s: Seq<Option<Seq<u8>>>, k: int, d: Seq<u8>)
    requires
        0 <= k < s.len(),
        s[k] is None,
    ensures
        !spec_slots_complete(s),
        count_some(s.update(k, Some(d))) == count_some(s) + 1,
        spec_slots_complete(s.update(k, Some(d))) <==> count_some(s) == s.len() - 1,
{
    lemma_count_some_update(s, k, d);
    lemma_count_some_full(s.update(k, Some(d)));
}

/// Whether slots `0 .. n` are filled and each holds a payload of its block's
/// length, for a piece of `piece_len` bytes.
pub open spec fn slots_sized(s: Seq<Option<Seq<u8>>>, piece_len: int, n: int) -> bool {
    forall|k: int| 0 <= k < n ==> #[trigger] s[k] is Some && s[k].unwrap().len() == spec_slot_len(
        piece_len,
        k,
    )
}

/// Concatenating `n` correctly sized slots yields `n * BLOCK_LEN` bytes,
/// capped by the piece length at the final block.
pub proof fn lemma_concat_upto_len(s: Seq<Option<Seq<u8>>>, piece_len: int, n: int)
    requires
        1 <= piece_len,
        0 <= n <= spec_block_count(piece_len),
        slots_sized(s, piece_len, n),
    ensures
        concat_upto(s, n).len() == if n == spec_block_count(piece_len) {
            piece_len
        } else {
            n * (BLOCK_LEN as int)
        },
    decreases n,
{
    lemma_block_count_bounds(piece_len);
    if n > 0 {
        lemma_concat_upto_len(s, piece_len, n - 1);
        lemma_slot_len_bounds(piece_len, n - 1);
    }
}

/// A fully filled, correctly sized slot sequence assembles to a piece image
/// of exactly the piece's length.
pub proof fn lemma_assembled_len(s: Seq<Option<Seq<u8>>>, piece_len: int)
    requires
        1 <= piece_len,
        s.len() == spec_block_count(piece_len),
        slots_sized(s, piece_len, s.len() as int),
    ensures
        spec_assembled(s).len() == piece_len,
{
    lemma_concat_upto_len(s, piece_len, s.len() as int);
}

/// The slot contents that describe a correctly downloaded piece: slot `k`
/// holds exactly the piece's bytes from `k * BLOCK_LEN` on.
pub open spec fn correct_slots(piece: Seq<u8>, piece_len: int) -> Seq<Option<Seq<u8>>> {
    Seq::new(
        spec_block_count(piece_len) as nat,
        |k: int|
            Some(
                piece.subrange(
                    k * (BLOCK_LEN as int),
                    k * (BLOCK_LEN as int) + spec_slot_len(piece_len, k),
                ),
            ),
    )
}

/// If every slot holds the correct payload for its block, the buffer
/// assembles to the original piece. Together with the contract of
/// `Disk::write_block` this is the round-trip law: writing every block of a
/// piece with the correct payload completes the piece with an image whose
/// digest is the digest of the piece itself.
pub proof fn lemma_correct_slots_assemble(piece: Seq<u8>, piece_len: int)
    requires
        1 <= piece_len,
        piece.len() == piece_len,
    ensures
        spec_assembled(correct_slots(piece, piece_len)) == piece,
{
    let s = correct_slots(piece, piece_len);
    lemma_block_count_bounds(piece_len);
    assert forall|n: int| 0 <= n <= s.len() implies concat_upto(s, n) =~= piece.subrange(
        0,
        if n == spec_block_count(piece_len) {
            piece_len
        } else {
            n * (BLOCK_LEN as int)
        },
    ) by {
        lemma_correct_slots_concat(piece, piece_len, n);
    }
    assert(spec_assembled(s) =~= piece.subrange(0, piece_len));
    assert(piece.subrange(0, piece_len) =~= piece);
}

proof fn lemma_correct_slots_concat(piece: Seq<u8>, piece_len: int, n: int)
    requires
        1 <= piece_len,
        piece.len() == piece_len,
        0 <= n <= spec_block_count(piece_len),
    ensures
        concat_upto(correct_slots(piece, piece_len), n) =~= piece.subrange(
            0,
            if n == spec_block_count(piece_len) {
                piece_len
            } else {
                n * (BLOCK_LEN as int)
            },
        ),
    decreases n,
{
    lemma_block_count_bounds(piece_len);
    if n > 0 {
        lemma_correct_slots_concat(piece, piece_len, n - 1);
        lemma_slot_len_bounds(piece_len, n - 1);
    }
}

/// Accumulates the blocks of one in-progress piece: one slot per
/// `BLOCK_LEN`-sized block, filled as blocks arrive, plus the running count
/// of filled slots.
pub struct PieceBuffer {
    /// The expected length of the piece in bytes.
    piece_len: u32,
    /// One slot per block of the piece, in offset order.
    slots: Vec<Option<Vec<u8>>>,
    /// How many slots are filled.
    filled: usize,
}

impl View for PieceBuffer {
    type V = Seq<Option<Seq<u8>>>;

    closed spec fn view(&self) -> Seq<Option<Seq<u8>>> {
        Seq::new(self.slots@.len(), |k: int| match self.slots@[k] {
            Some(d) => Some(d@),
            None => None,
        })
    }
}

impl PieceBuffer {
    /// The expected length of the piece in bytes.
    pub closed spec fn spec_piece_len(self) -> int {
        self.piece_len as int
    }

    /// How many slots are filled.
    pub closed spec fn spec_filled(self) -> int {
        self.filled as int
    }

    /// Internal consistency: one slot per block, each filled slot holding a
    /// payload of its block's length, and the filled count matching the
    /// slots.
    pub closed spec fn inv(self) -> bool {
        &&& 1 <= self.piece_len
        &&& self.slots@.len() == spec_block_count(self.piece_len as int)
        &&& forall|k: int| 0 <= k < self.slots@.len() ==> (#[trigger] self.slots@[k] matches Some(d)
            ==> d@.len() == spec_slot_len(self.piece_len as int, k))
        &&& self.filled == count_some(self@)
    }

    /// Whether every block of the piece has arrived.
    pub open spec fn spec_complete(self) -> bool {
        forall|k: int| 0 <= k < self@.len() ==> self@[k] is Some
    }

    /// What internal consistency guarantees about the buffer's shape: one
    /// slot per block of the piece, each filled slot as long as its block.
    pub proof fn lemma_inv_facts(self)
        requires
            self.inv(),
        ensures
            1 <= self.spec_piece_len(),
            self@.len() == spec_block_count(self.spec_piece_len()),
            forall|k: int| 0 <= k < self@.len() ==> (#[trigger] self@[k] matches Some(d)
                ==> d.len() == spec_slot_len(self.spec_piece_len(), k)),
    {
        assert forall|k: int| 0 <= k < self@.len() implies (#[trigger] self@[k] matches Some(d)
            ==> d.len() == spec_slot_len(self.spec_piece_len(), k)) by {
            assert(self@[k] is Some ==> self.slots@[k] is Some);
        }
    }

    /// Creates an empty buffer for a piece of `piece_len` bytes.
    pub fn new(piece_len: u32) -> (r: PieceBuffer)
        requires
            1 <= piece_len,
        ensures
            r.inv(),
            r.spec_piece_len() == piece_len,
            r.spec_filled() == 0,
            r@.len() == spec_block_count(piece_len as int),
            forall|k: int| 0 <= k < r@.len() ==> r@[k] is None,
    {
        let bc = block_count(piece_len);
        let mut slots: Vec<Option<Vec<u8>>> = Vec::new();
        let mut k: usize = 0;
        while k < bc
            invariant
                k <= bc,
                slots@.len() == k,
                forall|j: int| 0 <= j < k ==> slots@[j] is None,
            decreases bc - k,
        {
            slots.push(None);
            k = k + 1;
        }
        let r = PieceBuffer { piece_len, slots, filled: 0 };
        proof {
            assert forall|j: int| 0 <= j < r@.len() implies r@[j] is None by {}
            lemma_count_some_none(r@);
        }
        r
    }

    /// Whether the block in slot `k` has already arrived.
    pub fn has_slot(&self, k: usize) -> (r: bool)
        requires
            self.inv(),
            k < self@.len(),
        ensures
            r == (self@[k as int] is Some),
    {
        self.slots[k].is_some()
    }

    /// Stores the payload of block `k`. The slot must be empty and the
    /// payload exactly as long as the block.
    pub fn insert(&mut self, k: usize, data: Vec<u8>)
        requires
            old(self).inv(),
            k < old(self)@.len(),
            old(self)@[k as int] is None,
            data@.len() == spec_slot_len(old(self).spec_piece_len(), k as int),
        ensures
            final(self).inv(),
            final(self)@ == old(self)@.update(k as int, Some(data@)),
            final(self).spec_piece_len() == old(self).spec_piece_len(),
            final(self).spec_filled() == old(self).spec_filled() + 1,
    {
        proof {
            lemma_count_some_le(self@);
            lemma_count_some_full(self@);
        }
        let slot = &mut self.slots[k];
        *slot = Some(data);
        self.filled = self.filled + 1;
        proof {
            assert(self@ =~= old(self)@.update(k as int, Some(data@)));
            lemma_count_some_update(old(self)@, k as int, data@);
        }
    }

    /// Whether the piece is complete: every slot filled.
    pub fn is_complete(&self) -> (r: bool)
        requires
            self.inv(),
        ensures
            r == self.spec_complete(),
    {
        proof {
            lemma_count_some_full(self@);
        }
        self.filled == self.slots.len()
    }

    /// Concatenates the filled slots into the piece image, in offset order.
    pub fn assemble(&self) -> (r: Vec<u8>)
        requires
            self.inv(),
            self.spec_complete(),
        ensures
            r@ == spec_assembled(self@),
            r@.len() == self.spec_piece_len(),
    {
        let mut out: Vec<u8> = Vec::new();
        let n = self.slots.len();
        let mut k: usize = 0;
        while k < n
            invariant
                self.inv(),
                self.spec_complete(),
                n == self.slots@.len(),
                k <= n,
                out@ == concat_upto(self@, k as int),
            decreases n - k,
        {
            let d: &Vec<u8> = self.slots[k].as_ref().unwrap();
            let m = d.len();
            let mut j: usize = 0;
            while j < m
                invariant
                    self.inv(),
                    n == self.slots@.len(),
                    k < n,
                    m == d@.len(),
                    d@ == self@[k as int].unwrap(),
                    j <= m,
                    out@ == concat_upto(self@, k as int) + d@.subrange(0, j as int),
                decreases m - j,
            {
                out.push(d[j]);
                proof {
                    assert(out@ =~= concat_upto(self@, k as int) + d@.subrange(0, j + 1));
                }
                j = j + 1;
            }
            proof {
                assert(d@.subrange(0, m as int) =~= d@);
                assert(out@ =~= concat_upto(self@, k as int + 1));
            }
            k = k + 1;
        }
        proof {
            lemma_assembled_len(self@, self.spec_piece_len());
        }
        out
    }
}

/// An all-empty slot sequence has a filled count of zero.
proof fn lemma_count_some_none(s: Seq<Option<Seq<u8>>>)
    requires
        forall|k: int| 0 <= k < s.len() ==> s[k] is None,
    ensures
        count_some(s) == 0,
    decreases s.len(),
{
    if s.len() > 0 {
        assert(forall|k: int| 0 <= k < s.len() - 1 ==> s.drop_last()[k] == s[k]);
        lemma_count_some_none(s.drop_last());
    }
}

} // verus!
