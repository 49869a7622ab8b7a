//! Immutable storage layout of a single-file torrent.

use vstd::prelude::*;

verus! {

/// The fixed piece layout of one torrent: how many pieces there are, how
/// long each is, and where the downloaded content goes on disk.
///
/// Every piece is `piece_len` bytes long except the last, which is
/// `last_piece_len` bytes; the total download length ties the two together.
#[derive(Clone, Debug)]
pub struct StorageInfo {
    /// The number of pieces; at least one.
    pub piece_count: usize,
    /// The uniform length of a piece in bytes.
    pub piece_len: u32,
    /// The length of the last piece in bytes; between 1 and `piece_len`,
    /// strictly smaller exactly when the total is not a multiple of
    /// `piece_len`.
    pub last_piece_len: u32,
    /// The total download length: `(piece_count - 1) * piece_len
    /// + last_piece_len`.
    pub download_len: u64,
    /// The path of the destination file.
    pub download_path: String,
}

impl StorageInfo {
    /// Self-consistency of the layout, as the data model requires it.
    pub open spec fn wf(self) -> bool {
        &&& self.piece_count >= 1
        &&& self.piece_len >= 1
        &&& 1 <= self.last_piece_len <= self.piece_len
        &&& self.download_len as int == (self.piece_count - 1) * (self.piece_len as int)
            + self.last_piece_len as int
    }

    /// The length in bytes of piece `index`: `piece_len` for every piece but
    /// the last, `last_piece_len` for the last.
    pub open spec fn spec_piece_length(self, index: int) -> int {
        if index + 1 == self.piece_count {
            self.last_piece_len as int
        } else {
            self.piece_len as int
        }
    }

    /// Returns the length in bytes of piece `index`.
    pub fn piece_length(&self, index: usize) -> (r: u32)
        requires
            self.wf(),
            index < self.piece_count,
        ensures
            r == self.spec_piece_length(index as int),
    {
        if index + 1 == self.piece_count {
            self.last_piece_len
        } else {
            self.piece_len
        }
    }

    /// Checks the layout for self-consistency.
    ///
    /// The total-length equation is tested through subtraction, division and
    /// remainder so that no intermediate value can exceed `u64`.
    pub fn is_consistent(&self) -> (r: bool)
        ensures
            r == self.wf(),
    {
        if self.piece_count == 0 || self.piece_len == 0 || self.last_piece_len == 0
            || self.last_piece_len > self.piece_len {
            return false;
        }
        if self.download_len < self.last_piece_len as u64 {
            proof {
                vstd::arithmetic::mul::lemma_mul_nonnegative(
                    self.piece_count - 1,
                    self.piece_len as int,
                );
            }
            return false;
        }
        let rest: u64 = self.download_len - self.last_piece_len as u64;
        let l: u64 = self.piece_len as u64;
        let q: u64 = rest / l;
        let m: u64 = rest % l;
        proof {
            vstd::arithmetic::div_mod::lemma_fundamental_div_mod(rest as int, l as int);
            assert((self.piece_count - 1) * (self.piece_len as int) == (self.piece_len as int)
                * (self.piece_count - 1)) by (nonlinear_arith);
            if self.wf() {
                vstd::arithmetic::div_mod::lemma_fundamental_div_mod_converse(
                    rest as int,
                    l as int,
                    self.piece_count - 1,
                    0,
                );
            }
        }
        m == 0 && q == (self.piece_count - 1) as u64
    }
}

} // verus!
