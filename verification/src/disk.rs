//! The disk core: a registry of torrents driven by commands.
//!
//! A [`Disk`] owns every torrent's piece buffers and decides, for each
//! command, which alert to emit and which positioned file write to perform.
//! It does no file or channel I/O itself: the caller creates the destination
//! file between [`Disk::prepare_allocation`] and [`Disk::commit_allocation`],
//! and performs the write that a [`WriteOutcome::Ready`] asks for before
//! turning it into an alert with [`batch_write_alert`].

use vstd::prelude::*;

use crate::{BlockInfo, TorrentId, BLOCK_LEN, spec_block_count, spec_slot_len,
    spec_canonical_block, lemma_block_count_bounds, slot_len, piece_block_infos};
use crate::error::{NewTorrentError, WriteError};
use crate::piece::{PieceBuffer, spec_assembled, spec_slots_complete, correct_slots,
    lemma_correct_slots_assemble};
use crate::storage::StorageInfo;

verus! {

/// The SHA-1 digest of a byte sequence, as the hash function that the
/// BitTorrent protocol mandates computes it.
pub uninterp spec fn sha1_of(bytes: Seq<u8>) -> Seq<u8>;

/// Relies on `sha1::Sha1` through the `Digest` trait: the digest depends on
/// the input bytes alone and is always 20 bytes long.
#[verifier::external_body]
fn sha1_digest(data: &Vec<u8>) -> (r: Vec<u8>)
    ensures
        r@ == sha1_of(data@),
        r@.len() == 20,
{
    <sha1::Sha1 as sha1::Digest>::digest(data.as_slice()).to_vec()
}

/// The expected digest of piece `i`: the i-th 20-byte slice of the torrent's
/// flat piece hash buffer.
pub open spec fn spec_expected_digest(hashes: Seq<u8>, i: int) -> Seq<u8> {
    hashes.subrange(20 * i, 20 * i + 20)
}

/// Compares a computed 20-byte digest against the expected digest of piece
/// `i`, byte for byte.
fn digest_matches(digest: &Vec<u8>, hashes: &Vec<u8>, i: usize) -> (r: bool)
    requires
        digest@.len() == 20,
        20 * (i as int) + 20 <= hashes@.len(),
    ensures
        r == (digest@ == spec_expected_digest(hashes@, i as int)),
{
    let total = hashes.len();
    let base: usize = 20 * i;
    let mut j: usize = 0;
    while j < 20
        invariant
            digest@.len() == 20,
            base == 20 * (i as int),
            base + 20 <= hashes@.len(),
            total == hashes@.len(),
            j <= 20,
            forall|m: int| 0 <= m < j ==> digest@[m] == hashes@[base + m],
        decreases 20 - j,
    {
        if digest[j] != hashes[base + j] {
            assert(digest@[j as int] != spec_expected_digest(hashes@, i as int)[j as int]);
            return false;
        }
        j = j + 1;
    }
    proof {
        assert(digest@ =~= spec_expected_digest(hashes@, i as int));
    }
    true
}

/// A command that the disk task executes.
#[allow(inconsistent_fields)]
pub enum Command {
    /// Allocate a new torrent: reserve its destination file and register its
    /// layout and expected piece hashes.
    NewTorrent { id: TorrentId, info: StorageInfo, piece_hashes: Vec<u8> },
    /// Write a block to disk, once its piece is complete and verified.
    WriteBlock { id: TorrentId, info: BlockInfo, data: Vec<u8> },
    /// Shut the disk task down.
    Shutdown,
}

/// The outcome of a batch of block writes, reported on a torrent's own alert
/// channel once the containing piece is finalised.
pub struct BatchWrite {
    /// The blocks that were written to disk in this batch, empty if the
    /// piece was invalid.
    pub blocks: Vec<BlockInfo>,
    /// Whether the completed piece's digest matched its expected digest.
    pub is_piece_valid: Option<bool>,
}

/// An alert about one torrent: a batch of its blocks was written, or failed.
pub enum TorrentAlert {
    /// Some blocks were finalised, or an error occurred on the way.
    BatchWrite(Result<BatchWrite, WriteError>),
}

/// What a `WriteBlock` command led to.
pub enum WriteOutcome {
    /// The torrent is not in the registry; the block was dropped silently.
    Ignored,
    /// The block was buffered; its piece is still incomplete. No alert.
    Buffered,
    /// A block at the same offset was already buffered; nothing changed and
    /// no alert is due.
    Duplicate,
    /// The piece was finalised without touching the disk: either the block
    /// was invalid, or the completed piece's digest did not match. The
    /// enclosed alert reports which.
    Finalised(TorrentAlert),
    /// The piece completed and its digest matched: the caller must write
    /// `data` at absolute file offset `file_offset` and then report the
    /// outcome with [`batch_write_alert`].
    Ready { file_offset: u64, data: Vec<u8>, blocks: Vec<BlockInfo> },
}

/// The alert that follows a [`WriteOutcome::Ready`] once the positioned
/// write has been attempted: the batch with its blocks on success, an I/O
/// error otherwise.
pub fn batch_write_alert(blocks: Vec<BlockInfo>, write_ok: bool) -> (r: TorrentAlert)
    ensures
        write_ok ==> (r matches TorrentAlert::BatchWrite(Ok(b)) && b.blocks@ == blocks@
            && b.is_piece_valid == Some(true)),
        !write_ok ==> r matches TorrentAlert::BatchWrite(Err(WriteError::Io)),
{
    if write_ok {
        TorrentAlert::BatchWrite(Ok(BatchWrite { blocks, is_piece_valid: Some(true) }))
    } else {
        TorrentAlert::BatchWrite(Err(WriteError::Io))
    }
}

/// Whether the metadata of a `NewTorrent` command is acceptable: a
/// self-consistent layout and one 20-byte digest per piece.
pub open spec fn spec_metadata_ok(info: StorageInfo, hashes: Seq<u8>) -> bool {
    &&& info.wf()
    &&& hashes.len() == 20 * info.piece_count
}

/// Whether a block names a valid range: an existing piece, a
/// `BLOCK_LEN`-aligned offset inside it, the exact length of the block slot
/// it names, and a payload of that length.
pub open spec fn spec_block_ok(sinfo: StorageInfo, b: BlockInfo, data_len: int) -> bool {
    &&& (b.piece_index as int) < sinfo.piece_count as int
    &&& b.offset as int % (BLOCK_LEN as int) == 0
    &&& (b.offset as int) < sinfo.spec_piece_length(b.piece_index as int)
    &&& b.len as int == spec_slot_len(
        sinfo.spec_piece_length(b.piece_index as int),
        spec_block_slot(b),
    )
    &&& data_len == b.len as int
}

/// The index of the block slot that a block occupies within its piece.
pub open spec fn spec_block_slot(b: BlockInfo) -> int {
    b.offset as int / (BLOCK_LEN as int)
}

/// Checks a block against the torrent's layout.
fn block_ok(sinfo: &StorageInfo, b: &BlockInfo, data_len: usize) -> (r: bool)
    requires
        sinfo.wf(),
    ensures
        r == spec_block_ok(*sinfo, *b, data_len as int),
{
    if b.piece_index >= sinfo.piece_count {
        return false;
    }
    let pl = sinfo.piece_length(b.piece_index);
    if b.offset % BLOCK_LEN != 0 || b.offset >= pl {
        return false;
    }
    let k = (b.offset / BLOCK_LEN) as usize;
    proof {
        vstd::arithmetic::div_mod::lemma_fundamental_div_mod(b.offset as int, BLOCK_LEN as int);
        lemma_block_count_bounds(pl as int);
    }
    let sl = slot_len(pl, k);
    b.len == sl && data_len == b.len as usize
}

/// The slot contents of piece `i` as the next block sees them: the buffer's
/// slots if one is open, all-empty slots otherwise.
pub open spec fn spec_piece_slots(t: TorrentEntry, i: int) -> Seq<Option<Seq<u8>>> {
    match t.piece_state(i) {
        Some(v) => v,
        None => Seq::new(
            spec_block_count(t.spec_info().spec_piece_length(i)) as nat,
            |k: int| None,
        ),
    }
}

/// Whether two torrent entries carry the same observable state: the same
/// id, layout, hashes, and in-progress pieces.
pub open spec fn same_entry_state(a: TorrentEntry, b: TorrentEntry) -> bool {
    &&& a.spec_id() == b.spec_id()
    &&& a.spec_info() == b.spec_info()
    &&& a.spec_hashes() == b.spec_hashes()
    &&& forall|j: int| 0 <= j < a.spec_info().piece_count
        ==> #[trigger] a.piece_state(j) == b.piece_state(j)
}

/// One torrent's state: its layout, its expected piece hashes, and a buffer
/// per in-progress piece.
pub struct TorrentEntry {
    /// The torrent's id.
    id: TorrentId,
    /// The torrent's storage layout.
    info: StorageInfo,
    /// The flat buffer of expected piece digests, 20 bytes per piece.
    piece_hashes: Vec<u8>,
    /// One slot per piece, holding the buffer of an in-progress piece.
    bufs: Vec<Option<PieceBuffer>>,
}

impl TorrentEntry {
    /// The torrent's id.
    pub closed spec fn spec_id(self) -> TorrentId {
        self.id
    }

    /// The torrent's storage layout.
    pub closed spec fn spec_info(self) -> StorageInfo {
        self.info
    }

    /// The torrent's flat piece hash buffer.
    pub closed spec fn spec_hashes(self) -> Seq<u8> {
        self.piece_hashes@
    }

    /// The slot contents of piece `i`'s buffer, or `None` when the piece is
    /// not in progress.
    pub closed spec fn piece_state(self, i: int) -> Option<Seq<Option<Seq<u8>>>> {
        match self.bufs@[i] {
            Some(b) => Some(b@),
            None => None,
        }
    }

    /// Internal consistency: a well-formed layout, one 20-byte digest and
    /// one buffer slot per piece, and every open buffer incomplete, sized
    /// for its piece.
    pub closed spec fn inv(self) -> bool {
        &&& self.info.wf()
        &&& self.piece_hashes@.len() == 20 * self.info.piece_count
        &&& self.bufs@.len() == self.info.piece_count
        &&& forall|i: int| 0 <= i < self.bufs@.len() ==> (#[trigger] self.bufs@[i] matches Some(b)
            ==> b.inv() && b.spec_piece_len() == self.info.spec_piece_length(i)
            && !b.spec_complete())
    }

    /// Creates the entry of a freshly allocated torrent: no piece in
    /// progress.
    fn new(id: TorrentId, info: StorageInfo, piece_hashes: Vec<u8>) -> (r: TorrentEntry)
        requires
            spec_metadata_ok(info, piece_hashes@),
        ensures
            r.inv(),
            r.spec_id() == id,
            r.spec_info() == info,
            r.spec_hashes() == piece_hashes@,
            forall|i: int| 0 <= i < info.piece_count ==> r.piece_state(i) is None,
    {
        let n = info.piece_count;
        let mut bufs: Vec<Option<PieceBuffer>> = Vec::new();
        let mut i: usize = 0;
        while i < n
            invariant
                i <= n,
                bufs@.len() == i,
                forall|j: int| 0 <= j < i ==> bufs@[j] is None,
            decreases n - i,
        {
            bufs.push(None);
            i = i + 1;
        }
        TorrentEntry { id, info, piece_hashes, bufs }
    }

    /// Applies one block to this torrent, as the `WriteBlock` command asks:
    /// validates it, buffers it, and finalises its piece on completion.
    ///
    /// The contract is the per-piece state machine. An invalid block fails
    /// its piece; a duplicate changes nothing; an accepted block fills its
    /// slot; and the block that fills the last empty slot completes the
    /// piece, whose assembled image is accepted exactly when its SHA-1
    /// digest equals the expected digest. A finalised piece's buffer is
    /// dropped either way.
    fn apply_block(&mut self, b: BlockInfo, data: Vec<u8>) -> (r: WriteOutcome)
        requires
            old(self).inv(),
        ensures
            final(self).inv(),
            !(r is Ignored),
            spec_write_block_post(*old(self), *final(self), b, data@, r),
    {
        let i = b.piece_index;
        if !block_ok(&self.info, &b, data.len()) {
            if i < self.info.piece_count {
                let slot = vstd::std_specs::vec::vec_index_mut(&mut self.bufs, i);
                *slot = None;
            }
            return WriteOutcome::Finalised(TorrentAlert::BatchWrite(Err(WriteError::InvalidBlock)));
        }
        let pl = self.info.piece_length(i);
        let k = (b.offset / BLOCK_LEN) as usize;
        proof {
            vstd::arithmetic::div_mod::lemma_fundamental_div_mod(b.offset as int, BLOCK_LEN as int);
            lemma_block_count_bounds(pl as int);
            if spec_block_slot(b) >= spec_block_count(pl as int) {
                vstd::arithmetic::mul::lemma_mul_inequality(
                    spec_block_count(pl as int),
                    spec_block_slot(b),
                    BLOCK_LEN as int,
                );
            }
            assert(k < spec_block_count(pl as int));
        }
        let ghost slots0 = spec_piece_slots(*old(self), i as int);
        let slot = vstd::std_specs::vec::vec_index_mut(&mut self.bufs, i);
        let cur: Option<PieceBuffer> = slot.take();
        let mut pb: PieceBuffer = match cur {
            Some(pb) => pb,
            None => PieceBuffer::new(pl),
        };
        proof {
            if old(self).bufs@[i as int] is Some {
                old(self).bufs@[i as int].unwrap().lemma_inv_facts();
            }
            assert(pb.inv());
            pb.lemma_inv_facts();
            assert(pb@.len() == spec_block_count(pl as int));
            assert(pb@ =~= slots0);
        }
        if pb.has_slot(k) {
            *slot = Some(pb);
            proof {
                assert(self.bufs@ =~= old(self).bufs@);
            }
            return WriteOutcome::Duplicate;
        }
        pb.insert(k, data);
        if !pb.is_complete() {
            *slot = Some(pb);
            return WriteOutcome::Buffered;
        }
        // the piece is complete: assemble it, hash it, and drop the buffer
        let image = pb.assemble();
        let digest = sha1_digest(&image);
        let accepted = digest_matches(&digest, &self.piece_hashes, i);
        if !accepted {
            return WriteOutcome::Finalised(
                TorrentAlert::BatchWrite(
                    Ok(BatchWrite { blocks: Vec::new(), is_piece_valid: Some(false) }),
                ),
            );
        }
        proof {
            vstd::arithmetic::mul::lemma_mul_inequality(
                i as int,
                self.info.piece_count - 1,
                self.info.piece_len as int,
            );
        }
        let file_offset: u64 = (i as u64) * (self.info.piece_len as u64);
        let blocks = piece_block_infos(i, pl);
        WriteOutcome::Ready { file_offset, data: image, blocks }
    }
}

/// The registry of torrents: all state that the disk task owns.
///
/// The registry maps torrent ids to their entries; ids are unique, and an
/// entry, once inserted, is never removed. Commands are applied strictly one
/// after the other, so every alert for a torrent is produced by the command
/// that finalised the corresponding piece, in command order.
pub struct Disk {
    /// The registered torrents, in allocation order.
    torrents: Vec<TorrentEntry>,
}

impl Disk {
    /// The registered torrents, in allocation order.
    pub closed spec fn spec_torrents(self) -> Seq<TorrentEntry> {
        self.torrents@
    }

    /// Whether a torrent with this id is registered.
    pub open spec fn has_torrent(self, id: TorrentId) -> bool {
        exists|j: int| 0 <= j < self.spec_torrents().len()
            && #[trigger] self.spec_torrents()[j].spec_id() == id
    }

    /// The position of the torrent with this id in the registry.
    pub open spec fn torrent_index(self, id: TorrentId) -> int {
        choose|j: int| 0 <= j < self.spec_torrents().len()
            && #[trigger] self.spec_torrents()[j].spec_id() == id
    }

    /// The entry of the torrent with this id.
    pub open spec fn torrent(self, id: TorrentId) -> TorrentEntry {
        self.spec_torrents()[self.torrent_index(id)]
    }

    /// Internal consistency: every entry consistent, and ids unique.
    pub closed spec fn inv(self) -> bool {
        &&& forall|j: int| 0 <= j < self.torrents@.len() ==> (#[trigger] self.torrents@[j]).inv()
        &&& forall|j: int, m: int| 0 <= j < self.torrents@.len() && 0 <= m < self.torrents@.len()
            && j != m ==> self.torrents@[j].spec_id() != self.torrents@[m].spec_id()
    }

    /// With unique ids, the entry found at a position is the entry that the
    /// registry associates with its id.
    proof fn lemma_index_for(self, j: int)
        requires
            self.inv(),
            0 <= j < self.spec_torrents().len(),
        ensures
            self.has_torrent(self.spec_torrents()[j].spec_id()),
            self.torrent_index(self.spec_torrents()[j].spec_id()) == j,
            self.torrent(self.spec_torrents()[j].spec_id()) == self.spec_torrents()[j],
    {
        let id = self.spec_torrents()[j].spec_id();
        assert(self.has_torrent(id));
        let m = self.torrent_index(id);
        assert(0 <= m < self.spec_torrents().len() && self.spec_torrents()[m].spec_id() == id);
        assert(m == j);
    }

    /// Creates an empty registry.
    pub fn new() -> (r: Disk)
        ensures
            r.inv(),
            forall|id: TorrentId| !r.has_torrent(id),
    {
        Disk { torrents: Vec::new() }
    }

    /// Looks the torrent with this id up.
    fn find_torrent(&self, id: TorrentId) -> (r: Option<usize>)
        requires
            self.inv(),
        ensures
            match r {
                Some(j) => j < self.spec_torrents().len()
                    && self.spec_torrents()[j as int].spec_id() == id,
                None => !self.has_torrent(id),
            },
    {
        let n = self.torrents.len();
        let mut j: usize = 0;
        while j < n
            invariant
                n == self.spec_torrents().len(),
                j <= n,
                forall|m: int| 0 <= m < j ==> self.spec_torrents()[m].spec_id() != id,
            decreases n - j,
        {
            if self.torrents[j].id == id {
                return Some(j);
            }
            j = j + 1;
        }
        None
    }

    /// Whether a torrent with this id is registered.
    pub fn contains_torrent(&self, id: TorrentId) -> (r: bool)
        requires
            self.inv(),
        ensures
            r == self.has_torrent(id),
    {
        proof {
            if self.has_torrent(id) {
                self.lemma_index_for(self.torrent_index(id));
            }
        }
        self.find_torrent(id).is_some()
    }

    /// Validates a `NewTorrent` command against the registry, without
    /// changing anything: a torrent whose id is already registered is
    /// refused as `AlreadyExists`; otherwise inconsistent metadata is
    /// refused as `InvalidMetadata`.
    ///
    /// On `Ok` the caller creates the destination file, pre-sized to the
    /// full download length, and then registers the torrent with
    /// [`Disk::commit_allocation`]; a file-system failure is reported as an
    /// `Io` allocation error instead, and nothing is registered.
    pub fn prepare_allocation(
        &self,
        id: TorrentId,
        info: &StorageInfo,
        piece_hashes: &Vec<u8>,
    ) -> (r: Result<(), NewTorrentError>)
        requires
            self.inv(),
        ensures
            r is Ok <==> !self.has_torrent(id) && spec_metadata_ok(*info, piece_hashes@),
            r == Result::<(), NewTorrentError>::Err(NewTorrentError::AlreadyExists)
                <==> self.has_torrent(id),
            r == Result::<(), NewTorrentError>::Err(NewTorrentError::InvalidMetadata)
                <==> !self.has_torrent(id) && !spec_metadata_ok(*info, piece_hashes@),
    {
        if self.find_torrent(id).is_some() {
            proof {
                assert(self.has_torrent(id));
            }
            return Err(NewTorrentError::AlreadyExists);
        }
        if !info.is_consistent() {
            return Err(NewTorrentError::InvalidMetadata);
        }
        let hash_len = piece_hashes.len();
        proof {
            vstd::arithmetic::div_mod::lemma_fundamental_div_mod(usize::MAX as int, 20);
        }
        if info.piece_count > usize::MAX / 20 {
            return Err(NewTorrentError::InvalidMetadata);
        }
        if hash_len != 20 * info.piece_count {
            return Err(NewTorrentError::InvalidMetadata);
        }
        Ok(())
    }

    /// Registers a torrent whose destination file has been created: inserts
    /// a fresh entry with no piece in progress. Everything else in the
    /// registry is untouched, and the new id is registered from now on.
    pub fn commit_allocation(&mut self, id: TorrentId, info: StorageInfo, piece_hashes: Vec<u8>)
        requires
            old(self).inv(),
            !old(self).has_torrent(id),
            spec_metadata_ok(info, piece_hashes@),
        ensures
            final(self).inv(),
            forall|x: TorrentId| final(self).has_torrent(x)
                <==> old(self).has_torrent(x) || x == id,
            final(self).torrent(id).spec_id() == id,
            final(self).torrent(id).spec_info() == info,
            final(self).torrent(id).spec_hashes() == piece_hashes@,
            forall|i: int| 0 <= i < info.piece_count
                ==> final(self).torrent(id).piece_state(i) is None,
            forall|x: TorrentId| x != id && old(self).has_torrent(x)
                ==> final(self).torrent(x) == old(self).torrent(x),
    {
        let entry = TorrentEntry::new(id, info, piece_hashes);
        self.torrents.push(entry);
        proof {
            let pre = *old(self);
            let post = *self;
            let n = pre.spec_torrents().len() as int;
            assert(post.spec_torrents() == pre.spec_torrents().push(entry));
            assert forall|j: int| 0 <= j < post.torrents@.len() implies (
                #[trigger] post.torrents@[j]).inv() by {
                if j < n {
                    assert(pre.torrents@[j].inv());
                }
            }
            assert(post.inv());
            assert forall|x: TorrentId| post.has_torrent(x) implies pre.has_torrent(x) || x == id by {
                let j = choose|j: int| 0 <= j < post.spec_torrents().len()
                    && #[trigger] post.spec_torrents()[j].spec_id() == x;
                if j < n {
                    assert(pre.spec_torrents()[j].spec_id() == x);
                }
            }
            assert forall|x: TorrentId| pre.has_torrent(x) implies post.has_torrent(x) by {
                let j = choose|j: int| 0 <= j < pre.spec_torrents().len()
                    && #[trigger] pre.spec_torrents()[j].spec_id() == x;
                assert(post.spec_torrents()[j].spec_id() == x);
            }
            assert(post.spec_torrents()[n].spec_id() == id);
            assert(post.has_torrent(id));
            post.lemma_index_for(n);
            assert forall|x: TorrentId| x != id && pre.has_torrent(x) implies post.torrent(x)
                == pre.torrent(x) by {
                let j = pre.torrent_index(x);
                pre.lemma_index_for(j);
                assert(post.spec_torrents()[j].spec_id() == x);
                post.lemma_index_for(j);
            }
        }
    }

    /// Applies a `WriteBlock` command: hands the block to its torrent's
    /// entry, whose contract describes the buffering, validation, and
    /// finalisation that follow. A block for an unregistered torrent is
    /// dropped silently. No other torrent is touched.
    pub fn write_block(&mut self, id: TorrentId, info: BlockInfo, data: Vec<u8>) -> (r:
        WriteOutcome)
        requires
            old(self).inv(),
        ensures
            final(self).inv(),
            forall|x: TorrentId| final(self).has_torrent(x) == old(self).has_torrent(x),
            !old(self).has_torrent(id) ==> r is Ignored && *final(self) == *old(self),
            forall|x: TorrentId| x != id && old(self).has_torrent(x)
                ==> final(self).torrent(x) == old(self).torrent(x),
            old(self).has_torrent(id) ==> !(r is Ignored) && spec_write_block_post(
                old(self).torrent(id),
                final(self).torrent(id),
                info,
                data@,
                r,
            ),
    {
        let j = match self.find_torrent(id) {
            Some(j) => j,
            None => {
                return WriteOutcome::Ignored;
            },
        };
        proof {
            old(self).lemma_index_for(j as int);
        }
        let entry = vstd::std_specs::vec::vec_index_mut(&mut self.torrents, j);
        let r = entry.apply_block(info, data);
        proof {
            let pre = *old(self);
            let post = *self;
            assert(post.spec_torrents() == pre.spec_torrents().update(j as int, post.spec_torrents()[j as int]));
            assert forall|m: int| 0 <= m < post.torrents@.len() implies (
                #[trigger] post.torrents@[m]).inv() by {
                if m != j as int {
                    assert(pre.torrents@[m].inv());
                }
            }
            assert(post.inv());
            assert forall|x: TorrentId| post.has_torrent(x) == pre.has_torrent(x) by {
                if post.has_torrent(x) {
                    let m = choose|m: int| 0 <= m < post.spec_torrents().len()
                        && #[trigger] post.spec_torrents()[m].spec_id() == x;
                    assert(pre.spec_torrents()[m].spec_id() == x);
                }
                if pre.has_torrent(x) {
                    let m = choose|m: int| 0 <= m < pre.spec_torrents().len()
                        && #[trigger] pre.spec_torrents()[m].spec_id() == x;
                    assert(post.spec_torrents()[m].spec_id() == x);
                }
            }
            post.lemma_index_for(j as int);
            assert(post.torrent(id) == post.spec_torrents()[j as int]);
            assert forall|x: TorrentId| x != id && pre.has_torrent(x) implies post.torrent(x)
                == pre.torrent(x) by {
                let m = pre.torrent_index(x);
                pre.lemma_index_for(m);
                assert(post.spec_torrents()[m].spec_id() == x);
                post.lemma_index_for(m);
            }
        }
        r
    }
}

/// What applying one block to a torrent's entry leaves behind: the
/// per-piece state machine, written over the entry before (`pre`) and after
/// (`post`) the command.
///
/// An invalid block fails its piece and nothing is written; a duplicate
/// changes nothing and produces no alert; an accepted block fills its slot
/// silently until the piece completes; and a completed piece is accepted,
/// and only then written, exactly when the SHA-1 digest of its assembled
/// image equals its expected digest. In particular, for the last piece —
/// whose length is `last_piece_len` rather than `piece_len` — completion is
/// reached exactly when `last_piece_len` bytes have been assembled.
pub open spec fn spec_write_block_post(
    pre: TorrentEntry,
    post: TorrentEntry,
    b: BlockInfo,
    data: Seq<u8>,
    r: WriteOutcome,
) -> bool {
    let sinfo = pre.spec_info();
    let i = b.piece_index as int;
    let valid = spec_block_ok(sinfo, b, data.len() as int);
    let slots = spec_piece_slots(pre, i);
    let dup = valid && slots[spec_block_slot(b)] is Some;
    let filled = slots.update(spec_block_slot(b), Some(data));
    let completes = spec_slots_complete(filled);
    let accepted = sha1_of(spec_assembled(filled)) == spec_expected_digest(pre.spec_hashes(), i);
    &&& post.spec_id() == pre.spec_id()
    &&& post.spec_info() == pre.spec_info()
    &&& post.spec_hashes() == pre.spec_hashes()
    &&& forall|p: int| 0 <= p < sinfo.piece_count && p != i
        ==> #[trigger] post.piece_state(p) == pre.piece_state(p)
    &&& (!valid ==> r == WriteOutcome::Finalised(
        TorrentAlert::BatchWrite(Err(WriteError::InvalidBlock)),
    ) && (i < sinfo.piece_count ==> post.piece_state(i) is None))
    &&& (dup ==> r is Duplicate && same_entry_state(post, pre))
    &&& (valid && !dup && !completes ==> r is Buffered && post.piece_state(i) == Some(filled))
    &&& (valid && !dup && completes && !accepted ==> (r matches WriteOutcome::Finalised(
        TorrentAlert::BatchWrite(Ok(bw)),
    ) && bw.blocks@.len() == 0 && bw.is_piece_valid == Some(false)
        && post.piece_state(i) is None))
    &&& (valid && !dup && completes && accepted ==> (r matches WriteOutcome::Ready {
        file_offset, data: image, blocks,
    } && file_offset == i * (sinfo.piece_len as int)
        && image@ == spec_assembled(filled)
        && image@.len() == sinfo.spec_piece_length(i)
        && blocks@.len() == spec_block_count(sinfo.spec_piece_length(i))
        && (forall|k: int| 0 <= k < blocks@.len() ==> blocks@[k]
            == spec_canonical_block(b.piece_index, sinfo.spec_piece_length(i), k))
        && post.piece_state(i) is None))
}

/// Piece validity round-trip: when every block of a piece is written with
/// the correct payload — slot `k` carrying the piece's own bytes from
/// `k * BLOCK_LEN` on — the buffer completes with the piece itself as its
/// assembled image, so its digest check passes whenever the piece's digest
/// is the expected one. By [`spec_write_block_post`], the write that fills
/// the last slot must then return [`WriteOutcome::Ready`], carrying every
/// block of the piece and leading to a `Some(true)` validity alert; no
/// other write of the piece produces an alert.
pub proof fn lemma_piece_round_trip(piece: Seq<u8>, piece_len: int, hashes: Seq<u8>, i: int)
    requires
        1 <= piece_len,
        piece.len() == piece_len,
        sha1_of(piece) == spec_expected_digest(hashes, i),
    ensures
        spec_slots_complete(correct_slots(piece, piece_len)),
        sha1_of(spec_assembled(correct_slots(piece, piece_len))) == spec_expected_digest(
            hashes,
            i,
        ),
{
    lemma_correct_slots_assemble(piece, piece_len);
}

/// The set of ids allocated after a sequence of `NewTorrent` requests:
/// every requested id, since a request only fails when its id is present
/// already.
pub open spec fn spec_alloc_ids(reqs: Seq<TorrentId>) -> Set<TorrentId>
    decreases reqs.len(),
{
    if reqs.len() == 0 {
        Set::empty()
    } else {
        spec_alloc_ids(reqs.drop_last()).insert(reqs.last())
    }
}

/// Whether the `k`-th of a sequence of `NewTorrent` requests is granted:
/// its id must not have been registered by an earlier request. This is the
/// `AlreadyExists` clause of [`Disk::prepare_allocation`], iterated over a
/// command sequence through [`Disk::commit_allocation`]'s registration
/// clause.
pub open spec fn spec_alloc_granted(reqs: Seq<TorrentId>, k: int) -> bool {
    !spec_alloc_ids(reqs.take(k)).contains(reqs[k])
}

/// An id is allocated after a request sequence exactly when some request
/// named it.
pub proof fn lemma_alloc_ids_membership(reqs: Seq<TorrentId>, x: TorrentId)
    ensures
        spec_alloc_ids(reqs).contains(x) <==> exists|m: int| 0 <= m < reqs.len() && reqs[m] == x,
    decreases reqs.len(),
{
    if reqs.len() > 0 {
        lemma_alloc_ids_membership(reqs.drop_last(), x);
        if spec_alloc_ids(reqs).contains(x) {
            if reqs.last() == x {
                assert(reqs[reqs.len() - 1] == x);
            } else {
                let m = choose|m: int| 0 <= m < reqs.drop_last().len() && reqs.drop_last()[m] == x;
                assert(reqs[m] == x);
            }
        }
        if exists|m: int| 0 <= m < reqs.len() && reqs[m] == x {
            let m = choose|m: int| 0 <= m < reqs.len() && reqs[m] == x;
            if m < reqs.len() - 1 {
                assert(reqs.drop_last()[m] == x);
            }
        }
    }
}

/// Allocation uniqueness: in any sequence of `NewTorrent` requests, exactly
/// the first request for each id is granted; every later request for the
/// same id finds it registered and is refused as `AlreadyExists`.
pub proof fn lemma_allocation_uniqueness(reqs: Seq<TorrentId>, k: int)
    requires
        0 <= k < reqs.len(),
    ensures
        spec_alloc_granted(reqs, k) <==> forall|m: int| 0 <= m < k ==> reqs[m] != reqs[k],
{
    lemma_alloc_ids_membership(reqs.take(k), reqs[k]);
    assert forall|m: int| 0 <= m < k implies reqs.take(k)[m] == reqs[m] by {}
}

} // verus!
