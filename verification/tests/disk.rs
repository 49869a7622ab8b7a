//! Tests of the disk core state machine: allocation, block writes, piece
//! verification, and the handle.

use cratetorrent::disk::{batch_write_alert, Disk, TorrentAlert, WriteOutcome};
use cratetorrent::error::NewTorrentError;
use cratetorrent::storage::StorageInfo;
use cratetorrent::{block_count, BlockInfo, TorrentId, BLOCK_LEN};
use sha1::{Digest, Sha1};

// The disk test environment containing information of a valid torrent.
struct Env {
    id: TorrentId,
    pieces: Vec<Vec<u8>>,
    piece_hashes: Vec<u8>,
    info: StorageInfo,
}

impl Env {
    fn new() -> Self {
        let id = 0;
        let download_path = String::from("/tmp/torrent0");
        let piece_len: u32 = 4 * 0x4000;
        // last piece is slightly shorter to test that it is handled correctly
        let last_piece_len: u32 = piece_len - 935;
        let pieces: Vec<Vec<u8>> = vec![
            (0..piece_len).map(|b| (b % 256) as u8).collect(),
            (0..piece_len).map(|b| b + 1).map(|b| (b % 256) as u8).collect(),
            (0..piece_len).map(|b| b + 2).map(|b| (b % 256) as u8).collect(),
            (0..last_piece_len).map(|b| b + 3).map(|b| (b % 256) as u8).collect(),
        ];
        // build up expected piece hashes
        let mut piece_hashes = Vec::with_capacity(pieces.len() * 20);
        for piece in pieces.iter() {
            let hash = Sha1::digest(piece);
            piece_hashes.extend(hash.as_slice());
        }
        assert_eq!(piece_hashes.len(), pieces.len() * 20);

        let info = StorageInfo {
            piece_count: pieces.len(),
            piece_len,
            last_piece_len,
            download_len: pieces.iter().fold(0, |mut len, piece| {
                len += piece.len() as u64;
                len
            }),
            download_path,
        };

        Self { id, pieces, piece_hashes, info }
    }
}

// Calls the provided function for each block in piece, passing it the
// block's `BlockInfo`.
fn for_each_block(piece_index: usize, piece_len: u32, block_visitor: impl FnMut(BlockInfo)) {
    let mut block_visitor = block_visitor;
    let block_count = block_count(piece_len) as u32;
    // all pieces have four blocks in this test
    assert_eq!(block_count, 4);

    let mut block_offset = 0;
    for _ in 0..block_count {
        // when calculating the block length we need to consider that the
        // last block may be smaller than the rest
        let block_len = (piece_len - block_offset).min(BLOCK_LEN);
        assert!(block_len > 0);
        assert!(block_len <= BLOCK_LEN);

        block_visitor(BlockInfo { piece_index, offset: block_offset, len: block_len });

        // increment offset for next piece
        block_offset += block_len;
    }
}

fn allocate(disk: &mut Disk, env: &Env) {
    match disk.prepare_allocation(env.id, &env.info, &env.piece_hashes) {
        Ok(()) => disk.commit_allocation(env.id, env.info.clone(), env.piece_hashes.clone()),
        Err(_) => panic!("Torrent could not be allocated"),
    }
}

// Tests the allocation of a torrent, and then the allocation of the same
// torrent returning an error.
#[test]
fn test_allocate_new_torrent() {
    let mut disk = Disk::new();
    let env = Env::new();

    // allocate torrent
    allocate(&mut disk, &env);
    assert!(disk.contains_torrent(env.id));

    // try to allocate the same torrent a second time: we should get an
    // already exists error, and no file operation may take place
    let second = disk.prepare_allocation(env.id, &env.info, &env.piece_hashes);
    assert!(matches!(second, Err(NewTorrentError::AlreadyExists)));
}

// Tests writing of a complete valid torrent's pieces and verifying that an
// alert of each disk write is returned by the disk task.
#[test]
fn test_write_all_pieces() {
    let mut disk = Disk::new();
    let env = Env::new();
    allocate(&mut disk, &env);

    // write all pieces to disk
    for index in 0..env.pieces.len() {
        let piece = &env.pieces[index];
        let mut outcomes: Vec<WriteOutcome> = Vec::new();
        for_each_block(index, piece.len() as u32, |info| {
            let block_end = info.offset + info.len;
            let data = &piece[info.offset as usize..block_end as usize];
            assert_eq!(data.len(), info.len as usize);
            println!("Writing piece {} block {:?}", index, info);
            outcomes.push(disk.write_block(env.id, info, data.to_vec()));
        });

        // the first three blocks are buffered without an alert
        for outcome in &outcomes[..3] {
            assert!(matches!(outcome, WriteOutcome::Buffered));
        }
        // the final block completes the piece
        match outcomes.pop().unwrap() {
            WriteOutcome::Ready { file_offset, data, blocks } => {
                assert_eq!(file_offset, index as u64 * env.info.piece_len as u64);
                assert_eq!(&data, piece);
                // verify that the message contains all four blocks
                for_each_block(index, piece.len() as u32, |info| {
                    let pos = blocks.iter().position(|b| *b == info);
                    println!("Verifying piece {} block {:?}", index, info);
                    assert!(pos.is_some());
                });
                // piece is complete so it should be hashed and be valid
                let alert = batch_write_alert(blocks, true);
                match alert {
                    TorrentAlert::BatchWrite(Ok(batch)) => {
                        assert!(matches!(batch.is_piece_valid, Some(true)));
                        assert_eq!(batch.blocks.len(), 4);
                    }
                    _ => panic!("Piece could not be written to disk"),
                }
            }
            _ => panic!("Piece could not be written to disk"),
        }
    }
}

// Tests writing of an invalid piece and verifying that an alert of the
// invalid write is returned by the disk task.
#[test]
fn test_write_invalid_piece() {
    let mut disk = Disk::new();
    let env = Env::new();
    allocate(&mut disk, &env);

    // write an invalid piece to disk
    let index = 0;
    let invalid_piece: Vec<_> = env.pieces[index].iter().map(|b| b.saturating_add(5)).collect();
    let mut outcomes: Vec<WriteOutcome> = Vec::new();
    for_each_block(index, invalid_piece.len() as u32, |info| {
        let block_end = info.offset + info.len;
        let data = &invalid_piece[info.offset as usize..block_end as usize];
        assert_eq!(data.len(), info.len as usize);
        println!("Writing invalid piece {} block {:?}", index, info);
        outcomes.push(disk.write_block(env.id, info, data.to_vec()));
    });

    // the completing write asks for no file operation: the invalid piece
    // must not be written to disk
    match outcomes.pop().unwrap() {
        WriteOutcome::Finalised(TorrentAlert::BatchWrite(Ok(batch))) => {
            // piece is complete so it should be hashed but be invalid
            assert!(matches!(batch.is_piece_valid, Some(false)));
            // verify that the message doesn't contain any blocks
            assert!(batch.blocks.is_empty());
        }
        _ => panic!("Piece could not be written to disk"),
    }
}

// Writing the blocks of a piece out of order must produce a single
// completion carrying all of its blocks.
#[test]
fn test_out_of_order_blocks() {
    let mut disk = Disk::new();
    let env = Env::new();
    allocate(&mut disk, &env);

    let index = 1;
    let piece = &env.pieces[index];
    let mut infos: Vec<BlockInfo> = Vec::new();
    for_each_block(index, piece.len() as u32, |info| infos.push(info));

    for order in [3usize, 1, 0] {
        let info = infos[order];
        let data = piece[info.offset as usize..(info.offset + info.len) as usize].to_vec();
        assert!(matches!(disk.write_block(env.id, info, data), WriteOutcome::Buffered));
    }
    let info = infos[2];
    let data = piece[info.offset as usize..(info.offset + info.len) as usize].to_vec();
    match disk.write_block(env.id, info, data) {
        WriteOutcome::Ready { file_offset, data, blocks } => {
            assert_eq!(file_offset, env.info.piece_len as u64);
            assert_eq!(&data, piece);
            assert_eq!(blocks.len(), 4);
            for info in &infos {
                assert!(blocks.iter().any(|b| b == info));
            }
        }
        _ => panic!("Piece could not be written to disk"),
    }
}

// A block whose offset is already buffered is absorbed silently, with no
// alert and no state change; replaying a block after its piece was
// committed starts a fresh piece quietly.
#[test]
fn test_duplicate_block_absorbed() {
    let mut disk = Disk::new();
    let env = Env::new();
    allocate(&mut disk, &env);

    let index = 0;
    let piece = &env.pieces[index];
    let mut infos: Vec<BlockInfo> = Vec::new();
    for_each_block(index, piece.len() as u32, |info| infos.push(info));
    let block_data =
        |info: &BlockInfo| piece[info.offset as usize..(info.offset + info.len) as usize].to_vec();

    // first copy is buffered, replay is a duplicate: no alert either way
    assert!(matches!(
        disk.write_block(env.id, infos[0], block_data(&infos[0])),
        WriteOutcome::Buffered
    ));
    assert!(matches!(
        disk.write_block(env.id, infos[0], block_data(&infos[0])),
        WriteOutcome::Duplicate
    ));

    // complete the piece; the duplicate must not have counted twice
    for info in &infos[1..3] {
        assert!(matches!(disk.write_block(env.id, *info, block_data(info)), WriteOutcome::Buffered));
    }
    assert!(matches!(
        disk.write_block(env.id, infos[3], block_data(&infos[3])),
        WriteOutcome::Ready { .. }
    ));

    // a replay after the piece was committed begins a fresh buffer and
    // emits no alert
    assert!(matches!(
        disk.write_block(env.id, infos[0], block_data(&infos[0])),
        WriteOutcome::Buffered
    ));
}

// Torrents with distinct ids do not interfere: interleaved writes complete
// each torrent's pieces independently.
#[test]
fn test_interleaved_torrents() {
    let mut disk = Disk::new();
    let env = Env::new();
    allocate(&mut disk, &env);

    let mut env2 = Env::new();
    env2.id = 1;
    env2.info.download_path = String::from("/tmp/torrent1");
    allocate(&mut disk, &env2);

    let index = 0;
    let mut infos: Vec<BlockInfo> = Vec::new();
    for_each_block(index, env.pieces[index].len() as u32, |info| infos.push(info));

    let mut last: Vec<WriteOutcome> = Vec::new();
    for (n, info) in infos.iter().enumerate() {
        for e in [&env, &env2] {
            let data = e.pieces[index][info.offset as usize..(info.offset + info.len) as usize]
                .to_vec();
            let outcome = disk.write_block(e.id, *info, data);
            if n + 1 < infos.len() {
                assert!(matches!(outcome, WriteOutcome::Buffered));
            } else {
                last.push(outcome);
            }
        }
    }
    for (outcome, e) in last.into_iter().zip([&env, &env2]) {
        match outcome {
            WriteOutcome::Ready { file_offset, data, blocks } => {
                assert_eq!(file_offset, 0);
                assert_eq!(&data, &e.pieces[index]);
                assert_eq!(blocks.len(), 4);
            }
            _ => panic!("Piece could not be written to disk"),
        }
    }
}

// The per-torrent alert sequence is a permutation of the torrent's pieces,
// in the order in which each piece became complete: one alert per piece,
// emitted by the command that completes it.
#[test]
fn test_alert_order_follows_completion() {
    let mut disk = Disk::new();
    let env = Env::new();
    allocate(&mut disk, &env);

    // complete the pieces in a scrambled order
    let completion_order = [2usize, 0, 3, 1];
    let mut alerted: Vec<usize> = Vec::new();
    for &index in &completion_order {
        let piece = &env.pieces[index];
        for_each_block(index, piece.len() as u32, |info| {
            let data = piece[info.offset as usize..(info.offset + info.len) as usize].to_vec();
            match disk.write_block(env.id, info, data) {
                WriteOutcome::Buffered => {}
                WriteOutcome::Ready { data, blocks, .. } => {
                    // the alert fires at the completing block, for the
                    // completed piece
                    assert_eq!(&data, piece);
                    assert_eq!(blocks[0].piece_index, index);
                    alerted.push(index);
                }
                _ => panic!("Piece could not be written to disk"),
            }
        });
    }
    assert_eq!(alerted, completion_order);
}

// Invalid blocks fail their piece with an `InvalidBlock` error alert.
#[test]
fn test_invalid_block_rejected() {
    let mut disk = Disk::new();
    let env = Env::new();
    allocate(&mut disk, &env);

    let expect_invalid = |disk: &mut Disk, info: BlockInfo, data: Vec<u8>| {
        let outcome = disk.write_block(env.id, info, data);
        assert!(matches!(
            outcome,
            WriteOutcome::Finalised(TorrentAlert::BatchWrite(Err(
                cratetorrent::error::WriteError::InvalidBlock
            )))
        ));
    };

    // a piece index past the end of the torrent
    expect_invalid(
        &mut disk,
        BlockInfo { piece_index: env.pieces.len(), offset: 0, len: BLOCK_LEN },
        vec![0; BLOCK_LEN as usize],
    );
    // an unaligned offset
    expect_invalid(
        &mut disk,
        BlockInfo { piece_index: 0, offset: 5, len: BLOCK_LEN },
        vec![0; BLOCK_LEN as usize],
    );
    // an offset past the end of the piece
    expect_invalid(
        &mut disk,
        BlockInfo { piece_index: 0, offset: env.info.piece_len, len: BLOCK_LEN },
        vec![0; BLOCK_LEN as usize],
    );
    // a payload whose length disagrees with the block's declared length
    expect_invalid(
        &mut disk,
        BlockInfo { piece_index: 0, offset: 0, len: BLOCK_LEN },
        vec![0; 3],
    );
}

// Blocks for a torrent that was never allocated are dropped silently.
#[test]
fn test_unknown_torrent_ignored() {
    let mut disk = Disk::new();
    let env = Env::new();

    let outcome = disk.write_block(
        env.id,
        BlockInfo { piece_index: 0, offset: 0, len: BLOCK_LEN },
        vec![0; BLOCK_LEN as usize],
    );
    assert!(matches!(outcome, WriteOutcome::Ignored));
    assert!(!disk.contains_torrent(env.id));
}

// Metadata that does not describe the torrent is refused.
#[test]
fn test_invalid_metadata_rejected() {
    let disk = Disk::new();
    let env = Env::new();

    // a hash buffer that is not one 20-byte digest per piece
    let short_hashes = env.piece_hashes[..env.piece_hashes.len() - 1].to_vec();
    assert!(matches!(
        disk.prepare_allocation(env.id, &env.info, &short_hashes),
        Err(NewTorrentError::InvalidMetadata)
    ));

    // a layout whose total length does not match its pieces
    let mut bad_info = env.info.clone();
    bad_info.download_len += 1;
    assert!(matches!(
        disk.prepare_allocation(env.id, &bad_info, &env.piece_hashes),
        Err(NewTorrentError::InvalidMetadata)
    ));

    // a last piece longer than the uniform piece length
    let mut bad_info = env.info.clone();
    bad_info.last_piece_len = bad_info.piece_len + 1;
    assert!(matches!(
        disk.prepare_allocation(env.id, &bad_info, &env.piece_hashes),
        Err(NewTorrentError::InvalidMetadata)
    ));
}

// A failed positioned write is reported as an I/O error alert.
#[test]
fn test_write_failure_alert() {
    let alert = batch_write_alert(Vec::new(), false);
    assert!(matches!(
        alert,
        TorrentAlert::BatchWrite(Err(cratetorrent::error::WriteError::Io))
    ));
}

// The block layout helpers: block counts and per-piece block lists.
#[test]
fn test_block_layout() {
    assert_eq!(block_count(1), 1);
    assert_eq!(block_count(BLOCK_LEN), 1);
    assert_eq!(block_count(BLOCK_LEN + 1), 2);
    assert_eq!(block_count(4 * BLOCK_LEN), 4);
    assert_eq!(block_count(4 * BLOCK_LEN - 935), 4);

    let blocks = cratetorrent::piece_block_infos(3, 4 * BLOCK_LEN - 935);
    assert_eq!(blocks.len(), 4);
    for (k, b) in blocks.iter().enumerate() {
        assert_eq!(b.piece_index, 3);
        assert_eq!(b.offset, k as u32 * BLOCK_LEN);
    }
    assert_eq!(blocks[0].len, BLOCK_LEN);
    assert_eq!(blocks[3].len, BLOCK_LEN - 935);
}
