//! The handle through which external code talks to the disk task.
//!
//! A [`DiskHandle`] is a cheap, clonable sender over the disk task's command
//! inbox. Every operation is a non-blocking enqueue that fails only when the
//! inbox is closed because the task has exited.

use vstd::prelude::*;

use crate::{BlockInfo, TorrentId};
use crate::disk::Command;
use crate::error::Error;
use crate::storage::StorageInfo;

verus! {

#[verifier::external_type_specification]
#[verifier::external_body]
#[verifier::reject_recursive_types(T)]
pub struct ExUnboundedSender<T>(tokio::sync::mpsc::UnboundedSender<T>);

#[verifier::external_type_specification]
#[verifier::external_body]
#[verifier::reject_recursive_types(T)]
pub struct ExSendError<T>(tokio::sync::mpsc::error::SendError<T>);

/// Relies on `tokio::sync::mpsc::UnboundedSender::send`: the command is
/// enqueued and `Ok` returned unless every receiver is gone, in which case
/// the command comes back inside the error.
#[verifier::external_body]
fn send_raw(tx: &tokio::sync::mpsc::UnboundedSender<Command>, cmd: Command) -> (r: Result<
    (),
    tokio::sync::mpsc::error::SendError<Command>,
>) {
    tx.send(cmd)
}

/// Enqueues a command, reporting a failure — the task is gone — as the
/// channel being closed.
fn send_command(tx: &tokio::sync::mpsc::UnboundedSender<Command>, cmd: Command) -> (r: Result<
    (),
    Error,
>)
    ensures
        r matches Err(e) ==> e == Error::ChannelClosed,
{
    match send_raw(tx, cmd) {
        Ok(()) => Ok(()),
        Err(_) => Err(Error::ChannelClosed),
    }
}

/// Relies on `tokio::sync::mpsc::UnboundedSender::clone`: the clone is a
/// sender onto the same channel.
#[verifier::external_body]
fn clone_sender(tx: &tokio::sync::mpsc::UnboundedSender<Command>) -> (r:
    tokio::sync::mpsc::UnboundedSender<Command>)
{
    tx.clone()
}

/// The handle for the disk task, used to issue disk I/O related commands.
///
/// The handle may be cloned an arbitrary number of times. It is an
/// abstraction over the means to communicate with the disk task; commands
/// are delivered over an unbounded channel and answered asynchronously on
/// the alert channels.
pub struct DiskHandle {
    /// The sending half of the disk task's command inbox.
    tx: tokio::sync::mpsc::UnboundedSender<Command>,
}

impl Clone for DiskHandle {
    fn clone(&self) -> DiskHandle {
        DiskHandle { tx: clone_sender(&self.tx) }
    }
}

impl DiskHandle {
    /// Wraps the sending half of a command inbox.
    pub fn new(tx: tokio::sync::mpsc::UnboundedSender<Command>) -> DiskHandle {
        DiskHandle { tx }
    }

    /// Instructs the disk task to set up everything needed for a new
    /// torrent: registering its layout and expected hashes and
    /// pre-allocating the to-be-downloaded file. The outcome arrives on the
    /// global alert channel; enqueueing fails only when the task is gone.
    pub fn allocate_new_torrent(
        &self,
        id: TorrentId,
        info: StorageInfo,
        piece_hashes: Vec<u8>,
    ) -> (r: Result<(), Error>)
        ensures
            r matches Err(e) ==> e == Error::ChannelClosed,
    {
        send_command(&self.tx, Command::NewTorrent { id, info, piece_hashes })
    }

    /// Queues a block for eventual writing to disk. Once the block's piece
    /// is finalised, the outcome is advertised on the torrent's alert
    /// channel; enqueueing fails only when the task is gone.
    pub fn write_block(&self, id: TorrentId, info: BlockInfo, data: Vec<u8>) -> (r: Result<
        (),
        Error,
    >)
        ensures
            r matches Err(e) ==> e == Error::ChannelClosed,
    {
        send_command(&self.tx, Command::WriteBlock { id, info, data })
    }

    /// Shuts the disk task down; commands sent after the task exits fail.
    pub fn shutdown(&self) -> (r: Result<(), Error>)
        ensures
            r matches Err(e) ==> e == Error::ChannelClosed,
    {
        send_command(&self.tx, Command::Shutdown)
    }
}

} // verus!
