//! Downloads: one record for each file that was asked for, and the states
//! that it goes through.
//!
//! A download starts as `Requested`. An offer for its file makes it
//! `Connecting`, the transfer's reports make it `Progress`, and a failure
//! makes it `Failed`. A server that does not let the agent talk yet makes the
//! requested downloads `Delayed`, and one that does not know the sender makes
//! the sender's downloads `SenderAbsent`.

use crate::irc_case::{eq_ignore_irc_case, nick_eq};
use vstd::prelude::*;

verus! {

/// The number of a download. No two downloads of one run share it.
pub type DownloadId = usize;

/// The name of the network that a connection belongs to.
pub type ServerId = String;

/// How far the transfer of a download is.
#[derive(Clone, Copy, Debug, PartialEq, Eq, Structural)]
pub struct DownloadProgress {
    /// Bytes written to the file so far.
    pub transferred: usize,
    /// The size that the offer gave, if it gave one.
    pub file_size: Option<usize>,
}

/// The state of a download.
#[derive(Clone, Debug)]
pub enum DownloadStatus {
    /// The request is sent and nothing has come of it yet.
    Requested,
    /// The network does not know the sender.
    SenderAbsent,
    /// The network did not take the request; it is sent again at this time.
    Delayed(u64),
    /// The file is being transferred.
    Progress(DownloadProgress),
    /// The transfer failed, for this reason.
    Failed(String),
    /// An offer came and the transfer is being set up.
    Connecting,
}

/// A download.
#[derive(Clone, Debug)]
pub struct DownloadItem {
    pub id: DownloadId,
    pub server: ServerId,
    pub file_name: String,
    pub nick: String,
    pub status: DownloadStatus,
    /// The command that asked for the file, kept to be sent again as it was.
    pub request_command: String,
}

/// What a user asks for: a file of a sender on a network, and the command
/// that makes the sender offer it.
#[derive(Clone, Debug)]
pub struct DownloadRequest {
    pub server: ServerId,
    pub file_name: String,
    pub nick: String,
    pub command: String,
}

/// The source of download numbers: each number once, in rising order.
#[derive(Debug)]
pub struct DownloadIds {
    pub next: usize,
}

/// What happens to a download.
#[derive(Debug)]
pub enum Transition {
    /// The network does not take requests before `until`.
    Delay { until: u64 },
    /// The network does not know `nick`.
    SenderGone { nick: String },
    /// An offer for the file came.
    Connect,
    /// The transfer reports how far it is.
    Progress(DownloadProgress),
    /// The transfer failed.
    Fail { reason: String },
}

/// The download in another state.
pub open spec fn with_status(item: DownloadItem, status: DownloadStatus) -> DownloadItem {
    DownloadItem { status, ..item }
}

/// A requested download waits until `until`; any other stays as it is.
pub open spec fn delayed(item: DownloadItem, until: u64) -> DownloadItem {
    if item.status is Requested {
        with_status(item, DownloadStatus::Delayed(until))
    } else {
        item
    }
}

/// A download whose sender is `nick` to an IRC server has lost its sender;
/// any other stays as it is.
pub open spec fn sender_gone(item: DownloadItem, nick: Seq<char>) -> DownloadItem {
    if nick_eq(item.nick@, nick) {
        with_status(item, DownloadStatus::SenderAbsent)
    } else {
        item
    }
}

/// What a transition makes of a download.
pub open spec fn applied(item: DownloadItem, transition: Transition) -> DownloadItem {
    match transition {
        Transition::Delay { until } => delayed(item, until),
        Transition::SenderGone { nick } => sender_gone(item, nick@),
        Transition::Connect => with_status(item, DownloadStatus::Connecting),
        Transition::Progress(progress) => with_status(item, DownloadStatus::Progress(progress)),
        Transition::Fail { reason } => with_status(item, DownloadStatus::Failed(reason)),
    }
}

/// The download that a request stands for, under the number `id`.
pub open spec fn requested(id: DownloadId, request: DownloadRequest) -> DownloadItem {
    DownloadItem {
        id,
        server: request.server,
        file_name: request.file_name,
        nick: request.nick,
        status: DownloadStatus::Requested,
        request_command: request.command,
    }
}

impl DownloadIds {
    /// A source that has given out no number yet.
    pub fn new() -> (ids: DownloadIds)
        ensures
            ids.next == 0,
    {
        DownloadIds { next: 0 }
    }

    /// The next number: one more than the last, never one that was given
    /// before. `None` when the numbers have run out.
    pub fn allocate(&mut self) -> (id: Option<DownloadId>)
        ensures
            old(self).next < usize::MAX ==> id == Some(old(self).next) && final(self).next == old(
                self,
            ).next + 1,
            old(self).next == usize::MAX ==> id is None && final(self).next == old(self).next,
    {
        if self.next == usize::MAX {
            None
        } else {
            let id = self.next;
            self.next = id + 1;
            Some(id)
        }
    }
}

impl DownloadStatus {
    /// The same state again.
    pub fn duplicate(&self) -> (copy: DownloadStatus)
        ensures
            copy == *self,
    {
        match self {
            DownloadStatus::Requested => DownloadStatus::Requested,
            DownloadStatus::SenderAbsent => DownloadStatus::SenderAbsent,
            DownloadStatus::Delayed(until) => DownloadStatus::Delayed(*until),
            DownloadStatus::Progress(progress) => DownloadStatus::Progress(*progress),
            DownloadStatus::Failed(reason) => DownloadStatus::Failed(reason.clone()),
            DownloadStatus::Connecting => DownloadStatus::Connecting,
        }
    }
}

impl DownloadItem {
    /// The same download again.
    pub fn duplicate(&self) -> (copy: DownloadItem)
        ensures
            copy == *self,
    {
        DownloadItem {
            id: self.id,
            server: self.server.clone(),
            file_name: self.file_name.clone(),
            nick: self.nick.clone(),
            status: self.status.duplicate(),
            request_command: self.request_command.clone(),
        }
    }

    /// The download that `request` stands for, under the number `id`.
    pub fn new(id: DownloadId, request: DownloadRequest) -> (item: DownloadItem)
        ensures
            item == requested(id, request),
    {
        DownloadItem {
            id,
            server: request.server,
            file_name: request.file_name,
            nick: request.nick,
            status: DownloadStatus::Requested,
            request_command: request.command,
        }
    }

    /// The download after `transition`.
    pub fn apply(self, transition: &Transition) -> (after: DownloadItem)
        ensures
            after == applied(self, *transition),
    {
        let mut item = self;
        match transition {
            Transition::Delay { until } => {
                if let DownloadStatus::Requested = item.status {
                    item.status = DownloadStatus::Delayed(*until);
                }
            },
            Transition::SenderGone { nick } => {
                if eq_ignore_irc_case(item.nick.as_str(), nick.as_str()) {
                    item.status = DownloadStatus::SenderAbsent;
                }
            },
            Transition::Connect => {
                item.status = DownloadStatus::Connecting;
            },
            Transition::Progress(progress) => {
                item.status = DownloadStatus::Progress(*progress);
            },
            Transition::Fail { reason } => {
                item.status = DownloadStatus::Failed(reason.clone());
            },
        }
        item
    }

    /// A transfer of this download's file runs or is being set up.
    pub fn is_transferring(&self) -> (yes: bool)
        ensures
            yes == (self.status is Connecting || self.status is Progress),
    {
        match self.status {
            DownloadStatus::Connecting => true,
            DownloadStatus::Progress(_) => true,
            _ => false,
        }
    }
}

/// Whatever happens to a download, only its state changes: number, network,
/// file, sender and command stay as they were when it was asked for.
pub proof fn lemma_transition_keeps_request(item: DownloadItem, transition: Transition)
    ensures
        applied(item, transition) == with_status(item, applied(item, transition).status),
{
}

} // verus!
