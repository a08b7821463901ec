//! One network connection's share of the agent: its channels and its
//! downloads, and what the events of the network do to them.
//!
//! The downloads live in a `DashMap`. What the map holds is written
//! `self.items()` in the contracts below.

use crate::dcc::DccSend;
use crate::download::{
    applied, delayed, requested, sender_gone, with_status, DownloadId, DownloadItem,
    DownloadProgress, DownloadRequest, DownloadStatus, Transition,
};
use crate::irc_case::nick_eq;
use crate::transfer::Outcome;
use dashmap::DashMap;
use vstd::prelude::*;
use vstd::string::StringExecFns;

verus! {

/// Seconds that a network makes a new connection wait before it may talk to
/// other users.
pub const RETRY_DELAY_SECS: u64 = 70;

/// The concurrent map of the `dashmap` crate. Nothing is known of the inside
/// of one; what it holds goes by the name `entries`.
///
/// The functions below change a map through `&mut`, so that nothing else can
/// reach it meanwhile and what it holds is what they say. None of them
/// unwinds: the keys are integers, and the one function that is handed to the
/// map is `DownloadItem::apply`, which does not panic.
#[verifier::external_type_specification]
#[verifier::external_body]
#[verifier::reject_recursive_types(K)]
#[verifier::reject_recursive_types(V)]
#[verifier::reject_recursive_types(S)]
pub struct ExDashMap<K, V, S>(DashMap<K, V, S>);

/// What a map of downloads holds: each key with its download.
pub uninterp spec fn entries(downloads: DashMap<usize, DownloadItem>) -> Map<
    usize,
    DownloadItem,
>;

/// `listing` names every entry of `items` once, in some order.
pub open spec fn lists(
    listing: Seq<(usize, DownloadItem)>,
    items: Map<usize, DownloadItem>,
) -> bool {
    &&& forall|i: int|
        0 <= i < listing.len() ==> items.contains_key((#[trigger] listing[i]).0)
            && items[listing[i].0] == listing[i].1
    &&& forall|i: int, j: int|
        0 <= i < j < listing.len() ==> (#[trigger] listing[i]).0 != (#[trigger] listing[j]).0
    &&& forall|id: usize| #[trigger]
        items.contains_key(id) ==> exists|i: int| 0 <= i < listing.len() && listing[i].0 == id
}

/// `all` shows every download of `items` once, in some order.
pub open spec fn shows(all: Seq<DownloadItem>, items: Map<usize, DownloadItem>) -> bool {
    &&& forall|i: int|
        0 <= i < all.len() ==> items.contains_key((#[trigger] all[i]).id) && items[all[i].id]
            == all[i]
    &&& forall|i: int, j: int|
        0 <= i < j < all.len() ==> (#[trigger] all[i]).id != (#[trigger] all[j]).id
    &&& forall|id: usize| #[trigger]
        items.contains_key(id) ==> exists|i: int| 0 <= i < all.len() && all[i].id == id
}

/// `DashMap::new`: the new map holds nothing.
#[verifier::external_body]
fn registry_new() -> (downloads: DashMap<usize, DownloadItem>)
    ensures
        entries(downloads) =~= Map::empty(),
{
    DashMap::new()
}

/// `DashMap::insert`: afterwards the key holds the new download, and every
/// other key what it held.
#[verifier::external_body]
fn registry_insert(downloads: &mut DashMap<usize, DownloadItem>, id: usize, item: DownloadItem)
    ensures
        entries(*final(downloads)) == entries(*old(downloads)).insert(id, item),
    no_unwind
{
    downloads.insert(id, item);
}

/// `DashMap::remove`: afterwards the key holds nothing, every other key what
/// it held; the result is what the key held before.
#[verifier::external_body]
fn registry_remove(
    downloads: &mut DashMap<usize, DownloadItem>,
    id: usize,
) -> (before: Option<DownloadItem>)
    ensures
        entries(*final(downloads)) == entries(*old(downloads)).remove(id),
        before == if entries(*old(downloads)).contains_key(id) {
            Some(entries(*old(downloads))[id])
        } else {
            None
        },
    no_unwind
{
    downloads.remove(&id).map(|entry| entry.1)
}

/// `DashMap::alter` with `DownloadItem::apply`: a key that holds a download
/// holds the download after the transition; nothing else changes.
#[verifier::external_body]
fn registry_alter(downloads: &mut DashMap<usize, DownloadItem>, id: usize, transition: &Transition)
    ensures
        entries(*final(downloads)) == if entries(*old(downloads)).contains_key(id) {
            entries(*old(downloads)).insert(id, applied(entries(*old(downloads))[id], *transition))
        } else {
            entries(*old(downloads))
        },
    no_unwind
{
    downloads.alter(&id, |_, item| item.apply(transition));
}

/// `DashMap::alter_all` with `DownloadItem::apply`: the keys stay, and each
/// holds its download after the transition.
#[verifier::external_body]
fn registry_alter_all(downloads: &mut DashMap<usize, DownloadItem>, transition: &Transition)
    ensures
        entries(*final(downloads)).dom() == entries(*old(downloads)).dom(),
        forall|id: usize| #[trigger]
            entries(*old(downloads)).contains_key(id) ==> entries(*final(downloads))[id] == applied(
                entries(*old(downloads))[id],
                *transition,
            ),
    no_unwind
{
    downloads.alter_all(|_, item| item.apply(transition));
}

/// `DashMap::iter`, each entry copied out with `DownloadItem::duplicate`: the
/// result names every entry once. The order is the map's own and nothing is
/// said of it.
#[verifier::external_body]
fn registry_list(downloads: &DashMap<usize, DownloadItem>) -> (listing: Vec<(usize, DownloadItem)>)
    ensures
        lists(listing@, entries(*downloads)),
{
    downloads.iter().map(|entry| (*entry.key(), entry.value().duplicate())).collect()
}

/// A channel to join, and whether searches go to it.
#[derive(Clone, Debug)]
pub struct Channel {
    pub name: String,
    pub search: bool,
}

/// A message to send over chat.
#[derive(Clone, Debug)]
pub struct Outgoing {
    pub target: String,
    pub text: String,
}

/// A message to send over chat, as plain values.
pub struct OutgoingView {
    pub target: Seq<char>,
    pub text: Seq<char>,
}

impl View for Outgoing {
    type V = OutgoingView;

    open spec fn view(&self) -> OutgoingView {
        OutgoingView { target: self.target@, text: self.text@ }
    }
}

/// What an offer meant to the downloads of a connection.
#[derive(Clone, Copy, Debug, PartialEq, Eq, Structural)]
pub enum OfferMatch {
    /// The offer is for this download, whose transfer is to start.
    Start(DownloadId),
    /// The offer is for this download, whose transfer runs or is being set up
    /// already.
    Busy(DownloadId),
    /// No download waits for the offered file.
    Unknown,
}

/// What the end of a download by the user meant.
#[derive(Clone, Copy, Debug, PartialEq, Eq, Structural)]
pub enum Aborted {
    /// There was no such download.
    NotFound,
    /// The download is removed; no transfer ran for it.
    Removed,
    /// The download is removed, and its transfer is to be cancelled.
    Cancelled,
}

/// The state of one network connection.
///
/// Every download stands under its own number, and the connection was made
/// early enough for the time to try again to be told.
pub struct ServerConnection {
    channels: Vec<Channel>,
    downloads: DashMap<DownloadId, DownloadItem>,
    /// When the connection was made, in seconds on the agent's clock.
    connected_at: u64,
}

/// The names of the channels that searches go to, in order.
pub open spec fn search_targets(channels: Seq<Channel>) -> Seq<Seq<char>>
    decreases channels.len(),
{
    if channels.len() == 0 {
        Seq::empty()
    } else if channels.last().search {
        search_targets(channels.drop_last()).push(channels.last().name@)
    } else {
        search_targets(channels.drop_last())
    }
}

/// The text that asks a channel for `query`.
pub open spec fn search_text(query: Seq<char>) -> Seq<char> {
    "!s "@ + query
}

/// The message that asks for a download again: its command, to its sender.
pub open spec fn resend(item: DownloadItem) -> OutgoingView {
    OutgoingView { target: item.nick@, text: item.request_command@ }
}

/// `id` holds a download of the file `name`, and no smaller number does.
pub open spec fn is_first_match(
    items: Map<usize, DownloadItem>,
    name: Seq<char>,
    id: usize,
) -> bool {
    &&& items.contains_key(id)
    &&& items[id].file_name@ == name
    &&& forall|other: usize|
        other < id && #[trigger] items.contains_key(other) ==> items[other].file_name@ != name
}

/// Some download is of the file `name`.
pub open spec fn has_match(items: Map<usize, DownloadItem>, name: Seq<char>) -> bool {
    exists|id: usize| #[trigger] items.contains_key(id) && items[id].file_name@ == name
}

/// `messages` asks for each download of `all` again, in the same order.
pub open spec fn resends(messages: Seq<Outgoing>, all: Seq<DownloadItem>) -> bool {
    &&& messages.len() == all.len()
    &&& forall|i: int| 0 <= i < messages.len() ==> (#[trigger] messages[i])@ == resend(all[i])
}

/// Of the downloads of one file only one has the smallest number.
pub proof fn lemma_first_match_is_unique(
    items: Map<usize, DownloadItem>,
    name: Seq<char>,
    a: usize,
    b: usize,
)
    requires
        is_first_match(items, name, a),
        is_first_match(items, name, b),
    ensures
        a == b,
{
    if a < b {
        assert(items.contains_key(a));
    }
    if b < a {
        assert(items.contains_key(b));
    }
}

/// A transfer of the download runs or is being set up.
pub open spec fn transferring(item: DownloadItem) -> bool {
    item.status is Connecting || item.status is Progress
}

/// The downloads after an offer for the file `name`, and what the offer
/// meant.
///
/// The offer is for the download of that file with the smallest number. That
/// download becomes `Connecting`, unless its transfer runs or is being set up
/// already.
pub open spec fn offered(items: Map<usize, DownloadItem>, name: Seq<char>) -> (
    Map<usize, DownloadItem>,
    OfferMatch,
) {
    if has_match(items, name) {
        let id = choose|id: usize| is_first_match(items, name, id);
        if transferring(items[id]) {
            (items, OfferMatch::Busy(id))
        } else {
            (
                items.insert(id, with_status(items[id], DownloadStatus::Connecting)),
                OfferMatch::Start(id),
            )
        }
    } else {
        (items, OfferMatch::Unknown)
    }
}

/// The downloads after the user ended download `id`, and what that meant.
pub open spec fn aborted(items: Map<usize, DownloadItem>, id: usize) -> (
    Map<usize, DownloadItem>,
    Aborted,
) {
    (
        items.remove(id),
        if !items.contains_key(id) {
            Aborted::NotFound
        } else if transferring(items[id]) {
            Aborted::Cancelled
        } else {
            Aborted::Removed
        },
    )
}

/// The downloads after the transfer of download `id` reported `progress`.
pub open spec fn progressed(
    items: Map<usize, DownloadItem>,
    id: usize,
    progress: DownloadProgress,
) -> Map<usize, DownloadItem> {
    if items.contains_key(id) {
        items.insert(id, with_status(items[id], DownloadStatus::Progress(progress)))
    } else {
        items
    }
}

/// The downloads after the transfer of download `id` ended.
///
/// A completed download leaves. A failed one stays and shows the reason. An
/// aborted one has left already, and nothing changes.
pub open spec fn finished(items: Map<usize, DownloadItem>, id: usize, outcome: Outcome) -> Map<
    usize,
    DownloadItem,
> {
    match outcome {
        Outcome::Completed => items.remove(id),
        Outcome::Failed(reason) => if items.contains_key(id) {
            items.insert(id, with_status(items[id], DownloadStatus::Failed(reason)))
        } else {
            items
        },
        Outcome::Aborted => items,
    }
}

impl ServerConnection {
    #[verifier::type_invariant]
    spec fn well_formed(&self) -> bool {
        &&& self.connected_at + RETRY_DELAY_SECS <= u64::MAX
        &&& forall|id: usize| #[trigger]
            entries(self.downloads).contains_key(id) ==> entries(self.downloads)[id].id == id
    }

    /// What the connection's map of downloads holds.
    pub closed spec fn items(&self) -> Map<usize, DownloadItem> {
        entries(self.downloads)
    }

    /// The channels of the connection.
    pub closed spec fn spec_channels(&self) -> &Vec<Channel> {
        &self.channels
    }

    /// When the connection was made, in seconds on the agent's clock.
    pub closed spec fn spec_connected_at(&self) -> u64 {
        self.connected_at
    }

    /// The channels of the connection.
    #[verifier::when_used_as_spec(spec_channels)]
    pub fn channels(&self) -> (channels: &Vec<Channel>)
        ensures
            channels == self.channels(),
    {
        &self.channels
    }

    /// When the connection was made, in seconds on the agent's clock.
    #[verifier::when_used_as_spec(spec_connected_at)]
    pub fn connected_at(&self) -> (at: u64)
        ensures
            at == self.connected_at(),
            at + RETRY_DELAY_SECS <= u64::MAX,
    {
        proof {
            use_type_invariant(self);
        }
        self.connected_at
    }

    /// A connection made at `connected_at`, with no downloads yet.
    pub fn new(channels: Vec<Channel>, connected_at: u64) -> (connection: ServerConnection)
        requires
            connected_at + RETRY_DELAY_SECS <= u64::MAX,
        ensures
            connection.channels() == channels,
            connection.connected_at() == connected_at,
            connection.items() == Map::<usize, DownloadItem>::empty(),
    {
        ServerConnection { channels, downloads: registry_new(), connected_at }
    }

    /// The names of the channels to join, in order.
    pub fn join_channels(&self) -> (names: Vec<String>)
        ensures
            names@.len() == self.channels()@.len(),
            forall|i: int|
                0 <= i < names@.len() ==> (#[trigger] names@[i])@ == self.channels()@[i].name@,
    {
        let mut names: Vec<String> = Vec::new();
        let mut i: usize = 0;
        while i < self.channels.len()
            invariant
                i <= self.channels@.len(),
                names@.len() == i,
                forall|k: int| 0 <= k < i ==> (#[trigger] names@[k])@ == self.channels@[k].name@,
            decreases self.channels@.len() - i,
        {
            names.push(self.channels[i].name.clone());
            i += 1;
        }
        names
    }

    /// The messages that ask for `query`: one to each channel that searches
    /// go to, in order.
    pub fn search(&self, query: &str) -> (messages: Vec<Outgoing>)
        ensures
            messages@.len() == search_targets(self.channels()@).len(),
            forall|i: int|
                0 <= i < messages@.len() ==> (#[trigger] messages@[i])@ == (OutgoingView {
                    target: search_targets(self.channels()@)[i],
                    text: search_text(query@),
                }),
    {
        let mut messages: Vec<Outgoing> = Vec::new();
        let mut i: usize = 0;
        assert(self.channels@.take(0) =~= Seq::<Channel>::empty());
        while i < self.channels.len()
            invariant
                i <= self.channels@.len(),
                messages@.len() == search_targets(self.channels@.take(i as int)).len(),
                forall|k: int|
                    0 <= k < messages@.len() ==> (#[trigger] messages@[k])@ == (OutgoingView {
                        target: search_targets(self.channels@.take(i as int))[k],
                        text: search_text(query@),
                    }),
            decreases self.channels@.len() - i,
        {
            proof {
                let next = self.channels@.take(i + 1);
                assert(next.drop_last() =~= self.channels@.take(i as int));
                assert(next.last() == self.channels@[i as int]);
            }
            if self.channels[i].search {
                let mut text = String::new();
                text.append("!s ");
                text.append(query);
                assert(text@ =~= search_text(query@));
                messages.push(Outgoing { target: self.channels[i].name.clone(), text });
            }
            i += 1;
        }
        assert(self.channels@.take(i as int) =~= self.channels@);
        messages
    }

    /// Takes up a new download under the number `id`, and gives the message
    /// that asks its sender for the file.
    pub fn request_download(
        &mut self,
        id: DownloadId,
        request: DownloadRequest,
    ) -> (message: Outgoing)
        ensures
            final(self).items() == old(self).items().insert(id, requested(id, request)),
            final(self).channels() == old(self).channels(),
            final(self).connected_at() == old(self).connected_at(),
            message@ == (OutgoingView { target: request.nick@, text: request.command@ }),
    {
        proof {
            use_type_invariant(&*self);
        }
        let message = Outgoing { target: request.nick.clone(), text: request.command.clone() };
        let item = DownloadItem::new(id, request);
        registry_insert(&mut self.downloads, id, item);
        message
    }

    /// The network does not let the agent talk to other users yet: every
    /// requested download waits until the time that is returned, which is
    /// `RETRY_DELAY_SECS` after the connection was made. Other downloads stay
    /// as they are.
    pub fn mark_downloads_delayed(&mut self) -> (until: u64)
        ensures
            until == old(self).connected_at() + RETRY_DELAY_SECS,
            final(self).items().dom() == old(self).items().dom(),
            forall|id: usize| #[trigger]
                old(self).items().contains_key(id) ==> final(self).items()[id] == delayed(
                    old(self).items()[id],
                    until,
                ),
            final(self).channels() == old(self).channels(),
            final(self).connected_at() == old(self).connected_at(),
    {
        proof {
            use_type_invariant(&*self);
        }
        let until = self.connected_at + RETRY_DELAY_SECS;
        registry_alter_all(&mut self.downloads, &Transition::Delay { until });
        assert forall|id: usize| #[trigger] self.items().contains_key(id) implies self.items()[id]
            .id == id by {
            assert(old(self).items().contains_key(id));
        }
        until
    }

    /// The network does not know `nick`: every download whose sender is that
    /// nick to an IRC server becomes `SenderAbsent`. Other downloads stay as
    /// they are.
    pub fn handle_sender_gone(&mut self, nick: &str)
        ensures
            final(self).items().dom() == old(self).items().dom(),
            forall|id: usize| #[trigger]
                old(self).items().contains_key(id) ==> final(self).items()[id] == sender_gone(
                    old(self).items()[id],
                    nick@,
                ),
            final(self).channels() == old(self).channels(),
            final(self).connected_at() == old(self).connected_at(),
    {
        proof {
            use_type_invariant(&*self);
        }
        registry_alter_all(&mut self.downloads, &Transition::SenderGone { nick: nick.to_owned() });
        assert forall|id: usize| #[trigger] self.items().contains_key(id) implies self.items()[id]
            .id == id by {
            assert(old(self).items().contains_key(id));
        }
    }

    /// The user ends download `id`: it leaves, whatever its state. Where its
    /// transfer ran or was being set up, the result asks for the transfer to
    /// be cancelled. Where there is no such download, nothing changes.
    pub fn abort_download(&mut self, id: &DownloadId) -> (result: Aborted)
        ensures
            (final(self).items(), result) == aborted(old(self).items(), *id),
            final(self).channels() == old(self).channels(),
            final(self).connected_at() == old(self).connected_at(),
    {
        proof {
            use_type_invariant(&*self);
        }
        match registry_remove(&mut self.downloads, *id) {
            None => Aborted::NotFound,
            Some(item) => if item.is_transferring() {
                Aborted::Cancelled
            } else {
                Aborted::Removed
            },
        }
    }

    /// The transfer of download `id` is done: the download leaves.
    pub fn completed(&mut self, id: &DownloadId)
        ensures
            final(self).items() == old(self).items().remove(*id),
            final(self).channels() == old(self).channels(),
            final(self).connected_at() == old(self).connected_at(),
    {
        proof {
            use_type_invariant(&*self);
        }
        registry_remove(&mut self.downloads, *id);
    }

    /// The transfer of download `id` has written `transferred` bytes of a
    /// file whose offer gave `file_size`. Where there is no such download,
    /// nothing changes.
    pub fn progress(&mut self, id: &DownloadId, transferred: usize, file_size: Option<usize>)
        ensures
            final(self).items() == progressed(
                old(self).items(),
                *id,
                DownloadProgress { transferred, file_size },
            ),
            final(self).channels() == old(self).channels(),
            final(self).connected_at() == old(self).connected_at(),
    {
        proof {
            use_type_invariant(&*self);
        }
        registry_alter(
            &mut self.downloads,
            *id,
            &Transition::Progress(DownloadProgress { transferred, file_size }),
        );
    }

    /// The transfer of download `id` ended with `outcome`.
    pub fn finish(&mut self, id: &DownloadId, outcome: Outcome)
        ensures
            final(self).items() == finished(old(self).items(), *id, outcome),
            final(self).channels() == old(self).channels(),
            final(self).connected_at() == old(self).connected_at(),
    {
        proof {
            use_type_invariant(&*self);
        }
        match outcome {
            Outcome::Completed => {
                registry_remove(&mut self.downloads, *id);
            },
            Outcome::Failed(reason) => {
                registry_alter(&mut self.downloads, *id, &Transition::Fail { reason });
            },
            Outcome::Aborted => {},
        }
    }

    /// An offer came: the download that waits for the offered file becomes
    /// `Connecting`, and the result names it. Of several downloads of that
    /// file the one with the smallest number is meant. Where the transfer of
    /// that download runs or is being set up already, or no download is of
    /// that file, nothing changes.
    pub fn accept_offer(&mut self, offer: &DccSend) -> (result: OfferMatch)
        ensures
            (final(self).items(), result) == offered(old(self).items(), offer@.file_name),
            final(self).channels() == old(self).channels(),
            final(self).connected_at() == old(self).connected_at(),
    {
        proof {
            use_type_invariant(&*self);
        }
        let listing = registry_list(&self.downloads);
        let ghost items = self.items();
        let ghost name = offer.file_name@;
        let mut best: Option<usize> = None;
        let mut busy = false;
        let mut i: usize = 0;
        while i < listing.len()
            invariant
                i <= listing@.len(),
                lists(listing@, items),
                name == offer.file_name@,
                match best {
                    Some(id) => items.contains_key(id) && items[id].file_name@ == name && busy
                        == transferring(items[id]) && forall|k: int|
                        0 <= k < i && (#[trigger] listing@[k]).1.file_name@ == name ==> id
                            <= listing@[k].0,
                    None => forall|k: int|
                        0 <= k < i ==> (#[trigger] listing@[k]).1.file_name@ != name,
                },
            decreases listing@.len() - i,
        {
            let id = listing[i].0;
            if listing[i].1.file_name == offer.file_name {
                let smaller = match best {
                    Some(other) => id < other,
                    None => true,
                };
                if smaller {
                    best = Some(id);
                    busy = listing[i].1.is_transferring();
                }
            }
            i += 1;
        }
        match best {
            None => {
                proof {
                    assert forall|id: usize| #[trigger] items.contains_key(id) implies items[id]
                        .file_name@ != name by {
                        let k = choose|k: int| 0 <= k < listing@.len() && listing@[k].0 == id;
                        assert(listing@[k].1.file_name@ != name);
                    }
                }
                OfferMatch::Unknown
            },
            Some(id) => {
                proof {
                    assert forall|other: usize|
                        other < id && #[trigger] items.contains_key(other) implies items[other]
                        .file_name@ != name by {
                        let k = choose|k: int| 0 <= k < listing@.len() && listing@[k].0 == other;
                        assert(listing@[k].1 == items[other]);
                    }
                    assert(is_first_match(items, name, id));
                    lemma_first_match_is_unique(
                        items,
                        name,
                        id,
                        choose|id: usize| is_first_match(items, name, id),
                    );
                }
                if busy {
                    OfferMatch::Busy(id)
                } else {
                    registry_alter(&mut self.downloads, id, &Transition::Connect);
                    OfferMatch::Start(id)
                }
            },
        }
    }

    /// The messages that ask for every download of the connection again: for
    /// each download its own command, as it was first sent, to its sender.
    pub fn retry_commands(&self) -> (messages: Vec<Outgoing>)
        ensures
            exists|all: Seq<DownloadItem>| #[trigger]
                shows(all, self.items()) && resends(messages@, all),
    {
        let all = self.downloads();
        let mut messages: Vec<Outgoing> = Vec::new();
        let mut i: usize = 0;
        while i < all.len()
            invariant
                i <= all@.len(),
                messages@.len() == i,
                forall|k: int| 0 <= k < i ==> (#[trigger] messages@[k])@ == resend(all@[k]),
            decreases all@.len() - i,
        {
            messages.push(
                Outgoing { target: all[i].nick.clone(), text: all[i].request_command.clone() },
            );
            i += 1;
        }
        assert(shows(all@, self.items()) && resends(messages@, all@));
        messages
    }

    /// Every download of the connection once, in no particular order.
    pub fn downloads(&self) -> (all: Vec<DownloadItem>)
        ensures
            shows(all@, self.items()),
    {
        proof {
            use_type_invariant(self);
        }
        let mut listing = registry_list(&self.downloads);
        let ghost listed = listing@;
        let mut all: Vec<DownloadItem> = Vec::new();
        while listing.len() > 0
            invariant
                forall|id: usize| #[trigger]
                    self.items().contains_key(id) ==> self.items()[id].id == id,
                lists(listed, self.items()),
                listing@.len() + all@.len() == listed.len(),
                listing@ == listed.take(listing@.len() as int),
                forall|i: int|
                    0 <= i < all@.len() ==> #[trigger] all@[i] == listed[listed.len() - 1 - i].1,
            decreases listing@.len(),
        {
            let entry = listing.pop().unwrap();
            all.push(entry.1);
        }
        proof {
            let items = self.items();
            assert forall|i: int| 0 <= i < all@.len() implies items.contains_key(
                (#[trigger] all@[i]).id,
            ) && items[all@[i].id] == all@[i] by {
                let at = listed.len() - 1 - i;
                assert(items.contains_key(listed[at].0));
            }
            assert forall|i: int, j: int| 0 <= i < j < all@.len() implies (#[trigger] all@[i]).id
                != (#[trigger] all@[j]).id by {
                let a = listed.len() - 1 - i;
                let b = listed.len() - 1 - j;
                assert(items.contains_key(listed[a].0));
                assert(items.contains_key(listed[b].0));
                assert(listed[b].0 != listed[a].0);
            }
            assert forall|id: usize| #[trigger] items.contains_key(id) implies exists|i: int|
                0 <= i < all@.len() && all@[i].id == id by {
                let at = choose|at: int| 0 <= at < listed.len() && listed[at].0 == id;
                let i = listed.len() - 1 - at;
                assert(all@[i] == listed[at].1);
                assert(items.contains_key(listed[at].0));
            }
        }
        all
    }
}

/// Ending a download removes it, whatever its state, and asks for its
/// transfer to be cancelled where one ran or was being set up. Ending a
/// download that is not there changes nothing, so ending one twice is ending
/// it once.
pub proof fn lemma_abort_removes(items: Map<usize, DownloadItem>, id: usize)
    ensures
        !aborted(items, id).0.contains_key(id),
        forall|other: usize|
            other != id ==> aborted(items, id).0.contains_key(other) == #[trigger] items
                .contains_key(other) && aborted(items, id).0[other] == items[other],
        items.contains_key(id) && transferring(items[id]) ==> aborted(items, id).1
            == Aborted::Cancelled,
        !items.contains_key(id) ==> aborted(items, id) == (items, Aborted::NotFound),
        aborted(aborted(items, id).0, id) == (aborted(items, id).0, Aborted::NotFound),
{
    assert(!items.contains_key(id) ==> items.remove(id) =~= items);
    assert(items.remove(id).remove(id) =~= items.remove(id));
}

/// Once a download has been ended, nothing that its transfer reports brings
/// it back: neither progress nor any outcome, a failure included, puts a
/// download under its number again.
pub proof fn lemma_aborted_stays_gone(
    items: Map<usize, DownloadItem>,
    id: usize,
    progress: DownloadProgress,
    outcome: Outcome,
)
    ensures
        progressed(aborted(items, id).0, id, progress) == aborted(items, id).0,
        finished(aborted(items, id).0, id, outcome) == aborted(items, id).0,
{
    assert(items.remove(id).remove(id) =~= items.remove(id));
}

/// Delaying touches the requested downloads only, gives each the time to try
/// again, and leaves the message that asks for a download again as it was:
/// the command first sent, to the same sender.
pub proof fn lemma_delay_keeps_request(item: DownloadItem, until: u64)
    ensures
        item.status is Requested ==> delayed(item, until).status == DownloadStatus::Delayed(until),
        !(item.status is Requested) ==> delayed(item, until) == item,
        resend(delayed(item, until)) == resend(item),
        delayed(item, until).id == item.id,
{
}

/// After a throttle, the requests that are sent again hold, for every
/// download of the connection, the command that was first sent for it, to the
/// same sender; so each download that the throttle delayed is asked for again
/// as it was asked for before.
pub proof fn lemma_retry_resends_delayed(
    before: Map<usize, DownloadItem>,
    after: Map<usize, DownloadItem>,
    until: u64,
    all: Seq<DownloadItem>,
    messages: Seq<Outgoing>,
    id: usize,
)
    requires
        after.dom() == before.dom(),
        forall|id: usize| #[trigger]
            before.contains_key(id) ==> after[id] == delayed(before[id], until),
        shows(all, after),
        resends(messages, all),
        before.contains_key(id),
    ensures
        before[id].status is Requested ==> after[id].status == DownloadStatus::Delayed(until),
        exists|i: int| 0 <= i < messages.len() && (#[trigger] messages[i])@ == resend(before[id]),
{
    assert(after.contains_key(id));
    let i = choose|i: int| 0 <= i < all.len() && all[i].id == id;
    assert(after[all[i].id] == all[i]);
    assert(messages[i]@ == resend(all[i]));
}

/// A download loses its sender exactly if its sender is the missing nick to
/// an IRC server; every other download stays as it is, and none changes in
/// anything but its state.
pub proof fn lemma_sender_gone_by_nick(item: DownloadItem, nick: Seq<char>)
    ensures
        nick_eq(item.nick@, nick) ==> sender_gone(item, nick).status is SenderAbsent,
        !nick_eq(item.nick@, nick) ==> sender_gone(item, nick) == item,
        sender_gone(item, nick) == with_status(item, sender_gone(item, nick).status),
{
}

/// An offer changes at most one download, and only one of the offered file:
/// the download that starts becomes `Connecting`, every other download stays
/// as it is; a download of another file is never touched, and an offer that
/// starts nothing changes nothing.
pub proof fn lemma_offer_touches_one(items: Map<usize, DownloadItem>, name: Seq<char>)
    ensures
        offered(items, name).0.dom() == items.dom(),
        forall|id: usize| #[trigger]
            items.contains_key(id) && items[id].file_name@ != name ==> offered(items, name).0[id]
                == items[id],
        offered(items, name).1 matches OfferMatch::Start(id) ==> {
            &&& is_first_match(items, name, id)
            &&& !transferring(items[id])
            &&& offered(items, name).0[id] == with_status(items[id], DownloadStatus::Connecting)
            &&& forall|other: usize|
                other != id && #[trigger] items.contains_key(other) ==> offered(
                    items,
                    name,
                ).0[other] == items[other]
        },
        offered(items, name).1 matches OfferMatch::Busy(id) ==> is_first_match(items, name, id)
            && transferring(items[id]) && offered(items, name).0 == items,
        offered(items, name).1 is Unknown ==> !has_match(items, name) && offered(items, name).0
            == items,
{
    if has_match(items, name) {
        lemma_has_first_match(items, name);
        let id = choose|id: usize| is_first_match(items, name, id);
        if !transferring(items[id]) {
            assert(offered(items, name).0.dom() =~= items.dom());
        }
    }
}

/// Where some download is of a file, one of them has the smallest number.
pub proof fn lemma_has_first_match(items: Map<usize, DownloadItem>, name: Seq<char>)
    requires
        has_match(items, name),
    ensures
        exists|id: usize| is_first_match(items, name, id),
{
    let some = choose|id: usize| #[trigger] items.contains_key(id) && items[id].file_name@ == name;
    lemma_first_match_below(items, name, some, some);
}

proof fn lemma_first_match_below(
    items: Map<usize, DownloadItem>,
    name: Seq<char>,
    found: usize,
    below: usize,
)
    requires
        items.contains_key(found),
        items[found].file_name@ == name,
        below <= found,
        forall|other: usize|
            below <= other < found && #[trigger] items.contains_key(other) ==> items[other]
                .file_name@ != name,
    ensures
        exists|id: usize| is_first_match(items, name, id),
    decreases below,
{
    if below == 0 {
        assert(is_first_match(items, name, found));
    } else {
        let next = (below - 1) as usize;
        if items.contains_key(next) && items[next].file_name@ == name {
            lemma_first_match_below(items, name, next, next);
        } else {
            lemma_first_match_below(items, name, found, next);
        }
    }
}

} // verus!
