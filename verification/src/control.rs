//! What a message from a network means to the agent.
//!
//! The control loop hands every message of every network to
//! `ServerConnection::handle`, for the connection that it came from, and then
//! does what the reaction asks for: start a transfer, join channels, keep a
//! search result, or set the timer after which requests are sent again.

use crate::dcc::{parse_offer, DccSend, OfferView};
use crate::download::{delayed, sender_gone, DownloadId, DownloadItem};
use crate::search::{search_result_of, SearchResult, SearchResultView};
use crate::server::{offered, OfferMatch, ServerConnection, RETRY_DELAY_SECS};
use vstd::prelude::*;

verus! {

/// The numeric reply that ends the registration with a network.
pub const RPL_WELCOME: u16 = 1;

/// The numeric reply for a message to a nick that the network does not know.
pub const ERR_NOSUCHNICK: u16 = 401;

/// The command of the reply of a network that does not let a new connection
/// talk to other users yet.
pub const THROTTLED: &'static str = "531";

/// A message from a network, as far as the agent reads it.
#[derive(Clone, Debug)]
pub enum Incoming {
    /// A message to a channel or to the agent; `sender` is the nick that it
    /// came from, if it came from a user.
    Privmsg { sender: Option<String>, target: String, text: String },
    /// A notice.
    Notice { text: String },
    /// A numeric reply that the protocol names, with its arguments.
    Response { code: u16, args: Vec<String> },
    /// A reply that the protocol does not name, with its command as sent.
    Raw { command: String },
    /// Anything else.
    Other,
}

/// What the control loop is to do after a message.
#[derive(Clone, Debug)]
pub enum Reaction {
    /// Start the transfer of download `id`, which `nick` offers.
    StartTransfer { id: DownloadId, offer: DccSend, nick: String },
    /// Nothing: the offer is for download `id`, whose transfer runs or is
    /// being set up already.
    OfferIgnored { id: DownloadId },
    /// Nothing: no download waits for the offered file.
    OfferUnmatched { offer: DccSend },
    /// Join these channels.
    JoinChannels { names: Vec<String> },
    /// Keep this search result.
    SearchHit { result: SearchResult },
    /// Nothing: the downloads of the missing sender are marked.
    SenderMarked,
    /// Send the requests of the connection again at this time.
    RetryAt { until: u64 },
    /// Nothing.
    Nothing,
}

/// A reaction as plain values.
pub enum ReactionView {
    StartTransfer { id: DownloadId, offer: OfferView, nick: Seq<char> },
    OfferIgnored { id: DownloadId },
    OfferUnmatched { offer: OfferView },
    JoinChannels { names: Seq<Seq<char>> },
    SearchHit { result: SearchResultView },
    SenderMarked,
    RetryAt { until: u64 },
    Nothing,
}

impl View for Reaction {
    type V = ReactionView;

    open spec fn view(&self) -> ReactionView {
        match *self {
            Reaction::StartTransfer { id, offer, nick } => ReactionView::StartTransfer {
                id,
                offer: offer@,
                nick: nick@,
            },
            Reaction::OfferIgnored { id } => ReactionView::OfferIgnored { id },
            Reaction::OfferUnmatched { offer } => ReactionView::OfferUnmatched { offer: offer@ },
            Reaction::JoinChannels { names } => ReactionView::JoinChannels {
                names: Seq::new(names@.len(), |i: int| names@[i]@),
            },
            Reaction::SearchHit { result } => ReactionView::SearchHit { result: result@ },
            Reaction::SenderMarked => ReactionView::SenderMarked,
            Reaction::RetryAt { until } => ReactionView::RetryAt { until },
            Reaction::Nothing => ReactionView::Nothing,
        }
    }
}

/// The reaction to an offer from `nick`, given what the offer meant to the
/// downloads.
pub open spec fn offer_reaction(
    matched: OfferMatch,
    offer: OfferView,
    nick: Seq<char>,
) -> ReactionView {
    match matched {
        OfferMatch::Start(id) => ReactionView::StartTransfer { id, offer, nick },
        OfferMatch::Busy(id) => ReactionView::OfferIgnored { id },
        OfferMatch::Unknown => ReactionView::OfferUnmatched { offer },
    }
}

/// The downloads of a connection after a message, and the reaction to it.
///
/// - A message from a user that holds an offer goes to the download that
///   waits for the offered file.
/// - A notice that lists a file gives a search result.
/// - The welcome of the network asks for the channels to be joined.
/// - The reply that a nick is unknown marks the downloads of that nick; the
///   nick is the second argument of the reply.
/// - The reply that the agent may not talk yet delays the requested
///   downloads and asks for the requests to be sent again.
/// - Nothing else means anything.
pub open spec fn handled(
    connection: ServerConnection,
    server: Seq<char>,
    message: Incoming,
) -> (Map<usize, DownloadItem>, ReactionView) {
    let items = connection.items();
    match message {
        Incoming::Privmsg { sender: Some(nick), text, .. } => match parse_offer(text@) {
            Some(offer) => (
                offered(items, offer.file_name).0,
                offer_reaction(offered(items, offer.file_name).1, offer, nick@),
            ),
            None => (items, ReactionView::Nothing),
        },
        Incoming::Notice { text } => match search_result_of(server, text@) {
            Some(result) => (items, ReactionView::SearchHit { result }),
            None => (items, ReactionView::Nothing),
        },
        Incoming::Response { code, args } => if code == RPL_WELCOME {
            (
                items,
                ReactionView::JoinChannels {
                    names: Seq::new(
                        connection.channels()@.len(),
                        |i: int| connection.channels()@[i].name@,
                    ),
                },
            )
        } else if code == ERR_NOSUCHNICK && args@.len() >= 2 {
            (
                Map::new(
                    |id: usize| items.contains_key(id),
                    |id: usize| sender_gone(items[id], args@[1]@),
                ),
                ReactionView::SenderMarked,
            )
        } else {
            (items, ReactionView::Nothing)
        },
        Incoming::Raw { command } => if command@ == THROTTLED@ {
            (
                Map::new(
                    |id: usize| items.contains_key(id),
                    |id: usize|
                        delayed(items[id], (connection.connected_at() + RETRY_DELAY_SECS) as u64),
                ),
                ReactionView::RetryAt {
                    until: (connection.connected_at() + RETRY_DELAY_SECS) as u64,
                },
            )
        } else {
            (items, ReactionView::Nothing)
        },
        _ => (items, ReactionView::Nothing),
    }
}

impl ServerConnection {
    /// Takes a message that came from this connection's network, which is
    /// `server`, and says what the control loop is to do.
    pub fn handle(&mut self, server: &str, message: Incoming) -> (reaction: Reaction)
        ensures
            (final(self).items(), reaction@) == handled(*old(self), server@, message),
            final(self).channels() == old(self).channels(),
            final(self).connected_at() == old(self).connected_at(),
    {
        match message {
            Incoming::Privmsg { sender: Some(nick), text, .. } => {
                match DccSend::from_str(text.as_str()) {
                    Some(offer) => match self.accept_offer(&offer) {
                        OfferMatch::Start(id) => Reaction::StartTransfer { id, offer, nick },
                        OfferMatch::Busy(id) => Reaction::OfferIgnored { id },
                        OfferMatch::Unknown => Reaction::OfferUnmatched { offer },
                    },
                    None => Reaction::Nothing,
                }
            },
            Incoming::Notice { text } => {
                match SearchResult::from_notice(server, text.as_str()) {
                    Some(result) => Reaction::SearchHit { result },
                    None => Reaction::Nothing,
                }
            },
            Incoming::Response { code, args } => {
                if code == RPL_WELCOME {
                    let names = self.join_channels();
                    assert(Seq::new(names@.len(), |i: int| names@[i]@) =~= Seq::new(
                        self.channels()@.len(),
                        |i: int| self.channels()@[i].name@,
                    ));
                    Reaction::JoinChannels { names }
                } else if code == ERR_NOSUCHNICK && args.len() >= 2 {
                    self.handle_sender_gone(args[1].as_str());
                    assert(self.items() =~= handled(*old(self), server@, message).0);
                    Reaction::SenderMarked
                } else {
                    Reaction::Nothing
                }
            },
            Incoming::Raw { command } => {
                if command == THROTTLED.to_owned() {
                    let until = self.mark_downloads_delayed();
                    assert(self.items() =~= handled(*old(self), server@, message).0);
                    Reaction::RetryAt { until }
                } else {
                    Reaction::Nothing
                }
            },
            _ => Reaction::Nothing,
        }
    }
}

} // verus!
