//! One file transfer as a state machine.
//!
//! The machine decides; its driver acts. `DccSend::download` gives the first
//! action, the driver performs it and reports what happened as an `Event`, and
//! `Transfer::step` answers with the next action, until the action is `Stop`.
//!
//! A passive offer (port zero) makes the receiver listen: bind, answer the
//! offer over chat, wait for the sender to connect and check that it is the
//! sender. An active offer makes the receiver connect. From there both go the
//! same way: create the file, tell the sender that nothing of it is held yet,
//! then read and store until the sender closes.

use crate::dcc::{
    be_bytes, reply_text, resume_ack, DccSend, DownloadProgress, Ipv4, OfferView, PeerAddress,
};
use vstd::prelude::*;

verus! {

/// Seconds to wait for a connection, outgoing or incoming.
pub const CONNECT_TIMEOUT_SECS: u64 = 30;

/// Bytes to ask for in one read.
pub const CHUNK_SIZE: usize = 16384;

/// How a transfer ended.
#[derive(Debug)]
pub enum Outcome {
    /// The sender closed the stream and the file is flushed.
    Completed,
    /// The transfer failed, for this reason.
    Failed(String),
    /// The transfer was cancelled.
    Aborted,
}

/// What a transfer waits for.
#[derive(Debug)]
pub enum Phase {
    /// For the listening socket to be bound.
    Binding,
    /// For the answer to the offer to be sent.
    Offering,
    /// For the sender to connect.
    Accepting,
    /// For the connection to the sender.
    Connecting,
    /// For the file to be created.
    Opening,
    /// For the acknowledgment to be written.
    Acknowledging,
    /// For bytes from the sender.
    Reading,
    /// For the bytes last read to be written to the file.
    Storing,
    /// For the file to be flushed.
    Flushing,
    /// For nothing: the transfer is over.
    Stopped(Outcome),
}

/// What the driver reports.
#[derive(Debug)]
pub enum Event {
    /// The listening socket is bound, to this port.
    Bound { port: u16 },
    /// The answer to the offer is sent.
    OfferSent,
    /// A peer connected, from this address.
    Accepted { peer: Ipv4 },
    /// The connection to the sender stands.
    Connected,
    /// The file is created.
    FileCreated,
    /// The acknowledgment is written.
    AckSent,
    /// A read returned this many bytes; none means that the sender closed.
    Data { len: usize },
    /// A read found nothing to read yet.
    NotReady,
    /// The bytes last read are written to the file.
    Stored,
    /// The file is flushed.
    Flushed,
    /// The time to wait ran out.
    TimedOut,
    /// The last action failed, for this reason.
    Failed { reason: String },
    /// The transfer was cancelled.
    Cancelled,
}

/// What the driver is to do next.
#[derive(Debug)]
pub enum Action {
    /// Listen on every local address at this port (zero: any free port).
    Bind { port: u16 },
    /// Send this message to the sender over chat.
    SendOffer { message: String },
    /// Wait for one incoming connection.
    Accept { timeout_secs: u64 },
    /// Connect to the sender.
    Connect { address: PeerAddress, timeout_secs: u64 },
    /// Create the file of this name in the download directory, and the
    /// directory if it is missing; an older file of that name is overwritten.
    CreateFile { file_name: String },
    /// Write these bytes to the sender.
    SendAck { ack: [u8; 8] },
    /// Read at most this many bytes from the sender.
    Read { limit: usize },
    /// Write the `len` bytes last read to the file, then publish `progress`.
    Store { len: usize, progress: DownloadProgress },
    /// Flush the file.
    Flush,
    /// Close everything and report the outcome.
    Stop { outcome: Outcome },
}

/// One transfer: the offer, where the receiver can be reached, and how far the
/// transfer is.
#[derive(Debug)]
pub struct Transfer {
    pub offer: DccSend,
    pub local_ip: Ipv4,
    pub listen_port: u16,
    pub phase: Phase,
    pub transferred: usize,
}

pub enum OutcomeView {
    Completed,
    Failed(Seq<char>),
    Aborted,
}

pub enum PhaseView {
    Binding,
    Offering,
    Accepting,
    Connecting,
    Opening,
    Acknowledging,
    Reading,
    Storing,
    Flushing,
    Stopped(OutcomeView),
}

pub enum EventView {
    Bound { port: u16 },
    OfferSent,
    Accepted { peer: u32 },
    Connected,
    FileCreated,
    AckSent,
    Data { len: usize },
    NotReady,
    Stored,
    Flushed,
    TimedOut,
    Failed { reason: Seq<char> },
    Cancelled,
}

pub enum ActionView {
    Bind { port: u16 },
    SendOffer { message: Seq<char> },
    Accept { timeout_secs: u64 },
    Connect { ip: u32, port: u16, timeout_secs: u64 },
    CreateFile { file_name: Seq<char> },
    SendAck { ack: Seq<u8> },
    Read { limit: usize },
    Store { len: usize, progress: usize },
    Flush,
    Stop { outcome: OutcomeView },
}

pub struct TransferView {
    pub offer: OfferView,
    pub local_ip: u32,
    pub listen_port: u16,
    pub phase: PhaseView,
    pub transferred: usize,
}

impl View for Outcome {
    type V = OutcomeView;

    open spec fn view(&self) -> OutcomeView {
        match *self {
            Outcome::Completed => OutcomeView::Completed,
            Outcome::Failed(reason) => OutcomeView::Failed(reason@),
            Outcome::Aborted => OutcomeView::Aborted,
        }
    }
}

impl View for Phase {
    type V = PhaseView;

    open spec fn view(&self) -> PhaseView {
        match *self {
            Phase::Binding => PhaseView::Binding,
            Phase::Offering => PhaseView::Offering,
            Phase::Accepting => PhaseView::Accepting,
            Phase::Connecting => PhaseView::Connecting,
            Phase::Opening => PhaseView::Opening,
            Phase::Acknowledging => PhaseView::Acknowledging,
            Phase::Reading => PhaseView::Reading,
            Phase::Storing => PhaseView::Storing,
            Phase::Flushing => PhaseView::Flushing,
            Phase::Stopped(outcome) => PhaseView::Stopped(outcome@),
        }
    }
}

impl View for Event {
    type V = EventView;

    open spec fn view(&self) -> EventView {
        match *self {
            Event::Bound { port } => EventView::Bound { port },
            Event::OfferSent => EventView::OfferSent,
            Event::Accepted { peer } => EventView::Accepted { peer: peer.bits },
            Event::Connected => EventView::Connected,
            Event::FileCreated => EventView::FileCreated,
            Event::AckSent => EventView::AckSent,
            Event::Data { len } => EventView::Data { len },
            Event::NotReady => EventView::NotReady,
            Event::Stored => EventView::Stored,
            Event::Flushed => EventView::Flushed,
            Event::TimedOut => EventView::TimedOut,
            Event::Failed { reason } => EventView::Failed { reason: reason@ },
            Event::Cancelled => EventView::Cancelled,
        }
    }
}

impl View for Action {
    type V = ActionView;

    open spec fn view(&self) -> ActionView {
        match *self {
            Action::Bind { port } => ActionView::Bind { port },
            Action::SendOffer { message } => ActionView::SendOffer { message: message@ },
            Action::Accept { timeout_secs } => ActionView::Accept { timeout_secs },
            Action::Connect { address, timeout_secs } => ActionView::Connect {
                ip: address.ip.bits,
                port: address.port,
                timeout_secs,
            },
            Action::CreateFile { file_name } => ActionView::CreateFile { file_name: file_name@ },
            Action::SendAck { ack } => ActionView::SendAck { ack: ack@ },
            Action::Read { limit } => ActionView::Read { limit },
            Action::Store { len, progress } => ActionView::Store {
                len,
                progress: progress.transferred_bytes,
            },
            Action::Flush => ActionView::Flush,
            Action::Stop { outcome } => ActionView::Stop { outcome: outcome@ },
        }
    }
}

impl View for Transfer {
    type V = TransferView;

    open spec fn view(&self) -> TransferView {
        TransferView {
            offer: self.offer@,
            local_ip: self.local_ip.bits,
            listen_port: self.listen_port,
            phase: self.phase@,
            transferred: self.transferred,
        }
    }
}

/// Why a transfer fails when the time to wait runs out.
pub open spec fn timeout_reason() -> Seq<char> {
    "deadline has elapsed"@
}

/// Why a transfer fails when another peer than the sender connects.
pub open spec fn mismatch_reason() -> Seq<char> {
    "IP mismatch on connected client"@
}

/// Why a transfer fails when the count of its bytes leaves the machine's range.
pub open spec fn overflow_reason() -> Seq<char> {
    "transferred bytes exceed the countable range"@
}

/// Why a transfer fails when the driver reports what the machine did not wait
/// for.
pub open spec fn unexpected_reason() -> Seq<char> {
    "event does not fit the state of the transfer"@
}

/// The transfer of `offer` before anything has happened.
pub open spec fn start_spec(offer: OfferView, local_ip: u32, listen_port: u16) -> TransferView {
    TransferView {
        offer,
        local_ip,
        listen_port,
        phase: if offer.port == 0 {
            PhaseView::Binding
        } else {
            PhaseView::Connecting
        },
        transferred: 0,
    }
}

/// The first action of the transfer of `offer`: to listen where the offer is
/// passive, to connect to the sender where it is active.
pub open spec fn first_action(offer: OfferView, listen_port: u16) -> ActionView {
    if offer.port == 0 {
        ActionView::Bind { port: listen_port }
    } else {
        ActionView::Connect { ip: offer.ip, port: offer.port, timeout_secs: CONNECT_TIMEOUT_SECS }
    }
}

/// The transfer in another phase.
pub open spec fn moved(t: TransferView, phase: PhaseView) -> TransferView {
    TransferView { phase, ..t }
}

/// The transfer stopped, and the action that says so.
pub open spec fn stopped(t: TransferView, outcome: OutcomeView) -> (TransferView, ActionView) {
    (moved(t, PhaseView::Stopped(outcome)), ActionView::Stop { outcome })
}

/// What an event does to a transfer that still runs and was neither cancelled
/// nor told of a failure.
pub open spec fn advance(t: TransferView, event: EventView) -> (TransferView, ActionView) {
    match (t.phase, event) {
        (PhaseView::Binding, EventView::Bound { port }) => (
            moved(t, PhaseView::Offering),
            ActionView::SendOffer { message: reply_text(t.offer, t.local_ip, port) },
        ),
        (PhaseView::Offering, EventView::OfferSent) => (
            moved(t, PhaseView::Accepting),
            ActionView::Accept { timeout_secs: CONNECT_TIMEOUT_SECS },
        ),
        (PhaseView::Accepting, EventView::Accepted { peer }) => if peer == t.offer.ip {
            (moved(t, PhaseView::Opening), ActionView::CreateFile { file_name: t.offer.file_name })
        } else {
            stopped(t, OutcomeView::Failed(mismatch_reason()))
        },
        (PhaseView::Accepting, EventView::TimedOut) => stopped(
            t,
            OutcomeView::Failed(timeout_reason()),
        ),
        (PhaseView::Connecting, EventView::Connected) => (
            moved(t, PhaseView::Opening),
            ActionView::CreateFile { file_name: t.offer.file_name },
        ),
        (PhaseView::Connecting, EventView::TimedOut) => stopped(
            t,
            OutcomeView::Failed(timeout_reason()),
        ),
        (PhaseView::Opening, EventView::FileCreated) => (
            moved(t, PhaseView::Acknowledging),
            ActionView::SendAck { ack: be_bytes(0) },
        ),
        (PhaseView::Acknowledging, EventView::AckSent) => (
            moved(t, PhaseView::Reading),
            ActionView::Read { limit: CHUNK_SIZE },
        ),
        (PhaseView::Reading, EventView::Data { len }) => if len == 0 {
            (moved(t, PhaseView::Flushing), ActionView::Flush)
        } else if t.transferred + len > usize::MAX {
            stopped(t, OutcomeView::Failed(overflow_reason()))
        } else {
            (
                TransferView {
                    phase: PhaseView::Storing,
                    transferred: (t.transferred + len) as usize,
                    ..t
                },
                ActionView::Store { len, progress: (t.transferred + len) as usize },
            )
        },
        (PhaseView::Reading, EventView::NotReady) => (t, ActionView::Read { limit: CHUNK_SIZE }),
        (PhaseView::Storing, EventView::Stored) => (
            moved(t, PhaseView::Reading),
            ActionView::Read { limit: CHUNK_SIZE },
        ),
        (PhaseView::Flushing, EventView::Flushed) => stopped(t, OutcomeView::Completed),
        _ => stopped(t, OutcomeView::Failed(unexpected_reason())),
    }
}

/// What an event does to a transfer, and the action that follows.
///
/// A stopped transfer stays as it is and says again how it ended. A running
/// one stops when it is cancelled or told of a failure, and else goes on as
/// `advance` says.
pub open spec fn step_spec(t: TransferView, event: EventView) -> (TransferView, ActionView) {
    match t.phase {
        PhaseView::Stopped(outcome) => (t, ActionView::Stop { outcome }),
        _ => match event {
            EventView::Cancelled => stopped(t, OutcomeView::Aborted),
            EventView::Failed { reason } => stopped(t, OutcomeView::Failed(reason)),
            _ => advance(t, event),
        },
    }
}

impl Outcome {
    /// The same outcome again.
    pub fn duplicate(&self) -> (copy: Outcome)
        ensures
            copy@ == self@,
    {
        match self {
            Outcome::Completed => Outcome::Completed,
            Outcome::Failed(reason) => Outcome::Failed(reason.clone()),
            Outcome::Aborted => Outcome::Aborted,
        }
    }
}

impl DccSend {
    /// The same offer again.
    pub fn duplicate(&self) -> (copy: DccSend)
        ensures
            copy@ == self@,
    {
        DccSend {
            file_name: self.file_name.clone(),
            address: self.address,
            file_size: self.file_size,
            id: self.id,
        }
    }

    /// Starts the transfer of this offer, for a receiver whose public address
    /// is `local_ip` and who listens, where it has to, at `listen_port`.
    ///
    /// The first action is to listen where the offer is passive, and to
    /// connect to the sender where it is active.
    pub fn download(&self, local_ip: Ipv4, listen_port: u16) -> (started: (Transfer, Action))
        ensures
            started.0@ == start_spec(self@, local_ip.bits, listen_port),
            started.1@ == first_action(self@, listen_port),
    {
        if self.is_passive() {
            (
                Transfer {
                    offer: self.duplicate(),
                    local_ip,
                    listen_port,
                    phase: Phase::Binding,
                    transferred: 0,
                },
                Action::Bind { port: listen_port },
            )
        } else {
            (
                Transfer {
                    offer: self.duplicate(),
                    local_ip,
                    listen_port,
                    phase: Phase::Connecting,
                    transferred: 0,
                },
                Action::Connect { address: self.address, timeout_secs: CONNECT_TIMEOUT_SECS },
            )
        }
    }
}

impl Transfer {
    /// Stops the transfer with `outcome`.
    fn stop(&mut self, outcome: Outcome) -> (action: Action)
        ensures
            (final(self)@, action@) == stopped(old(self)@, outcome@),
    {
        let action = Action::Stop { outcome: outcome.duplicate() };
        self.phase = Phase::Stopped(outcome);
        action
    }

    /// Stops the transfer because `event` is not what it waited for.
    fn refuse(&mut self) -> (action: Action)
        ensures
            (final(self)@, action@) == stopped(
                old(self)@,
                OutcomeView::Failed(unexpected_reason()),
            ),
    {
        self.stop(Outcome::Failed("event does not fit the state of the transfer".to_owned()))
    }

    /// Takes what the driver reports and says what it is to do next.
    pub fn step(&mut self, event: Event) -> (action: Action)
        ensures
            (final(self)@, action@) == step_spec(old(self)@, event@),
    {
        if let Phase::Stopped(outcome) = &self.phase {
            return Action::Stop { outcome: outcome.duplicate() };
        }
        match event {
            Event::Cancelled => {
                return self.stop(Outcome::Aborted);
            },
            Event::Failed { reason } => {
                return self.stop(Outcome::Failed(reason));
            },
            _ => {},
        }
        match self.phase {
            Phase::Binding => match event {
                Event::Bound { port } => {
                    let message = self.offer.reply(self.local_ip, port);
                    self.phase = Phase::Offering;
                    Action::SendOffer { message }
                },
                _ => self.refuse(),
            },
            Phase::Offering => match event {
                Event::OfferSent => {
                    self.phase = Phase::Accepting;
                    Action::Accept { timeout_secs: CONNECT_TIMEOUT_SECS }
                },
                _ => self.refuse(),
            },
            Phase::Accepting => match event {
                Event::Accepted { peer } => {
                    if peer.bits == self.offer.address.ip.bits {
                        self.phase = Phase::Opening;
                        Action::CreateFile { file_name: self.offer.file_name.clone() }
                    } else {
                        self.stop(Outcome::Failed("IP mismatch on connected client".to_owned()))
                    }
                },
                Event::TimedOut => self.stop(Outcome::Failed("deadline has elapsed".to_owned())),
                _ => self.refuse(),
            },
            Phase::Connecting => match event {
                Event::Connected => {
                    self.phase = Phase::Opening;
                    Action::CreateFile { file_name: self.offer.file_name.clone() }
                },
                Event::TimedOut => self.stop(Outcome::Failed("deadline has elapsed".to_owned())),
                _ => self.refuse(),
            },
            Phase::Opening => match event {
                Event::FileCreated => {
                    self.phase = Phase::Acknowledging;
                    Action::SendAck { ack: resume_ack(0) }
                },
                _ => self.refuse(),
            },
            Phase::Acknowledging => match event {
                Event::AckSent => {
                    self.phase = Phase::Reading;
                    Action::Read { limit: CHUNK_SIZE }
                },
                _ => self.refuse(),
            },
            Phase::Reading => match event {
                Event::Data { len } => {
                    if len == 0 {
                        self.phase = Phase::Flushing;
                        Action::Flush
                    } else if len > usize::MAX - self.transferred {
                        self.stop(
                            Outcome::Failed(
                                "transferred bytes exceed the countable range".to_owned(),
                            ),
                        )
                    } else {
                        self.transferred = self.transferred + len;
                        self.phase = Phase::Storing;
                        Action::Store {
                            len,
                            progress: DownloadProgress { transferred_bytes: self.transferred },
                        }
                    }
                },
                Event::NotReady => Action::Read { limit: CHUNK_SIZE },
                _ => self.refuse(),
            },
            Phase::Storing => match event {
                Event::Stored => {
                    self.phase = Phase::Reading;
                    Action::Read { limit: CHUNK_SIZE }
                },
                _ => self.refuse(),
            },
            Phase::Flushing => match event {
                Event::Flushed => self.stop(Outcome::Completed),
                _ => self.refuse(),
            },
            Phase::Stopped(_) => self.refuse(),
        }
    }
}

/// Where a transfer stands after a run of events, and the actions that it
/// answered with, in order.
pub open spec fn run(t: TransferView, events: Seq<EventView>) -> (TransferView, Seq<ActionView>)
    decreases events.len(),
{
    if events.len() == 0 {
        (t, Seq::empty())
    } else {
        let before = run(t, events.drop_last());
        let last = step_spec(before.0, events.last());
        (last.0, before.1.push(last.1))
    }
}

/// Where the transfer of `offer` stands after `events`.
pub open spec fn state_after(
    offer: OfferView,
    local_ip: u32,
    listen_port: u16,
    events: Seq<EventView>,
) -> TransferView {
    run(start_spec(offer, local_ip, listen_port), events).0
}

/// Every action of the transfer of `offer` up to the answer to the last of
/// `events`: the first action, then one for each event.
pub open spec fn trace(
    offer: OfferView,
    local_ip: u32,
    listen_port: u16,
    events: Seq<EventView>,
) -> Seq<ActionView> {
    seq![first_action(offer, listen_port)] + run(
        start_spec(offer, local_ip, listen_port),
        events,
    ).1
}

/// How many of the actions send an answer to the offer.
pub open spec fn replies(actions: Seq<ActionView>) -> nat
    decreases actions.len(),
{
    if actions.len() == 0 {
        0
    } else {
        replies(actions.drop_last()) + if actions.last() is SendOffer {
            1nat
        } else {
            0nat
        }
    }
}

/// How many bytes the actions store.
pub open spec fn stored(actions: Seq<ActionView>) -> nat
    decreases actions.len(),
{
    if actions.len() == 0 {
        0
    } else {
        stored(actions.drop_last()) + match actions.last() {
            ActionView::Store { len, .. } => len as nat,
            _ => 0nat,
        }
    }
}

/// One of the actions tells the sender that nothing of the file is held yet.
pub open spec fn acked(actions: Seq<ActionView>) -> bool {
    exists|i: int|
        0 <= i < actions.len() && #[trigger] actions[i] == (ActionView::SendAck {
            ack: be_bytes(0),
        })
}

/// What holds of a transfer and the actions taken for it so far.
spec fn consistent(
    offer: OfferView,
    local_ip: u32,
    listen_port: u16,
    t: TransferView,
    actions: Seq<ActionView>,
    events: Seq<EventView>,
) -> bool {
    &&& t.offer == offer
    &&& t.local_ip == local_ip
    &&& t.listen_port == listen_port
    &&& actions.len() == events.len() + 1
    &&& t.phase is Binding ==> replies(actions) == 0 && offer.port == 0
    &&& t.phase is Offering ==> replies(actions) == 1 && offer.port == 0
    &&& t.phase is Accepting ==> offer.port == 0
    &&& t.phase is Connecting ==> offer.port != 0
    &&& replies(actions) <= 1
    &&& t.transferred == stored(actions)
    &&& t.phase is Reading || t.phase is Storing || t.phase is Flushing ==> acked(actions)
    &&& forall|j: int|
        0 <= j < actions.len() && #[trigger] actions[j] is Read ==> acked(actions.take(j))
    &&& forall|j: int|
        0 <= j < actions.len() && #[trigger] actions[j] is Accept ==> replies(actions.take(j)) == 1
            && offer.port == 0
    &&& forall|j: int|
        0 <= j < actions.len() ==> (#[trigger] actions[j] matches ActionView::SendOffer {
            message,
        } ==> exists|port: u16| message == reply_text(offer, local_ip, port))
    &&& forall|j: int|
        0 <= j < actions.len() ==> (#[trigger] actions[j] matches ActionView::Store {
            len,
            progress,
        } ==> progress == stored(actions.take(j + 1)))
    &&& forall|j: int|
        0 <= j < actions.len() && #[trigger] actions[j] is CreateFile && offer.port == 0 ==> j >= 1
            && events[j - 1] == (EventView::Accepted { peer: offer.ip })
}

proof fn lemma_consistent(
    offer: OfferView,
    local_ip: u32,
    listen_port: u16,
    events: Seq<EventView>,
)
    ensures
        consistent(
            offer,
            local_ip,
            listen_port,
            state_after(offer, local_ip, listen_port, events),
            trace(offer, local_ip, listen_port, events),
            events,
        ),
    decreases events.len(),
{
    let first = seq![first_action(offer, listen_port)];
    if events.len() == 0 {
        let actions = trace(offer, local_ip, listen_port, events);
        assert(actions =~= first);
        assert(actions.drop_last() =~= Seq::<ActionView>::empty());
        assert(replies(actions.drop_last()) == 0);
        assert(stored(actions.drop_last()) == 0);
        assert(replies(actions) == 0);
        assert(stored(actions) == 0);
        assert(actions.take(0) =~= actions.drop_last());
        assert(actions.take(1) =~= actions);
    } else {
        let earlier = events.drop_last();
        lemma_consistent(offer, local_ip, listen_port, earlier);
        let before = state_after(offer, local_ip, listen_port, earlier);
        let done = trace(offer, local_ip, listen_port, earlier);
        let last = step_spec(before, events.last());
        let after = state_after(offer, local_ip, listen_port, events);
        let actions = trace(offer, local_ip, listen_port, events);
        assert(after == last.0);
        assert(actions =~= done.push(last.1));
        assert(actions.drop_last() =~= done);
        assert(actions.last() == last.1);
        assert forall|j: int| 0 <= j <= done.len() implies #[trigger] actions.take(j) == done.take(
            j,
        ) by {
            assert(actions.take(j) =~= done.take(j));
        }
        assert(done.take(done.len() as int) =~= done);
        assert(actions.take(actions.len() as int) =~= actions);
        if acked(done) {
            let i = choose|i: int|
                0 <= i < done.len() && #[trigger] done[i] == (ActionView::SendAck {
                    ack: be_bytes(0),
                });
            assert(actions[i] == done[i]);
        }
        if last.1 == (ActionView::SendAck { ack: be_bytes(0) }) {
            assert(actions[done.len() as int] == last.1);
        }
        assert forall|j: int| 0 <= j < actions.len() && #[trigger] actions[j] is Read implies acked(
            actions.take(j),
        ) by {
            if j < done.len() {
                assert(done[j] is Read);
            }
        }
        assert forall|j: int|
            0 <= j < actions.len() && #[trigger] actions[j] is Accept implies replies(
            actions.take(j),
        ) == 1 && offer.port == 0 by {
            if j < done.len() {
                assert(done[j] is Accept);
            }
        }
        assert forall|j: int| 0 <= j < actions.len() implies (
        #[trigger] actions[j] matches ActionView::SendOffer { message } ==> exists|port: u16|
            message == reply_text(offer, local_ip, port)) by {
            if j < done.len() {
                assert(actions[j] == done[j]);
            }
        }
        assert forall|j: int| 0 <= j < actions.len() implies (
        #[trigger] actions[j] matches ActionView::Store { len, progress } ==> progress == stored(
            actions.take(j + 1),
        )) by {
            if j < done.len() {
                assert(actions[j] == done[j]);
            }
        }
        assert forall|j: int|
            0 <= j < actions.len() && #[trigger] actions[j] is CreateFile && offer.port
                == 0 implies j >= 1 && events[j - 1] == (EventView::Accepted {
            peer: offer.ip,
        }) by {
            if j < done.len() {
                assert(actions[j] == done[j]);
                assert(events[j - 1] == earlier[j - 1]);
            }
        }
    }
}

/// The port of an offer decides how its transfer starts: with port zero the
/// receiver listens, with any other port it connects to the sender at that
/// port.
pub proof fn lemma_port_decides_mode(offer: OfferView, local_ip: u32, listen_port: u16)
    ensures
        offer.port == 0 <==> first_action(offer, listen_port) == (ActionView::Bind {
            port: listen_port,
        }),
        offer.port != 0 <==> first_action(offer, listen_port) == (ActionView::Connect {
            ip: offer.ip,
            port: offer.port,
            timeout_secs: CONNECT_TIMEOUT_SECS,
        }),
        offer.port == 0 <==> start_spec(offer, local_ip, listen_port).phase is Binding,
        offer.port != 0 <==> start_spec(offer, local_ip, listen_port).phase is Connecting,
{
}

/// A passive transfer answers the offer exactly once before it waits for the
/// sender, and never twice: before every `Accept` of its actions stands one
/// `SendOffer`, and no run holds more than one. An active transfer never
/// waits for a connection.
pub proof fn lemma_one_reply_before_accept(
    offer: OfferView,
    local_ip: u32,
    listen_port: u16,
    events: Seq<EventView>,
    at: int,
)
    requires
        0 <= at < trace(offer, local_ip, listen_port, events).len(),
        trace(offer, local_ip, listen_port, events)[at] is Accept,
    ensures
        replies(trace(offer, local_ip, listen_port, events).take(at)) == 1,
        replies(trace(offer, local_ip, listen_port, events)) == 1,
        offer.port == 0,
{
    lemma_consistent(offer, local_ip, listen_port, events);
    let actions = trace(offer, local_ip, listen_port, events);
    lemma_replies_grow(actions, at);
}

/// A run answers the offer at most once, and every answer is the offer's own
/// text with the receiver's address and some port: name, size and id are the
/// offer's.
pub proof fn lemma_reply_echoes_offer(
    offer: OfferView,
    local_ip: u32,
    listen_port: u16,
    events: Seq<EventView>,
    at: int,
)
    requires
        0 <= at < trace(offer, local_ip, listen_port, events).len(),
        trace(offer, local_ip, listen_port, events)[at] is SendOffer,
    ensures
        replies(trace(offer, local_ip, listen_port, events)) == 1,
        exists|port: u16|
            trace(offer, local_ip, listen_port, events)[at] == (ActionView::SendOffer {
                message: reply_text(offer, local_ip, port),
            }),
{
    lemma_consistent(offer, local_ip, listen_port, events);
    let actions = trace(offer, local_ip, listen_port, events);
    lemma_replies_grow(actions, at + 1);
    assert(actions.take(at + 1).drop_last() =~= actions.take(at));
    let message = actions[at]->SendOffer_message;
    let port = choose|port: u16| message == reply_text(offer, local_ip, port);
    assert(actions[at] == (ActionView::SendOffer { message: reply_text(offer, local_ip, port) }));
}

/// A passive transfer creates the file only in answer to a connection from
/// the address that the offer names: a peer from anywhere else is never
/// accepted.
pub proof fn lemma_only_the_sender_is_accepted(
    offer: OfferView,
    local_ip: u32,
    listen_port: u16,
    events: Seq<EventView>,
    at: int,
)
    requires
        offer.port == 0,
        0 <= at < trace(offer, local_ip, listen_port, events).len(),
        trace(offer, local_ip, listen_port, events)[at] is CreateFile,
    ensures
        at >= 1,
        events[at - 1] == (EventView::Accepted { peer: offer.ip }),
{
    lemma_consistent(offer, local_ip, listen_port, events);
}

/// A transfer that waits for the sender and is told of a peer from another
/// address fails, and says why.
pub proof fn lemma_other_peer_is_rejected(t: TransferView, peer: u32)
    requires
        t.phase is Accepting,
        peer != t.offer.ip,
    ensures
        step_spec(t, EventView::Accepted { peer }) == stopped(
            t,
            OutcomeView::Failed(mismatch_reason()),
        ),
{
}

/// Before a transfer reads from the sender, it has told the sender that
/// nothing of the file is held yet: the eight zero bytes are sent before the
/// first read.
pub proof fn lemma_ack_before_read(
    offer: OfferView,
    local_ip: u32,
    listen_port: u16,
    events: Seq<EventView>,
    at: int,
)
    requires
        0 <= at < trace(offer, local_ip, listen_port, events).len(),
        trace(offer, local_ip, listen_port, events)[at] is Read,
    ensures
        acked(trace(offer, local_ip, listen_port, events).take(at)),
{
    lemma_consistent(offer, local_ip, listen_port, events);
}

/// A stopped transfer answers every event with the way it ended, and does
/// nothing else.
pub proof fn lemma_stopped_stays(t: TransferView, events: Seq<EventView>, at: int)
    requires
        t.phase is Stopped,
        0 <= at < events.len(),
    ensures
        run(t, events).0 == t,
        run(t, events).1.len() == events.len(),
        run(t, events).1[at] == (ActionView::Stop { outcome: t.phase->Stopped_0 }),
    decreases events.len(),
{
    let earlier = events.drop_last();
    if earlier.len() == 0 {
        assert(run(t, earlier) == (t, Seq::<ActionView>::empty()));
    } else if at < earlier.len() {
        lemma_stopped_stays(t, earlier, at);
    } else {
        lemma_stopped_stays(t, earlier, 0);
    }
    assert(run(t, earlier).0 == t);
    assert(step_spec(t, events.last()) == (t, ActionView::Stop { outcome: t.phase->Stopped_0 }));
}

/// The beginning of a run holds no more answers than the run.
pub proof fn lemma_replies_grow(actions: Seq<ActionView>, n: int)
    requires
        0 <= n <= actions.len(),
    ensures
        replies(actions.take(n)) <= replies(actions),
    decreases actions.len(),
{
    if n == actions.len() {
        assert(actions.take(n) =~= actions);
    } else {
        lemma_replies_grow(actions.drop_last(), n);
        assert(actions.drop_last().take(n) =~= actions.take(n));
    }
}

/// The beginning of a run stores no more bytes than the run.
pub proof fn lemma_stored_grows(actions: Seq<ActionView>, n: int, m: int)
    requires
        0 <= n <= m <= actions.len(),
    ensures
        stored(actions.take(n)) <= stored(actions.take(m)),
    decreases m - n,
{
    if n < m {
        lemma_stored_grows(actions, n + 1, m);
        assert(actions.take(n + 1).drop_last() =~= actions.take(n));
    }
}

/// The progress that a transfer publishes is the number of bytes that it has
/// had stored up to then, so it never falls; and the count that the transfer
/// keeps is the number of bytes stored in the whole run.
pub proof fn lemma_progress_counts_stored_bytes(
    offer: OfferView,
    local_ip: u32,
    listen_port: u16,
    events: Seq<EventView>,
    earlier: int,
    later: int,
)
    requires
        0 <= earlier <= later < trace(offer, local_ip, listen_port, events).len(),
        trace(offer, local_ip, listen_port, events)[earlier] is Store,
        trace(offer, local_ip, listen_port, events)[later] is Store,
    ensures
        trace(offer, local_ip, listen_port, events)[earlier]->Store_progress == stored(
            trace(offer, local_ip, listen_port, events).take(earlier + 1),
        ),
        trace(offer, local_ip, listen_port, events)[earlier]->Store_progress <= trace(
            offer,
            local_ip,
            listen_port,
            events,
        )[later]->Store_progress,
        state_after(offer, local_ip, listen_port, events).transferred == stored(
            trace(offer, local_ip, listen_port, events),
        ),
{
    lemma_consistent(offer, local_ip, listen_port, events);
    let actions = trace(offer, local_ip, listen_port, events);
    lemma_stored_grows(actions, earlier + 1, later + 1);
}

/// The count that a transfer keeps is the number of bytes that it has had
/// stored; where the transfer completed, that is the size of the file.
pub proof fn lemma_transferred_is_stored(
    offer: OfferView,
    local_ip: u32,
    listen_port: u16,
    events: Seq<EventView>,
)
    ensures
        state_after(offer, local_ip, listen_port, events).transferred == stored(
            trace(offer, local_ip, listen_port, events),
        ),
{
    lemma_consistent(offer, local_ip, listen_port, events);
}


} // verus!
