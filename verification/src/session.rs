//! The replication session of one channel.
//!
//! A session is bound to one channel and reacts to the messages that arrive on
//! it. Each handler takes the message, and what it needs to know of the log,
//! and returns what is to be sent in reply; it neither sends nor touches the
//! log itself.

use vstd::prelude::*;
use vstd::slice::slice_to_vec;
use crate::audit::{assemble, assembled, signature_accepted, SIGNATURE_BYTES};
use crate::error::ReplicationError;
use crate::handshake::HandshakeState;
use crate::message::{
    bytes_view, outgoing_views, Data, Feed, Handshake, Have, HaveView, Message, MessageView,
    Outgoing, OutgoingView, Request, Want,
};
use crate::remote::{
    highest_of, highest_set, lemma_run_is_empty_or_has_highest, run_set, RemoteBitfield,
};
use crate::rle::{decodable, decode, rle_decoded};
use crate::storage::{
    compress_window, compressed, fits_window, pages_of, window_fits, LogView, Put, PutOutcome,
    PutView,
};

verus! {

/// Number of availability bits in one bitfield page. A peer may only ask
/// about whole pages.
pub const PAGE_BITS: u64 = 8192;

/// Mathematical value of a [`PeeredHypercore`].
pub ghost struct SessionView {
    /// The channel that the session owns.
    pub channel: u64,
    /// How far the handshake has come.
    pub handshake: HandshakeState,
    /// The estimate of how many blocks the peer has.
    pub remote_length: u64,
    /// The blocks that the peer has announced in bitfields.
    pub remote: Set<u64>,
    /// The discovery key of the log that the peer announced for the channel.
    pub discovery_key: Option<Seq<u8>>,
}

/// The replication session of one channel over a shared log.
#[derive(Debug)]
pub struct PeeredHypercore {
    channel: u64,
    handshake: HandshakeState,
    remote_length: u64,
    remote: RemoteBitfield,
    discovery_key: Option<Vec<u8>>,
}

/// The requests that follow a `Have`, handed out one at a time, lowest block
/// first.
#[derive(Clone, Debug)]
pub struct Requests {
    channel: u64,
    next: u64,
    last: u64,
    exhausted: bool,
}

/// What answering a `Want` produced: the messages to send, in order, and the
/// failure that ended the session after them, if there was one.
#[derive(Clone, Debug, PartialEq, Eq)]
pub struct WantReply {
    pub messages: Vec<Outgoing>,
    pub failure: Option<ReplicationError>,
}

/// Mathematical value of a [`WantReply`].
pub ghost struct WantReplyView {
    pub messages: Seq<OutgoingView>,
    pub failure: Option<ReplicationError>,
}

impl View for WantReply {
    type V = WantReplyView;

    open spec fn view(&self) -> WantReplyView {
        WantReplyView { messages: outgoing_views(self.messages@), failure: self.failure }
    }
}

/// Whether a `Want` asks about whole pages.
pub open spec fn page_aligned(want: Want) -> bool {
    want.start % PAGE_BITS == 0 && want.length % PAGE_BITS == 0
}

/// Whether the log holds its last block.
pub open spec fn holds_head(log_length: u64, head_present: bool) -> bool {
    log_length > 0 && head_present
}

/// The message that asks the peer about everything it has.
pub open spec fn full_want(channel: u64) -> OutgoingView {
    OutgoingView { channel, message: MessageView::Want(Want { start: 0, length: 0 }) }
}

/// The announcement of the log's last block, which lets the peer learn the
/// log's length whatever range it asked about.
pub open spec fn eager_have(channel: u64, log_length: u64) -> OutgoingView {
    OutgoingView {
        channel,
        message: MessageView::Have(
            HaveView { start: (log_length - 1) as u64, length: None, bitfield: None },
        ),
    }
}

/// The answer to a `Want`: the compressed availability of the range asked
/// about.
pub open spec fn ranged_have(channel: u64, want: Want, rle: Seq<u8>) -> OutgoingView {
    OutgoingView {
        channel,
        message: MessageView::Have(
            HaveView { start: want.start, length: Some(want.length), bitfield: Some(rle) },
        ),
    }
}

/// The announcements that precede the answer to a page-aligned `Want`.
pub open spec fn eager_part(channel: u64, log_length: u64, head_present: bool) -> Seq<
    OutgoingView,
> {
    if holds_head(log_length, head_present) {
        seq![eager_have(channel, log_length)]
    } else {
        seq![]
    }
}

/// The reply to a page-aligned `Want`, where `rle` is the compressed
/// availability of the range, or `None` where it could not be had.
pub open spec fn want_answer(
    channel: u64,
    want: Want,
    log_length: u64,
    head_present: bool,
    rle: Option<Seq<u8>>,
) -> WantReplyView {
    match rle {
        Some(bits) => WantReplyView {
            messages: eager_part(channel, log_length, head_present).push(
                ranged_have(channel, want, bits),
            ),
            failure: None,
        },
        None => WantReplyView {
            messages: eager_part(channel, log_length, head_present),
            failure: Some(ReplicationError::BitfieldEncodeFailure),
        },
    }
}

/// The compressed availability that a reading of the log gives for the range
/// of a `Want`; `None` where the range cannot be handed to the bitfield or
/// the bitfield reports an error.
pub open spec fn window_of(log: LogView<'_>, want: Want) -> Option<Seq<u8>> {
    if window_fits(want.start, want.length) {
        compressed(pages_of(*log.presence), want.start as usize, want.length as usize)
    } else {
        None
    }
}

/// The write that a `Data` message asks for, where `accepted` says whether
/// its signature parses.
pub open spec fn put_of(message: Data, accepted: bool) -> PutView {
    PutView {
        index: message.index,
        value: bytes_view(message.value),
        proof: assembled(message.index, message.nodes@, message.signature@, accepted),
    }
}

/// The request for block `index`.
pub open spec fn request_for(channel: u64, index: u64) -> OutgoingView {
    OutgoingView { channel, message: MessageView::Request(Request { index }) }
}

/// The requests for every block from the first up to and including `start`,
/// in order.
pub open spec fn request_run(channel: u64, start: u64) -> Seq<OutgoingView> {
    Seq::new((start + 1) as nat, |i: int| request_for(channel, i as u64))
}

/// The index after `index`, or the last index where there is none.
pub open spec fn one_past(index: u64) -> u64 {
    if index == u64::MAX {
        u64::MAX
    } else {
        (index + 1) as u64
    }
}

/// Where a run of `length` blocks from `start` ends: the index after its last
/// block, or the last index where the run reaches it. An absent `length`
/// stands for one block.
pub open spec fn run_end(start: u64, length: Option<u64>) -> u64 {
    let blocks = match length {
        Some(n) => n,
        None => 1,
    };
    if start + blocks > u64::MAX {
        u64::MAX
    } else {
        (start + blocks) as u64
    }
}

/// The larger of two lengths.
pub open spec fn larger(a: u64, b: u64) -> u64 {
    if a >= b {
        a
    } else {
        b
    }
}

/// The session after a `Have` for `start` and `length`, where `decoded` is
/// the decoded bitfield of the message, or `None` where it carried none.
///
/// A bitfield counts only where it has more bits than the peer was thought to
/// have blocks. Its blocks then join those known, and the estimate rises to
/// one past the highest of them. Without a bitfield the estimate rises to the
/// end of the announced run. The estimate never falls.
pub open spec fn after_have(
    session: SessionView,
    start: u64,
    length: Option<u64>,
    decoded: Option<Seq<u8>>,
) -> SessionView {
    match decoded {
        Some(bits) => if 8 * bits.len() > session.remote_length {
            SessionView {
                remote: session.remote.union(run_set(start, bits)),
                remote_length: match highest_of(run_set(start, bits)) {
                    Some(top) => larger(session.remote_length, one_past(top)),
                    None => session.remote_length,
                },
                ..session
            }
        } else {
            session
        },
        None => SessionView {
            remote_length: larger(session.remote_length, run_end(start, length)),
            ..session
        },
    }
}

/// Decides [`page_aligned`].
pub fn is_page_aligned(want: &Want) -> (aligned: bool)
    ensures
        aligned == page_aligned(*want),
{
    want.start % PAGE_BITS == 0 && want.length % PAGE_BITS == 0
}

/// Builds the reply to a page-aligned `Want` from what the log gave.
///
/// Where the log holds its last block, that block is announced first. The
/// compressed range follows; where it could not be had, the reply ends with
/// [`ReplicationError::BitfieldEncodeFailure`] after the announcement.
pub fn answer_want(
    channel: u64,
    want: &Want,
    log_length: u64,
    head_present: bool,
    rle: Option<Vec<u8>>,
) -> (reply: WantReply)
    ensures
        reply@ == want_answer(channel, *want, log_length, head_present, bytes_view(rle)),
        holds_head(log_length, head_present) ==> reply@.messages.len() >= 1
            && reply@.messages[0] == eager_have(channel, log_length),
        holds_head(log_length, head_present) ==> (rle matches Some(bits) ==> reply@.messages
            == seq![eager_have(channel, log_length), ranged_have(channel, *want, bits@)]),
{
    proof {
        if holds_head(log_length, head_present) {
            lemma_eager_have_comes_first(channel, *want, log_length, bytes_view(rle));
        }
    }
    let mut messages: Vec<Outgoing> = Vec::new();
    if log_length > 0 && head_present {
        let head = Have { start: log_length - 1, length: None, bitfield: None };
        messages.push(Outgoing { channel, message: Message::Have(head) });
    }
    let ghost eager = outgoing_views(messages@);
    assert(eager =~= eager_part(channel, log_length, head_present));
    match rle {
        Some(bits) => {
            let ghost answer = ranged_have(channel, *want, bits@);
            messages.push(
                Outgoing {
                    channel,
                    message: Message::Have(
                        Have { start: want.start, length: Some(want.length), bitfield: Some(bits) },
                    ),
                },
            );
            assert(outgoing_views(messages@) =~= eager.push(answer));
            WantReply { messages, failure: None }
        },
        None => WantReply { messages, failure: Some(ReplicationError::BitfieldEncodeFailure) },
    }
}

impl View for PeeredHypercore {
    type V = SessionView;

    closed spec fn view(&self) -> SessionView {
        SessionView {
            channel: self.channel,
            handshake: self.handshake,
            remote_length: self.remote_length,
            remote: self.remote@,
            discovery_key: bytes_view(self.discovery_key),
        }
    }
}

impl View for Requests {
    type V = Seq<OutgoingView>;

    /// The requests that are still to be handed out, in order.
    closed spec fn view(&self) -> Seq<OutgoingView> {
        if self.exhausted || self.next > self.last {
            Seq::empty()
        } else {
            Seq::new(
                (self.last - self.next + 1) as nat,
                |i: int| request_for(self.channel, (self.next + i) as u64),
            )
        }
    }
}

impl Requests {
    /// Hands out the next request, or `None` once every block was asked for.
    pub fn next_request(&mut self) -> (r: Option<Outgoing>)
        ensures
            match r {
                Some(request) => old(self)@.len() > 0 && request@ == old(self)@[0] && final(self)@
                    == old(self)@.drop_first(),
                None => old(self)@.len() == 0 && final(self)@ == old(self)@,
            },
    {
        if self.exhausted || self.next > self.last {
            return None;
        }
        let index = self.next;
        if self.next == self.last {
            self.exhausted = true;
        } else {
            self.next = self.next + 1;
        }
        assert(final(self)@ =~= old(self)@.drop_first());
        Some(Outgoing { channel: self.channel, message: Message::Request(Request { index }) })
    }

    /// Whether every request was handed out.
    pub fn is_empty(&self) -> (empty: bool)
        ensures
            empty == (self@.len() == 0),
    {
        self.exhausted || self.next > self.last
    }
}

impl PeeredHypercore {
    /// A session for `channel` that has seen nothing yet.
    pub fn new(channel: u64) -> (session: Self)
        ensures
            session@ == (SessionView {
                channel,
                handshake: HandshakeState::NotStarted,
                remote_length: 0,
                remote: Set::empty(),
                discovery_key: None,
            }),
    {
        PeeredHypercore {
            channel,
            handshake: HandshakeState::NotStarted,
            remote_length: 0,
            remote: RemoteBitfield::new(),
            discovery_key: None,
        }
    }

    /// The channel that the session owns.
    pub fn channel(&self) -> (channel: u64)
        ensures
            channel == self@.channel,
    {
        self.channel
    }

    /// How far the handshake has come.
    pub fn handshake_state(&self) -> (state: HandshakeState)
        ensures
            state == self@.handshake,
    {
        self.handshake
    }

    /// The session's estimate of how many blocks the peer has.
    pub fn remote_length(&self) -> (length: u64)
        ensures
            length == self@.remote_length,
    {
        self.remote_length
    }

    /// The discovery key of the log that the peer announced, once it has.
    pub fn discovery_key(&self) -> (key: Option<&Vec<u8>>)
        ensures
            match key {
                Some(k) => self@.discovery_key == Some(k@),
                None => self@.discovery_key is None,
            },
    {
        self.discovery_key.as_ref()
    }

    /// Handles the peer's `Feed`: the session remembers which log the peer
    /// announced, and the handshake is awaited. Nothing is sent in reply.
    pub fn on_feed(&mut self, channel: u64, message: &Feed)
        ensures
            final(self)@ == (SessionView {
                handshake: old(self)@.handshake.fed(),
                discovery_key: Some(message.discovery_key@),
                ..old(self)@
            }),
    {
        self.handshake = self.handshake.on_feed();
        self.discovery_key = Some(slice_to_vec(message.discovery_key.as_slice()));
    }

    /// Handles the peer's `Handshake`.
    ///
    /// On the session's own channel the handshake completes and the session
    /// asks the peer about everything it has. On any other channel the call
    /// fails with [`ReplicationError::ChannelMismatch`] and leaves the session
    /// as it was.
    pub fn on_handshake(&mut self, channel: u64, message: &Handshake) -> (r: Result<
        Outgoing,
        ReplicationError,
    >)
        ensures
            match r {
                Ok(want) => channel == old(self)@.channel && want@ == full_want(channel)
                    && final(self)@ == (SessionView {
                    handshake: HandshakeState::Complete,
                    ..old(self)@
                }),
                Err(e) => channel != old(self)@.channel && e == ReplicationError::ChannelMismatch
                    && *final(self) == *old(self),
            },
    {
        if channel != self.channel {
            return Err(ReplicationError::ChannelMismatch);
        }
        self.handshake = self.handshake.on_handshake();
        Ok(Outgoing { channel, message: Message::Want(Want { start: 0, length: 0 }) })
    }

    /// Handles the peer's `Want`.
    ///
    /// A `Want` that does not ask about whole pages is dropped: nothing is sent
    /// and nothing fails, whether or not the log could be read. Otherwise the
    /// log must have been read, or the call fails with
    /// [`ReplicationError::LockAcquisitionFailure`]; the reply is the one that
    /// [`answer_want`] builds from the reading and the compressed range. Where
    /// the log holds its last block, the announcement of that block comes
    /// first, whatever follows it. The reply goes out on the channel that the
    /// message came on.
    pub fn on_want(&self, channel: u64, message: &Want, log: Option<LogView<'_>>) -> (reply:
        WantReply)
        ensures
            reply@ == if !page_aligned(*message) {
                WantReplyView { messages: seq![], failure: None }
            } else {
                match log {
                    None => WantReplyView {
                        messages: seq![],
                        failure: Some(ReplicationError::LockAcquisitionFailure),
                    },
                    Some(view) => want_answer(
                        channel,
                        *message,
                        view.length,
                        view.head_present,
                        window_of(view, *message),
                    ),
                }
            },
            log matches Some(view) ==> (page_aligned(*message) && holds_head(
                view.length,
                view.head_present,
            ) ==> reply@.messages.len() >= 1 && reply@.messages[0] == eager_have(
                channel,
                view.length,
            )),
            log matches Some(view) ==> (page_aligned(*message) && holds_head(
                view.length,
                view.head_present,
            ) && reply@.failure is None ==> window_of(view, *message) is Some && reply@.messages
                == seq![
                eager_have(channel, view.length),
                ranged_have(channel, *message, window_of(view, *message).unwrap()),
            ]),
    {
        if !is_page_aligned(message) {
            let reply = WantReply { messages: Vec::new(), failure: None };
            assert(reply@.messages =~= seq![]);
            return reply;
        }
        match log {
            None => {
                let reply = WantReply {
                    messages: Vec::new(),
                    failure: Some(ReplicationError::LockAcquisitionFailure),
                };
                assert(reply@.messages =~= seq![]);
                reply
            },
            Some(view) => {
                let rle = if fits_window(message.start, message.length) {
                    compress_window(view.presence, message.start as usize, message.length as usize)
                } else {
                    None
                };
                answer_want(channel, message, view.length, view.head_present, rle)
            },
        }
    }

    /// Whether the peer has announced block `index` in a bitfield.
    pub fn remote_has(&self, index: u64) -> (known: bool)
        ensures
            known == self@.remote.contains(index),
    {
        self.remote.has(index)
    }

    /// Takes note of what a `Have` announces, where `decoded` is its decoded
    /// bitfield, or `None` where it carried none.
    pub fn record_have(&mut self, start: u64, length: Option<u64>, decoded: Option<Vec<u8>>)
        ensures
            final(self)@ == after_have(old(self)@, start, length, bytes_view(decoded)),
    {
        match decoded {
            Some(bits) => {
                if bits.len() as u64 > self.remote_length / 8 {
                    match highest_set(start, bits.as_slice()) {
                        Some(top) => {
                            let past: u64 = if top == u64::MAX {
                                u64::MAX
                            } else {
                                top + 1
                            };
                            if past > self.remote_length {
                                self.remote_length = past;
                            }
                        },
                        None => {},
                    }
                    self.remote.merge(start, bits);
                }
            },
            None => {
                let blocks: u64 = match length {
                    Some(n) => n,
                    None => 1,
                };
                let end: u64 = if blocks > u64::MAX - start {
                    u64::MAX
                } else {
                    start + blocks
                };
                if end > self.remote_length {
                    self.remote_length = end;
                }
            },
        }
    }

    /// Handles the peer's `Have`.
    ///
    /// A bitfield that is not a well-formed run-length encoding ends the
    /// session with [`ReplicationError::BitfieldDecodeFailure`], which changes
    /// nothing and requests nothing. Otherwise the session takes note of the
    /// announcement as [`after_have`] says, and requests every block from the
    /// first up to and including `start`, on the channel that the message came
    /// on.
    pub fn on_have(&mut self, channel: u64, message: &Have) -> (r: Result<
        Requests,
        ReplicationError,
    >)
        ensures
            match r {
                Ok(requests) => requests@ == request_run(channel, message.start)
                    && match message.bitfield {
                    Some(rle) => decodable(rle@) && final(self)@ == after_have(
                        old(self)@,
                        message.start,
                        message.length,
                        Some(rle_decoded(rle@)),
                    ),
                    None => final(self)@ == after_have(
                        old(self)@,
                        message.start,
                        message.length,
                        None,
                    ),
                },
                Err(e) => e == ReplicationError::BitfieldDecodeFailure && *final(self) == *old(
                    self,
                ) && match message.bitfield {
                    Some(rle) => !decodable(rle@),
                    None => false,
                },
            },
    {
        let decoded: Option<Vec<u8>> = match &message.bitfield {
            Some(rle) => match decode(rle.as_slice()) {
                Ok(bits) => Some(bits),
                Err(e) => {
                    return Err(e);
                },
            },
            None => None,
        };
        self.record_have(message.start, message.length, decoded);
        let requests = Requests { channel, next: 0, last: message.start, exhausted: false };
        assert(requests@ =~= request_run(channel, message.start));
        Ok(requests)
    }

    /// Handles the peer's `Data`: assembles the proof and returns the write
    /// that the log is to perform.
    ///
    /// A signature that does not parse is no failure here: the write is
    /// returned all the same, with no signature in its proof. The block is
    /// written whatever channel the message came on: the session's own channel
    /// is checked for the handshake alone.
    pub fn on_data(&self, channel: u64, message: &Data) -> (put: Put)
        ensures
            put@ == put_of(*message, signature_accepted(message.signature@)),
            message.signature@.len() != SIGNATURE_BYTES ==> put@.proof.signature is None,
            message.signature@.len() == SIGNATURE_BYTES && message.signature@[SIGNATURE_BYTES
                - 1] < 16 ==> put@.proof.signature == Some(message.signature@),
    {
        let proof = assemble(message.index, message.nodes.as_slice(), message.signature.as_slice());
        let value: Option<Vec<u8>> = match &message.value {
            Some(bytes) => Some(slice_to_vec(bytes.as_slice())),
            None => None,
        };
        Put { index: message.index, value, proof }
    }

    /// Concludes the handling of a `Data` message once the write was tried.
    pub fn on_put(&self, outcome: PutOutcome) -> (r: Result<(), ReplicationError>)
        ensures
            r == match outcome {
                PutOutcome::Stored => Ok::<(), ReplicationError>(()),
                PutOutcome::Rejected => Err(ReplicationError::StorageWriteFailure),
                PutOutcome::LockUnavailable => Err(ReplicationError::LockAcquisitionFailure),
            },
    {
        match outcome {
            PutOutcome::Stored => Ok(()),
            PutOutcome::Rejected => Err(ReplicationError::StorageWriteFailure),
            PutOutcome::LockUnavailable => Err(ReplicationError::LockAcquisitionFailure),
        }
    }
}

/// A page-aligned `Want` for which the log holds its last block is answered
/// with the announcement of that block first. Where the range could be
/// compressed the answer for the range follows it, and nothing else does.
pub proof fn lemma_eager_have_comes_first(
    channel: u64,
    want: Want,
    log_length: u64,
    rle: Option<Seq<u8>>,
)
    requires
        log_length > 0,
    ensures
        want_answer(channel, want, log_length, true, rle).messages.len() >= 1,
        want_answer(channel, want, log_length, true, rle).messages[0] == eager_have(
            channel,
            log_length,
        ),
        rle matches Some(bits) ==> want_answer(channel, want, log_length, true, rle).messages
            == seq![eager_have(channel, log_length), ranged_have(channel, want, bits)],
{
    match rle {
        Some(bits) => {
            assert(want_answer(channel, want, log_length, true, rle).messages =~= seq![
                eager_have(channel, log_length),
                ranged_have(channel, want, bits),
            ]);
        },
        None => {},
    }
}

/// A log that is empty, or does not hold its last block, announces nothing
/// ahead of the answer for the range.
pub proof fn lemma_no_eager_have_without_head(
    channel: u64,
    want: Want,
    log_length: u64,
    head_present: bool,
    bits: Seq<u8>,
)
    requires
        !holds_head(log_length, head_present),
    ensures
        want_answer(channel, want, log_length, head_present, Some(bits)).messages == seq![
            ranged_have(channel, want, bits),
        ],
{
    assert(want_answer(channel, want, log_length, head_present, Some(bits)).messages =~= seq![
        ranged_have(channel, want, bits),
    ]);
}

/// A `Have` without a bitfield and without a length does what one of length
/// one does.
pub proof fn lemma_absent_length_is_one(session: SessionView, start: u64)
    ensures
        after_have(session, start, None, None) == after_have(session, start, Some(1), None),
{
}

/// The requests that follow a `Have` for `start` are `start + 1` in number,
/// and the one in place `i` asks for block `i`: every block from the first up
/// to and including `start` is asked for once, in order.
pub proof fn lemma_requests_cover_prefix(channel: u64, start: u64)
    ensures
        request_run(channel, start).len() == start + 1,
        forall|i: int|
            0 <= i <= start ==> #[trigger] request_run(channel, start)[i] == request_for(
                channel,
                i as u64,
            ),
{
}

/// A `Have` never lowers the estimate of the peer's length, and never
/// forgets a block that the peer announced.
pub proof fn lemma_have_only_adds(
    session: SessionView,
    start: u64,
    length: Option<u64>,
    decoded: Option<Seq<u8>>,
)
    ensures
        after_have(session, start, length, decoded).remote_length >= session.remote_length,
        session.remote.subset_of(after_have(session, start, length, decoded).remote),
        after_have(session, start, length, decoded).channel == session.channel,
        after_have(session, start, length, decoded).handshake == session.handshake,
        after_have(session, start, length, decoded).discovery_key == session.discovery_key,
{
}

/// Whether every block that the peer announced lies below the estimate of its
/// length, or the estimate has reached the last index.
pub open spec fn estimate_covers_announced(session: SessionView) -> bool {
    forall|index: u64|
        session.remote.contains(index) ==> index < session.remote_length || session.remote_length
            == u64::MAX
}

/// An estimate that covers what the peer announced still does so after a
/// `Have`.
pub proof fn lemma_estimate_keeps_covering(
    session: SessionView,
    start: u64,
    length: Option<u64>,
    decoded: Option<Seq<u8>>,
)
    requires
        estimate_covers_announced(session),
    ensures
        estimate_covers_announced(after_have(session, start, length, decoded)),
{
    match decoded {
        Some(bits) => {
            lemma_run_is_empty_or_has_highest(start, bits);
        },
        None => {},
    }
}

/// A signature that does not parse changes nothing of the write but the
/// signature of its proof, which is then absent.
pub proof fn lemma_unparsable_signature_is_dropped(message: Data)
    ensures
        put_of(message, false).proof.signature is None,
        put_of(message, false).index == put_of(message, true).index,
        put_of(message, false).value == put_of(message, true).value,
        put_of(message, false).proof.index == put_of(message, true).proof.index,
        put_of(message, false).proof.nodes == put_of(message, true).proof.nodes,
{
}

} // verus!
