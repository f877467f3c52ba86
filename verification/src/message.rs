//! The wire messages exchanged on a replication channel, as plain values.

use vstd::prelude::*;

verus! {

/// Announces which log a channel replicates.
#[derive(Clone, Debug, PartialEq, Eq)]
pub struct Feed {
    pub discovery_key: Vec<u8>,
}

/// Identity and capability payload that completes the channel handshake.
#[derive(Clone, Debug, PartialEq, Eq)]
pub struct Handshake {
    pub id: Vec<u8>,
    pub live: bool,
}

/// Asks the peer which blocks it holds in `[start, start + length)`.
/// A `length` of zero asks about everything from `start` on.
#[derive(Clone, Copy, Debug, PartialEq, Eq)]
pub struct Want {
    pub start: u64,
    pub length: u64,
}

/// Announces availability: either a run of `length` blocks from `start`
/// (one block when `length` is absent), or a run-length-encoded bitfield
/// whose first bit stands for block `start`.
#[derive(Clone, Debug, PartialEq, Eq)]
pub struct Have {
    pub start: u64,
    pub length: Option<u64>,
    pub bitfield: Option<Vec<u8>>,
}

/// Asks the peer to transfer one block.
#[derive(Clone, Copy, Debug, PartialEq, Eq)]
pub struct Request {
    pub index: u64,
}

/// One node of the audit path that accompanies a transferred block.
#[derive(Clone, Debug, PartialEq, Eq)]
pub struct DataNode {
    pub index: u64,
    pub hash: Vec<u8>,
    pub size: u64,
}

/// Carries a block, or only its proof when `value` is absent.
#[derive(Clone, Debug, PartialEq, Eq)]
pub struct Data {
    pub index: u64,
    pub value: Option<Vec<u8>>,
    pub nodes: Vec<DataNode>,
    pub signature: Vec<u8>,
}

/// Any message of the channel's alphabet.
#[derive(Clone, Debug, PartialEq, Eq)]
pub enum Message {
    Feed(Feed),
    Handshake(Handshake),
    Want(Want),
    Have(Have),
    Request(Request),
    Data(Data),
}

/// A message together with the channel it is to be sent on.
#[derive(Clone, Debug, PartialEq, Eq)]
pub struct Outgoing {
    pub channel: u64,
    pub message: Message,
}

/// Mathematical value of a [`Feed`].
pub ghost struct FeedView {
    pub discovery_key: Seq<u8>,
}

/// Mathematical value of a [`Handshake`].
pub ghost struct HandshakeView {
    pub id: Seq<u8>,
    pub live: bool,
}

/// Mathematical value of a [`Have`].
pub ghost struct HaveView {
    pub start: u64,
    pub length: Option<u64>,
    pub bitfield: Option<Seq<u8>>,
}

/// Mathematical value of a [`DataNode`].
pub ghost struct DataNodeView {
    pub index: u64,
    pub hash: Seq<u8>,
    pub size: u64,
}

/// Mathematical value of a [`Data`].
pub ghost struct DataView {
    pub index: u64,
    pub value: Option<Seq<u8>>,
    pub nodes: Seq<DataNodeView>,
    pub signature: Seq<u8>,
}

/// Mathematical value of a [`Message`].
pub ghost enum MessageView {
    Feed(FeedView),
    Handshake(HandshakeView),
    Want(Want),
    Have(HaveView),
    Request(Request),
    Data(DataView),
}

/// Mathematical value of an [`Outgoing`].
pub ghost struct OutgoingView {
    pub channel: u64,
    pub message: MessageView,
}

/// The bytes of an optional buffer, as a mathematical value.
pub open spec fn bytes_view(bytes: Option<Vec<u8>>) -> Option<Seq<u8>> {
    match bytes {
        Some(b) => Some(b@),
        None => None,
    }
}

impl View for Feed {
    type V = FeedView;

    open spec fn view(&self) -> FeedView {
        FeedView { discovery_key: self.discovery_key@ }
    }
}

impl View for Handshake {
    type V = HandshakeView;

    open spec fn view(&self) -> HandshakeView {
        HandshakeView { id: self.id@, live: self.live }
    }
}

impl View for Have {
    type V = HaveView;

    open spec fn view(&self) -> HaveView {
        HaveView { start: self.start, length: self.length, bitfield: bytes_view(self.bitfield) }
    }
}

impl View for DataNode {
    type V = DataNodeView;

    open spec fn view(&self) -> DataNodeView {
        DataNodeView { index: self.index, hash: self.hash@, size: self.size }
    }
}

impl View for Data {
    type V = DataView;

    open spec fn view(&self) -> DataView {
        DataView {
            index: self.index,
            value: bytes_view(self.value),
            nodes: self.nodes@.map_values(|n: DataNode| n@),
            signature: self.signature@,
        }
    }
}

impl View for Message {
    type V = MessageView;

    open spec fn view(&self) -> MessageView {
        match *self {
            Message::Feed(m) => MessageView::Feed(m@),
            Message::Handshake(m) => MessageView::Handshake(m@),
            Message::Want(m) => MessageView::Want(m),
            Message::Have(m) => MessageView::Have(m@),
            Message::Request(m) => MessageView::Request(m),
            Message::Data(m) => MessageView::Data(m@),
        }
    }
}

impl View for Outgoing {
    type V = OutgoingView;

    open spec fn view(&self) -> OutgoingView {
        OutgoingView { channel: self.channel, message: self.message@ }
    }
}

/// The mathematical values of a list of outgoing messages, in order.
pub open spec fn outgoing_views(messages: Seq<Outgoing>) -> Seq<OutgoingView> {
    messages.map_values(|o: Outgoing| o@)
}

} // verus!
