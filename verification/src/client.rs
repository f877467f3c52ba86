//! A client that only listens: it completes the handshake on every channel
//! and remembers which log each channel announced.

use std::collections::HashMap;
use vstd::prelude::*;
use vstd::slice::slice_to_vec;
use crate::handshake::HandshakeState;
use crate::message::{Feed, Handshake, Message, MessageView, Outgoing, OutgoingView};

verus! {

broadcast use vstd::std_specs::hash::group_hash_axioms;

/// Mathematical value of a [`SimpleDatClient`].
pub ghost struct ClientView {
    /// How far the handshake has come.
    pub handshake: HandshakeState,
    /// The discovery key that each channel announced last.
    pub keys: Map<u64, Seq<u8>>,
    /// The channels that announced a key, in the order of their first
    /// announcement.
    pub channels: Seq<u64>,
}

/// Collects the discovery keys that a peer announces.
#[derive(Debug)]
pub struct SimpleDatClient {
    handshake: HandshakeState,
    dat_keys: HashMap<u64, Vec<u8>>,
    channels: Vec<u64>,
}

/// The text of hexadecimal digit `digit`, in lower case.
pub open spec fn hex_digit(digit: int) -> char {
    if digit < 10 {
        (48 + digit) as u8 as char
    } else {
        (87 + digit) as u8 as char
    }
}

/// The bytes of `key` as text: two hexadecimal digits for each byte, the high
/// one first, in lower case.
pub open spec fn hex_text(key: Seq<u8>) -> Seq<char> {
    Seq::new(
        2 * key.len(),
        |i: int|
            if i % 2 == 0 {
                hex_digit(key[i / 2] as int / 16)
            } else {
                hex_digit(key[i / 2] as int % 16)
            },
    )
}

/// The message that repeats a peer's announcement back to it.
pub open spec fn feed_echo(channel: u64, message: Feed) -> OutgoingView {
    OutgoingView { channel, message: MessageView::Feed(message@) }
}

/// The client after a `Feed` on `channel` that announces `key`.
pub open spec fn after_feed(client: ClientView, channel: u64, key: Seq<u8>) -> ClientView {
    ClientView {
        handshake: client.handshake.fed(),
        keys: client.keys.insert(channel, key),
        channels: if client.keys.contains_key(channel) {
            client.channels
        } else {
            client.channels.push(channel)
        },
    }
}

/// Whether the list of channels holds every channel that has a key, once.
pub open spec fn listed_once(client: ClientView) -> bool {
    client.channels.no_duplicates() && client.channels.to_set() == client.keys.dom()
}

/// Calls `hex::encode`, which writes each byte as two hexadecimal digits in
/// lower case, the high one first.
#[verifier::external_body]
fn hex_encode(key: &[u8]) -> (text: String)
    ensures
        text@ == hex_text(key@),
{
    hex::encode(key)
}

impl View for SimpleDatClient {
    type V = ClientView;

    closed spec fn view(&self) -> ClientView {
        ClientView {
            handshake: self.handshake,
            keys: self.dat_keys@.map_values(|key: Vec<u8>| key@),
            channels: self.channels@,
        }
    }
}

impl SimpleDatClient {
    /// The list of channels holds every channel that has a key, once.
    #[verifier::type_invariant]
    closed spec fn channels_listed_once(&self) -> bool {
        listed_once(self@)
    }

    /// A client that has heard nothing yet.
    pub fn new() -> (client: Self)
        ensures
            client@ == (ClientView {
                handshake: HandshakeState::NotStarted,
                keys: Map::empty(),
                channels: Seq::empty(),
            }),
            listed_once(client@),
    {
        let dat_keys: HashMap<u64, Vec<u8>> = HashMap::new();
        let channels: Vec<u64> = Vec::new();
        assert(dat_keys@.map_values(|key: Vec<u8>| key@) =~= Map::<u64, Seq<u8>>::empty());
        assert(channels@.to_set() =~= Set::<u64>::empty());
        assert(Map::<u64, Seq<u8>>::empty().dom() =~= Set::<u64>::empty());
        SimpleDatClient { handshake: HandshakeState::NotStarted, dat_keys, channels }
    }

    /// Decides what a `Feed` on `channel` is answered with, and changes
    /// nothing: the first announcement on a channel is repeated back to the
    /// peer, a later one is not. The announcement is recorded by
    /// [`SimpleDatClient::on_feed`], once the answer was sent.
    pub fn echo_of(&self, channel: u64, message: &Feed) -> (echo: Option<Outgoing>)
        ensures
            match echo {
                Some(sent) => !self@.keys.contains_key(channel) && sent@ == feed_echo(
                    channel,
                    *message,
                ),
                None => self@.keys.contains_key(channel),
            },
    {
        if self.dat_keys.contains_key(&channel) {
            None
        } else {
            let discovery_key = slice_to_vec(message.discovery_key.as_slice());
            Some(Outgoing { channel, message: Message::Feed(Feed { discovery_key }) })
        }
    }

    /// Records a `Feed`: the channel now has the key that the message
    /// announces, in place of any earlier one, and the handshake takes its
    /// step. A channel that had no key joins the end of the list of channels.
    pub fn on_feed(&mut self, channel: u64, message: &Feed)
        ensures
            final(self)@ == after_feed(old(self)@, channel, message.discovery_key@),
            listed_once(final(self)@),
    {
        let ghost before = self@;
        proof {
            use_type_invariant(&*self);
            lemma_feed_keeps_channels_listed(before, channel, message.discovery_key@);
        }
        let mut taken = SimpleDatClient::new();
        std::mem::swap(self, &mut taken);
        let SimpleDatClient { handshake, mut dat_keys, mut channels } = taken;
        if !dat_keys.contains_key(&channel) {
            channels.push(channel);
        }
        dat_keys.insert(channel, slice_to_vec(message.discovery_key.as_slice()));
        let handshake = handshake.on_feed();
        proof {
            let keys = dat_keys@.map_values(|key: Vec<u8>| key@);
            assert(keys =~= before.keys.insert(channel, message.discovery_key@));
        }
        *self = SimpleDatClient { handshake, dat_keys, channels };
    }

    /// Handles a `Handshake`, which completes the handshake.
    pub fn on_handshake(&mut self, channel: u64, message: &Handshake)
        ensures
            final(self)@ == (ClientView { handshake: HandshakeState::Complete, ..old(self)@ }),
            listed_once(final(self)@),
    {
        proof {
            use_type_invariant(&*self);
        }
        self.handshake = self.handshake.on_handshake();
    }

    /// How far the handshake has come.
    pub fn handshake_state(&self) -> (state: HandshakeState)
        ensures
            state == self@.handshake,
    {
        self.handshake
    }

    /// The channels that announced a key, in the order of their first
    /// announcement. Each channel that has a key is in the list once.
    pub fn channels(&self) -> (channels: &Vec<u64>)
        ensures
            channels@ == self@.channels,
            listed_once(self@),
    {
        proof {
            use_type_invariant(self);
        }
        &self.channels
    }

    /// The key that `channel` announced last, as hexadecimal text.
    pub fn hex_key(&self, channel: u64) -> (text: Option<String>)
        ensures
            match text {
                Some(t) => self@.keys.contains_key(channel) && t@ == hex_text(
                    self@.keys[channel],
                ),
                None => !self@.keys.contains_key(channel),
            },
    {
        match self.dat_keys.get(&channel) {
            Some(key) => Some(hex_encode(key.as_slice())),
            None => None,
        }
    }
}

impl Default for SimpleDatClient {
    fn default() -> (client: Self)
        ensures
            client@ == (ClientView {
                handshake: HandshakeState::NotStarted,
                keys: Map::empty(),
                channels: Seq::empty(),
            }),
            listed_once(client@),
    {
        SimpleDatClient::new()
    }
}

/// A list of channels that holds every channel with a key once still does so
/// after a `Feed`.
pub proof fn lemma_feed_keeps_channels_listed(client: ClientView, channel: u64, key: Seq<u8>)
    requires
        listed_once(client),
    ensures
        listed_once(after_feed(client, channel, key)),
{
    let next = after_feed(client, channel, key);
    let before = client.channels;
    if client.keys.contains_key(channel) {
        assert(next.keys.dom() =~= client.keys.dom());
    } else {
        assert(!before.to_set().contains(channel));
        assert forall|c: u64|
            next.channels.to_set().contains(c) == (before.to_set().contains(c) || c
                == channel) by {
            if next.channels.contains(c) {
                let i = choose|i: int| 0 <= i < next.channels.len() && next.channels[i] == c;
                if i < before.len() {
                    assert(before[i] == c);
                }
            }
            if before.contains(c) {
                let i = choose|i: int| 0 <= i < before.len() && before[i] == c;
                assert(next.channels[i] == c);
            }
            if c == channel {
                assert(next.channels[before.len() as int] == c);
            }
        }
        assert(next.channels.to_set() =~= before.to_set().insert(channel));
        assert(next.keys.dom() =~= client.keys.dom().insert(channel));
        assert forall|i: int, j: int|
            0 <= i < next.channels.len() && 0 <= j < next.channels.len() && i
                != j implies next.channels[i] != next.channels[j] by {
            if i < before.len() {
                assert(before.contains(next.channels[i]));
            }
            if j < before.len() {
                assert(before.contains(next.channels[j]));
            }
        }
    }
}

} // verus!
