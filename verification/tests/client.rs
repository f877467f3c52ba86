use colmeia_dat1::client::SimpleDatClient;
use colmeia_dat1::handshake::HandshakeState;
use colmeia_dat1::message::{Feed, Handshake, Message, Outgoing};

fn feed(key: &[u8]) -> Feed {
    Feed { discovery_key: key.to_vec() }
}

#[test]
fn a_new_client_knows_no_channel() {
    let client = SimpleDatClient::new();
    assert_eq!(client.handshake_state(), HandshakeState::NotStarted);
    assert!(client.channels().is_empty());
    assert_eq!(client.hex_key(0), None);
    let other = SimpleDatClient::default();
    assert!(other.channels().is_empty());
    assert_eq!(other.handshake_state(), HandshakeState::NotStarted);
}

#[test]
fn the_first_feed_of_a_channel_is_repeated_back() {
    let client = SimpleDatClient::new();
    assert_eq!(
        client.echo_of(7, &feed(&[1, 2, 3])),
        Some(Outgoing { channel: 7, message: Message::Feed(feed(&[1, 2, 3])) })
    );
}

#[test]
fn deciding_the_echo_changes_nothing() {
    let mut client = SimpleDatClient::new();
    assert!(client.echo_of(7, &feed(&[1, 2, 3])).is_some());
    assert_eq!(client.handshake_state(), HandshakeState::NotStarted);
    assert!(client.channels().is_empty());
    assert_eq!(client.hex_key(7), None);
    assert!(client.echo_of(7, &feed(&[1, 2, 3])).is_some());

    client.on_feed(3, &feed(&[5]));
    assert!(client.echo_of(7, &feed(&[9])).is_some());
    assert_eq!(client.echo_of(3, &feed(&[9])), None);
    assert_eq!(client.handshake_state(), HandshakeState::FeedExchanged);
    assert_eq!(client.channels(), &vec![3]);
    assert_eq!(client.hex_key(3), Some(String::from("05")));
    assert_eq!(client.hex_key(7), None);
}

#[test]
fn recording_a_feed_keeps_its_key_and_starts_the_handshake() {
    let mut client = SimpleDatClient::new();
    client.on_feed(7, &feed(&[1, 2, 3]));
    assert_eq!(client.handshake_state(), HandshakeState::FeedExchanged);
    assert_eq!(client.channels(), &vec![7]);
    assert_eq!(client.hex_key(7), Some(String::from("010203")));
    assert_eq!(client.echo_of(7, &feed(&[1, 2, 3])), None);
}

#[test]
fn a_later_feed_of_a_channel_replaces_the_key_silently() {
    let mut client = SimpleDatClient::new();
    client.on_feed(7, &feed(&[1, 2, 3]));
    assert_eq!(client.echo_of(7, &feed(&[9])), None);
    client.on_feed(7, &feed(&[9]));
    assert_eq!(client.hex_key(7), Some(String::from("09")));
    assert_eq!(client.channels(), &vec![7]);
}

#[test]
fn channels_are_listed_in_the_order_they_announced() {
    let mut client = SimpleDatClient::new();
    client.on_feed(9, &feed(&[1]));
    client.on_feed(2, &feed(&[2]));
    client.on_feed(9, &feed(&[3]));
    client.on_feed(5, &feed(&[4]));
    assert_eq!(client.channels(), &vec![9, 2, 5]);
}

#[test]
fn keys_are_written_in_lower_case_hexadecimal() {
    let mut client = SimpleDatClient::new();
    client.on_feed(1, &feed(&[1, 2, 3, 15, 16]));
    client.on_feed(2, &feed(&[0xab, 0xcd, 0xef, 0x00, 0xff]));
    client.on_feed(3, &feed(&[]));
    assert_eq!(client.hex_key(1), Some(String::from("0102030f10")));
    assert_eq!(client.hex_key(2), Some(String::from("abcdef00ff")));
    assert_eq!(client.hex_key(3), Some(String::new()));
    assert_eq!(client.hex_key(4), None);
}

#[test]
fn a_handshake_completes_the_clients_handshake() {
    let mut client = SimpleDatClient::new();
    client.on_feed(1, &feed(&[1]));
    client.on_handshake(1, &Handshake { id: vec![1, 2], live: true });
    assert_eq!(client.handshake_state(), HandshakeState::Complete);
    assert_eq!(client.channels(), &vec![1]);
    client.on_feed(2, &feed(&[2]));
    assert_eq!(client.handshake_state(), HandshakeState::Complete);
}

#[test]
fn handshake_states_follow_one_another() {
    assert_eq!(HandshakeState::NotStarted.on_feed(), HandshakeState::FeedExchanged);
    assert_eq!(HandshakeState::FeedExchanged.on_feed(), HandshakeState::FeedExchanged);
    assert_eq!(HandshakeState::Complete.on_feed(), HandshakeState::Complete);
    assert_eq!(HandshakeState::NotStarted.on_handshake(), HandshakeState::Complete);
    assert_eq!(HandshakeState::FeedExchanged.on_handshake(), HandshakeState::Complete);
}
