use colmeia_dat1::error::ReplicationError;
use colmeia_dat1::rle::{decode, decoded_length, encode, MAX_BITFIELD_BYTES};

fn round_trip(bits: Vec<u8>) {
    let encoded = encode(&bits);
    assert_eq!(decode(&encoded), Ok(bits));
}

#[test]
fn round_trip_of_empty_bitfield() {
    round_trip(vec![]);
    assert_eq!(encode(&[]), vec![0]);
    assert_eq!(decode(&[0]), Ok(vec![]));
}

#[test]
fn round_trip_of_all_clear_bitfield() {
    round_trip(vec![0; 1024]);
    round_trip(vec![0; 1]);
}

#[test]
fn round_trip_of_all_set_bitfield() {
    round_trip(vec![255; 1024]);
    round_trip(vec![255; 3]);
}

#[test]
fn round_trip_of_mixed_bitfield() {
    round_trip(vec![255, 255, 85, 84, 0, 0, 0, 183]);
    round_trip(vec![1, 0, 0, 255, 255, 7, 0, 255, 3]);
    let mut sparse = vec![0u8; 4096];
    sparse[8] = 1;
    sparse[4095] = 0x80;
    round_trip(sparse);
    let every: Vec<u8> = (0..=255u8).collect();
    round_trip(every);
}

#[test]
fn encode_gives_the_documented_runs() {
    assert_eq!(encode(&[255, 255, 85, 84, 0, 0, 0, 183]), vec![11, 4, 85, 84, 13, 2, 183]);
}

#[test]
fn decode_expands_the_documented_runs() {
    assert_eq!(decode(&[11, 4, 85, 84, 13, 2, 183]), Ok(vec![255, 255, 85, 84, 0, 0, 0, 183]));
    assert_eq!(decoded_length(&[11, 4, 85, 84, 13, 2, 183]), Some(8));
}

#[test]
fn decode_of_nothing_is_an_empty_bitfield() {
    assert_eq!(decode(&[]), Ok(vec![]));
    assert_eq!(decoded_length(&[]), Some(0));
}

#[test]
fn decode_of_a_long_run_of_ones() {
    // 300 bytes of ones: header (300 << 2) | 3 = 1203 = [0xb3, 0x09]
    assert_eq!(decode(&[0xb3, 0x09]), Ok(vec![255; 300]));
    assert_eq!(decoded_length(&[0xb3, 0x09]), Some(300));
}

#[test]
fn decode_rejects_a_header_cut_short() {
    assert_eq!(decode(&[0x80]), Err(ReplicationError::BitfieldDecodeFailure));
    assert_eq!(decode(&[11, 0xff]), Err(ReplicationError::BitfieldDecodeFailure));
    assert_eq!(decoded_length(&[0x80]), None);
}

#[test]
fn decode_rejects_a_header_wider_than_64_bits() {
    let mut wide = vec![0x80u8; 10];
    wide.push(0x01);
    assert_eq!(decode(&wide), Err(ReplicationError::BitfieldDecodeFailure));
    let mut high = vec![0xffu8; 9];
    high.push(0x02);
    assert_eq!(decode(&high), Err(ReplicationError::BitfieldDecodeFailure));
}

#[test]
fn decode_rejects_a_literal_run_past_the_end() {
    // header 4: two literal bytes follow, but only one is there
    assert_eq!(decode(&[4, 1]), Err(ReplicationError::BitfieldDecodeFailure));
    assert_eq!(decoded_length(&[4, 1]), None);
    assert_eq!(decode(&[4, 1, 2]), Ok(vec![1, 2]));
}

#[test]
fn decode_rejects_a_bitfield_beyond_the_limit() {
    // a run of MAX_BITFIELD_BYTES + 1 zero bytes: header ((2^31) << 2) | 1
    let header: u64 = (((MAX_BITFIELD_BYTES as u64) + 1) << 2) | 1;
    let mut encoded = Vec::new();
    let mut rest = header;
    while rest > 127 {
        encoded.push((rest as u8 & 127) | 128);
        rest >>= 7;
    }
    encoded.push(rest as u8);
    assert_eq!(decoded_length(&encoded), None);
    assert_eq!(decode(&encoded), Err(ReplicationError::BitfieldDecodeFailure));
}

#[test]
fn decode_agrees_with_the_outside_decoder_on_well_formed_input() {
    let inputs: Vec<Vec<u8>> = vec![vec![], vec![0], vec![7], vec![2, 64], vec![2, 64, 253, 31]];
    for input in inputs {
        let expected = bitfield_rle::decode(&input).unwrap();
        assert_eq!(decode(&input), Ok(expected.clone()));
        assert_eq!(decoded_length(&input), Some(expected.len()));
    }
}

#[test]
fn failures_describe_themselves() {
    assert_eq!(ReplicationError::ChannelMismatch.description(), "Wrong channel in use");
    assert_eq!(
        ReplicationError::LockAcquisitionFailure.description(),
        "Could not aquire feed lock"
    );
    assert_eq!(ReplicationError::BitfieldDecodeFailure.description(), "could not decode bitfield");
    assert_eq!(
        ReplicationError::BitfieldEncodeFailure.description(),
        "could not compress bitfield"
    );
    assert_eq!(
        ReplicationError::StorageWriteFailure.description(),
        "could not write data to feed"
    );
}
