use clearcore::codec::{
    ascii_to_int, check_reply, decode_device_identity, frame_end, int_to_byte, make_prefix,
    num_to_bytes, parse_int, take_frame, ClientError, CR, STX,
};

#[test]
fn identity_round_trip_every_index() {
    for tag in [b'M', b'I', b'A', b'O', b'H'] {
        for index in 0u8..10 {
            let prefix = make_prefix(tag, index);
            assert_eq!(decode_device_identity(prefix), Some((tag, index)));
        }
    }
}

#[test]
fn prefix_bytes() {
    assert_eq!(make_prefix(b'M', 2), [0x02, b'M', b'2']);
}

#[test]
fn identity_rejects_bad_prefix() {
    assert_eq!(decode_device_identity([0x03, b'M', b'2']), None);
    assert_eq!(decode_device_identity([0x02, b'M', b'x']), None);
}

#[test]
fn parse_negative_with_terminator() {
    assert_eq!(parse_int(b"-123\r"), Some(-123));
    assert_eq!(ascii_to_int(b"-123\r"), -123);
}

#[test]
fn parse_leading_zeros() {
    assert_eq!(parse_int(b"0045"), Some(45));
    assert_eq!(ascii_to_int(b"0045"), 45);
}

#[test]
fn parse_zero_and_empty() {
    assert_eq!(parse_int(b"0"), Some(0));
    assert_eq!(parse_int(b""), Some(0));
}

#[test]
fn parse_out_of_range() {
    assert_eq!(parse_int(b"99999999999999999999999"), None);
    assert_eq!(parse_int(b"9223372036854775807"), Some(isize::MAX));
    assert_eq!(parse_int(b"-9223372036854775807"), Some(-isize::MAX));
}

#[test]
fn number_text() {
    assert_eq!(num_to_bytes(1500), b"1500".to_vec());
    assert_eq!(num_to_bytes(-2500), b"-2500".to_vec());
    assert_eq!(num_to_bytes(0), b"0".to_vec());
    assert_eq!(num_to_bytes(isize::MIN), b"-9223372036854775808".to_vec());
}

#[test]
fn digit_byte() {
    assert_eq!(int_to_byte(0), b'0');
    assert_eq!(int_to_byte(7), b'7');
}

#[test]
fn failure_reply_carries_text() {
    let reply = b"\x02M2?bad command\r";
    match check_reply(reply) {
        Err(ClientError::Rejected(e)) => assert_eq!(e.message, "\u{2}M2?bad command\r"),
        other => panic!("unexpected {:?}", other),
    }
}

#[test]
fn success_reply_passes() {
    assert!(check_reply(b"\x02M2_\r").is_ok());
    assert!(check_reply(b"\x02M21500\r").is_ok());
}

#[test]
fn short_reply_is_malformed() {
    assert!(matches!(check_reply(b"\x02M2"), Err(ClientError::Malformed)));
}

#[test]
fn failure_reply_not_utf8_is_malformed() {
    assert!(matches!(check_reply(&[STX, b'M', b'2', b'?', 0xff, CR]), Err(ClientError::Malformed)));
}

#[test]
fn frame_end_finds_terminator() {
    assert_eq!(frame_end(b"\x02M23\r\x02M"), Some(5));
    assert_eq!(frame_end(b"\x02M23"), None);
}

#[test]
fn take_frame_splits_buffer() {
    let mut buf = b"\x02M23\r\x02M2".to_vec();
    assert_eq!(take_frame(&mut buf), Some(b"\x02M23\r".to_vec()));
    assert_eq!(buf, b"\x02M2".to_vec());
    assert_eq!(take_frame(&mut buf), None);
    assert_eq!(buf, b"\x02M2".to_vec());
}
