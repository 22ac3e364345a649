use wither_network::var_int::{decode_varint, encode_varint, VarInt, VarIntError};

fn round_trip(v: i32, expect_size: usize) {
    let mut buf: Vec<u8> = Vec::new();
    encode_varint(v, &mut buf);
    assert_eq!(buf.len(), expect_size);
    assert_eq!(VarInt(v).written_size(), expect_size);
    let (decoded, used) = decode_varint(&buf, 0).expect("complete encoding must decode");
    assert_eq!(decoded, v);
    assert_eq!(used, expect_size);
}

#[test]
fn varint_round_trips_across_the_range() {
    round_trip(0, 1);
    round_trip(1, 1);
    round_trip(127, 1);
    round_trip(128, 2);
    round_trip(255, 2);
    round_trip(300, 2);
    round_trip(768, 2);
    round_trip(16384, 3);
    round_trip(25565, 3);
    round_trip(2097151, 3);
    round_trip(2097152, 4);
    round_trip(268435455, 4);
    round_trip(268435456, 5);
    round_trip(i32::MAX, 5);
    round_trip(-1, 5);
    round_trip(i32::MIN, 5);
}

#[test]
fn varint_zero_is_a_single_zero_byte() {
    let mut buf: Vec<u8> = Vec::new();
    encode_varint(0, &mut buf);
    assert_eq!(buf, vec![0x00]);
}

#[test]
fn varint_round_trip_with_trailing_bytes() {
    let mut buf: Vec<u8> = Vec::new();
    encode_varint(-2097152, &mut buf);
    buf.push(0xAB);
    buf.push(0xCD);
    let (decoded, used) = decode_varint(&buf, 0).expect("prefix must decode");
    assert_eq!(decoded, -2097152);
    assert_eq!(used, 5);
}

#[test]
fn varint_incomplete_asks_for_more() {
    let buf = vec![0x80u8, 0x80];
    match decode_varint(&buf, 0) {
        Err(VarIntError::Incomplete) => {}
        other => panic!("expected Incomplete, got {:?}", other),
    }
}

#[test]
fn varint_sixth_continuation_byte_is_fatal() {
    let buf = vec![0x80u8, 0x80, 0x80, 0x80, 0x80, 0x01];
    match decode_varint(&buf, 0) {
        Err(VarIntError::TooLarge) => {}
        other => panic!("expected TooLarge, got {:?}", other),
    }
}

#[test]
fn varint_known_encodings() {
    let mut buf: Vec<u8> = Vec::new();
    encode_varint(768, &mut buf);
    assert_eq!(buf, vec![0x80, 0x06]);
    let mut buf: Vec<u8> = Vec::new();
    encode_varint(25565, &mut buf);
    assert_eq!(buf, vec![0xDD, 0xC7, 0x01]);
    let mut buf: Vec<u8> = Vec::new();
    encode_varint(-1, &mut buf);
    assert_eq!(buf, vec![0xFF, 0xFF, 0xFF, 0xFF, 0x0F]);
}
