use wither_network::frame::DecodeError;
use wither_network::packet_decoder::PacketDecoder;
use wither_network::packet_encoder::{PacketEncodeError, PacketEncoder};
use wither_network::{CompressionLevel, CompressionThreshold, RawPacket};

fn encode_frames(encoder: &mut PacketEncoder, frames: &[(i32, Vec<u8>)]) -> Vec<u8> {
    for (id, body) in frames {
        encoder
            .append_packet(&RawPacket::new(*id, body.clone()))
            .expect("frame must fit");
    }
    encoder.take()
}

fn decode_all(decoder: &mut PacketDecoder, wire: Vec<u8>) -> Vec<(i32, Vec<u8>)> {
    decoder.queue_bytes(wire);
    let mut out = Vec::new();
    loop {
        match decoder.decode().expect("stream must stay well formed") {
            Some(p) => out.push((p.id.0, p.bytebuf)),
            None => break,
        }
    }
    out
}

#[test]
fn plain_frame_round_trips() {
    let mut encoder = PacketEncoder::new();
    let mut decoder = PacketDecoder::new();
    let frames = vec![(7, vec![1u8, 2, 3, 4, 5]), (0x2B, (0..200u8).collect())];
    let wire = encode_frames(&mut encoder, &frames);
    let got = decode_all(&mut decoder, wire);
    assert_eq!(got, frames);
}

#[test]
fn empty_body_id_zero_round_trips() {
    let mut encoder = PacketEncoder::new();
    let mut decoder = PacketDecoder::new();
    let frames = vec![(0, Vec::new())];
    let wire = encode_frames(&mut encoder, &frames);
    assert_eq!(wire, vec![0x01, 0x00]);
    let got = decode_all(&mut decoder, wire);
    assert_eq!(got, frames);
}

#[test]
fn largest_legal_frame_accepted_and_next_rejected() {
    // id 0 takes one byte, so a body of 2^21 - 2 makes the content exactly
    // 2^21 - 1 bytes: the largest announceable length.
    let mut encoder = PacketEncoder::new();
    let body = vec![0u8; (1 << 21) - 2];
    encoder
        .append_packet(&RawPacket::new(0, body))
        .expect("content of 2^21 - 1 bytes is legal");
    let wire = encoder.take();
    let mut decoder = PacketDecoder::new();
    let got = decode_all(&mut decoder, wire);
    assert_eq!(got.len(), 1);
    assert_eq!(got[0].1.len(), (1 << 21) - 2);

    let mut encoder = PacketEncoder::new();
    let body = vec![0u8; (1 << 21) - 1];
    match encoder.append_packet(&RawPacket::new(0, body)) {
        Err(PacketEncodeError::TooLong(n)) => assert_eq!(n, 1 << 21),
        other => panic!("expected TooLong, got {:?}", other),
    }
}

#[test]
fn compressed_mode_uses_stored_layout_at_or_under_threshold() {
    let mut encoder = PacketEncoder::new();
    encoder
        .set_compression(Some((CompressionThreshold(256), CompressionLevel(6))))
        .expect("level 6 is valid");
    let body = vec![9u8; 100];
    encoder
        .append_packet(&RawPacket::new(5, body.clone()))
        .expect("small frame fits");
    let wire = encoder.take();
    // Outer length 1 + 1 + 100 = 102 is one VarInt byte; the data-length
    // slot right behind it must hold the zero marker.
    assert_eq!(wire[0], 102);
    assert_eq!(wire[1], 0x00);
    let mut decoder = PacketDecoder::new();
    decoder.set_compression(true);
    let got = decode_all(&mut decoder, wire);
    assert_eq!(got, vec![(5, body)]);
}

#[test]
fn compressed_mode_deflates_above_threshold() {
    let mut encoder = PacketEncoder::new();
    encoder
        .set_compression(Some((CompressionThreshold(256), CompressionLevel(6))))
        .expect("level 6 is valid");
    let body = vec![42u8; 1000];
    encoder
        .append_packet(&RawPacket::new(5, body.clone()))
        .expect("deflated frame fits");
    let wire = encoder.take();
    // A kilobyte of one repeated byte must actually shrink; a compressor
    // that handed its input back unchanged could not produce this.
    assert!(wire.len() < 200, "expected real compression, wire was {} bytes", wire.len());
    let mut decoder = PacketDecoder::new();
    decoder.set_compression(true);
    let got = decode_all(&mut decoder, wire);
    assert_eq!(got, vec![(5, body)]);
}

#[test]
fn compressed_mode_both_branches_in_one_stream() {
    let mut encoder = PacketEncoder::new();
    encoder
        .set_compression(Some((CompressionThreshold(64), CompressionLevel(6))))
        .expect("level 6 is valid");
    let frames = vec![
        (1, vec![1u8; 10]),
        (2, vec![2u8; 500]),
        (3, Vec::new()),
        (4, (0..255u8).cycle().take(4000).collect()),
    ];
    let wire = encode_frames(&mut encoder, &frames);
    let mut decoder = PacketDecoder::new();
    decoder.set_compression(true);
    let got = decode_all(&mut decoder, wire);
    assert_eq!(got, frames);
}

#[test]
fn oversized_announced_length_is_fatal() {
    // The VarInt encoding of 2^21 announces one byte more than allowed.
    let mut decoder = PacketDecoder::new();
    decoder.queue_bytes(vec![0x80, 0x80, 0x80, 0x01]);
    match decoder.decode() {
        Err(DecodeError::FrameTooLarge) => {}
        other => panic!("expected FrameTooLarge, got {:?}", other),
    }
}

#[test]
fn negative_announced_length_is_fatal() {
    let mut decoder = PacketDecoder::new();
    decoder.queue_bytes(vec![0xFF, 0xFF, 0xFF, 0xFF, 0x0F]);
    match decoder.decode() {
        Err(DecodeError::FrameTooLarge) => {}
        other => panic!("expected FrameTooLarge, got {:?}", other),
    }
}

#[test]
fn six_continuation_bytes_in_prefix_are_fatal() {
    let mut decoder = PacketDecoder::new();
    decoder.queue_bytes(vec![0x80, 0x80, 0x80, 0x80, 0x80, 0x80]);
    match decoder.decode() {
        Err(DecodeError::BadVarInt) => {}
        other => panic!("expected BadVarInt, got {:?}", other),
    }
}

#[test]
fn garbage_compressed_body_is_a_zlib_fault() {
    let mut decoder = PacketDecoder::new();
    decoder.set_compression(true);
    // Announce 5 content bytes: data_len 4, then 4 bytes of non-zlib noise.
    decoder.queue_bytes(vec![0x05, 0x04, 0xDE, 0xAD, 0xBE, 0xEF]);
    match decoder.decode() {
        Err(DecodeError::Zlib) => {}
        other => panic!("expected Zlib, got {:?}", other),
    }
}

#[test]
fn short_decompressed_body_is_inconsistent() {
    // Compress a 4-byte content but announce a data length of 9.
    let mut lvl_encoder = PacketEncoder::new();
    lvl_encoder
        .set_compression(Some((CompressionThreshold(0), CompressionLevel(6))))
        .expect("level 6 is valid");
    lvl_encoder
        .append_packet(&RawPacket::new(1, vec![1, 2, 3]))
        .expect("fits");
    let honest = lvl_encoder.take();
    // honest = outer len ; data_len (= 4) ; zlib bytes. Re-frame the same
    // zlib bytes behind a lying data length.
    let zlib_part = honest[2..].to_vec();
    let mut lying: Vec<u8> = Vec::new();
    lying.push((1 + zlib_part.len()) as u8);
    lying.push(0x09);
    lying.extend_from_slice(&zlib_part);
    let mut decoder = PacketDecoder::new();
    decoder.set_compression(true);
    decoder.queue_bytes(lying);
    match decoder.decode() {
        Err(DecodeError::InconsistentLength) => {}
        other => panic!("expected InconsistentLength, got {:?}", other),
    }
}

#[test]
fn chunked_delivery_one_byte_at_a_time() {
    let mut encoder = PacketEncoder::new();
    let mut frames: Vec<(i32, Vec<u8>)> = Vec::new();
    for i in 0..100i32 {
        frames.push((i % 7, vec![(i % 251) as u8; (i as usize * 3) % 40]));
    }
    let wire = encode_frames(&mut encoder, &frames);

    let mut decoder = PacketDecoder::new();
    let mut got: Vec<(i32, Vec<u8>)> = Vec::new();
    for b in wire {
        decoder.queue_bytes(vec![b]);
        loop {
            match decoder.decode().expect("stream must stay well formed") {
                Some(p) => got.push((p.id.0, p.bytebuf)),
                None => break,
            }
        }
    }
    assert_eq!(got, frames);
}

#[test]
fn reserve_changes_nothing_observable() {
    let mut decoder = PacketDecoder::new();
    decoder.queue_bytes(vec![0x01]);
    decoder.reserve(4096);
    decoder.queue_bytes(vec![0x00]);
    let got = decoder.decode().expect("well formed").expect("complete");
    assert_eq!(got.id.0, 0);
    assert!(got.bytebuf.is_empty());
}
