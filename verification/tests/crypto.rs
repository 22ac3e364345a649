use wither_network::packet_decoder::PacketDecoder;
use wither_network::packet_encoder::PacketEncoder;
use wither_network::{CompressionLevel, CompressionThreshold, RawPacket};

#[test]
fn encrypted_round_trip_matched_pair() {
    let key: [u8; 16] = [7, 1, 9, 3, 200, 11, 42, 0, 255, 16, 8, 23, 99, 120, 5, 61];
    let mut encoder = PacketEncoder::new();
    encoder.set_encryption(Some(&key));
    let mut decoder = PacketDecoder::new();
    decoder.set_encryption(Some(&key));

    let frames = vec![(1, vec![0u8; 32]), (2, b"hello world".to_vec()), (9, Vec::new())];
    let mut plain_wire_len = 0;
    for (id, body) in &frames {
        encoder
            .append_packet(&RawPacket::new(*id, body.clone()))
            .expect("frame must fit");
        let chunk = encoder.take();
        plain_wire_len += chunk.len();
        decoder.queue_bytes(chunk);
    }
    let mut got = Vec::new();
    while let Some(p) = decoder.decode().expect("well formed") {
        got.push((p.id.0, p.bytebuf));
    }
    assert_eq!(got, frames);
    assert!(plain_wire_len > 0);
}

#[test]
fn ciphertext_differs_from_plaintext() {
    let key: [u8; 16] = [1; 16];
    let mut plain_encoder = PacketEncoder::new();
    plain_encoder
        .append_packet(&RawPacket::new(3, vec![5u8; 40]))
        .expect("fits");
    let plain = plain_encoder.take();

    let mut enc_encoder = PacketEncoder::new();
    enc_encoder.set_encryption(Some(&key));
    enc_encoder
        .append_packet(&RawPacket::new(3, vec![5u8; 40]))
        .expect("fits");
    let sealed = enc_encoder.take();

    assert_eq!(plain.len(), sealed.len());
    assert_ne!(plain, sealed);
}

#[test]
fn encrypted_compressed_chunked_round_trip() {
    let key: [u8; 16] = [0xA5; 16];
    let mut encoder = PacketEncoder::new();
    encoder.set_encryption(Some(&key));
    encoder
        .set_compression(Some((CompressionThreshold(32), CompressionLevel(6))))
        .expect("level 6 is valid");
    let mut decoder = PacketDecoder::new();
    decoder.set_encryption(Some(&key));
    decoder.set_compression(true);

    let frames = vec![
        (0, vec![1u8; 10]),
        (1, vec![2u8; 300]),
        (2, (0..=255u8).collect::<Vec<u8>>()),
    ];
    let mut wire: Vec<u8> = Vec::new();
    for (id, body) in &frames {
        encoder
            .append_packet(&RawPacket::new(*id, body.clone()))
            .expect("frame must fit");
        wire.extend_from_slice(&encoder.take());
    }
    let mut got = Vec::new();
    for b in wire {
        decoder.queue_bytes(vec![b]);
        while let Some(p) = decoder.decode().expect("well formed") {
            got.push((p.id.0, p.bytebuf));
        }
    }
    assert_eq!(got, frames);
}

#[test]
fn cipher_installed_mid_stream_leaves_buffered_bytes_plain() {
    let key: [u8; 16] = [9; 16];
    let mut encoder = PacketEncoder::new();
    let mut decoder = PacketDecoder::new();

    // First frame travels in the clear.
    encoder
        .append_packet(&RawPacket::new(1, vec![10, 20, 30]))
        .expect("fits");
    decoder.queue_bytes(encoder.take());

    // The key exchange completes: both halves switch over, but the bytes
    // already buffered were received before it and must stay readable.
    encoder.set_encryption(Some(&key));
    decoder.set_encryption(Some(&key));
    encoder
        .append_packet(&RawPacket::new(2, vec![40, 50]))
        .expect("fits");
    decoder.queue_bytes(encoder.take());

    let first = decoder.decode().expect("well formed").expect("complete");
    assert_eq!((first.id.0, first.bytebuf), (1, vec![10, 20, 30]));
    let second = decoder.decode().expect("well formed").expect("complete");
    assert_eq!((second.id.0, second.bytebuf), (2, vec![40, 50]));
}
