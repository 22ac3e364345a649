use cfb8::cipher::{AsyncStreamCipher, KeyIvInit};
use rsa::pkcs8::EncodePublicKey;
use rsa::Pkcs1v15Encrypt;
use wither_network::connection::{ClientError, Connection};
use wither_network::packet_decoder::PacketDecoder;
use wither_network::protocol::client::login::Hello as ClientHello;
use wither_network::protocol::client::login::{LoginCompression, LoginDisconnect, LoginFinished};
use wither_network::types::{Binary, PropertyMap, Uuid};
use wither_network::{ClientIntent, ConnectionProtocol, Packet, RawPacket, VarInt};

fn payload_of<P: Packet>(p: &P) -> Vec<u8> {
    let mut pl: Vec<u8> = Vec::new();
    p.write(&mut pl);
    pl
}

fn decrypt_stream(key: &[u8; 16], wire: &[u8]) -> Vec<u8> {
    let mut buf = wire.to_vec();
    cfb8::Decryptor::<aes::Aes128>::new_from_slices(key, key)
        .expect("sixteen bytes")
        .decrypt(&mut buf);
    buf
}

#[test]
fn status_handshake_bytes_on_the_wire() {
    let mut conn = Connection::new("localhost".to_string(), 25565);
    let wire = conn.set_intent(ClientIntent::Status).expect("first declaration");
    assert_eq!(
        wire,
        vec![
            0x10, 0x00, 0x80, 0x06, 0x09, b'l', b'o', b'c', b'a', b'l', b'h', b'o', b's', b't',
            0x63, 0xDD, 0x01
        ]
    );
    assert_eq!(conn.protocol(), ConnectionProtocol::Status);

    // A status response arriving now is enqueued for the consumer.
    let frame = RawPacket::new(0, payload_of(&wither_network::protocol::client::status::StatusResponse::new("{}".to_string())));
    conn.handle_packet(&frame).expect("quiet phases enqueue only");
    let seen = conn.peek_packet().expect("one frame queued");
    assert_eq!(seen.id.0, 0);
}

#[test]
fn handshake_carries_the_connections_endpoint() {
    let mut conn = Connection::new("example.com".to_string(), 443);
    let wire = conn.set_intent(ClientIntent::Status).expect("first declaration");
    let mut expect: Vec<u8> = vec![0x12, 0x00, 0x80, 0x06, 0x0B];
    expect.extend_from_slice(b"example.com");
    expect.extend_from_slice(&[0x01, 0xBB, 0x01]);
    assert_eq!(wire, expect);
}

#[test]
fn two_byte_key_document_is_refused_not_fatal_to_the_process() {
    // A bare empty BIT STRING posing as a public key must come back as a
    // refusal, never crash the client.
    let mut conn = Connection::new("localhost".to_string(), 25565);
    conn.set_intent(ClientIntent::Login).expect("first declaration");
    let request = ClientHello::new(
        "".to_string(),
        Binary::new(vec![0x03, 0x00]),
        Binary::new(vec![1, 2, 3, 4]),
        true,
    );
    let err = conn
        .handle_packet(&RawPacket::new(1, payload_of(&request)))
        .unwrap_err();
    assert_eq!(err, ClientError::CryptoFailure);
    assert!(conn.is_closed());
}

#[test]
fn intent_misuse_is_refused() {
    let mut conn = Connection::new("localhost".to_string(), 25565);
    assert_eq!(conn.attempt_login("bot").unwrap_err(), ClientError::IntentUnset);
    assert_eq!(
        conn.set_intent(ClientIntent::Transfer).unwrap_err(),
        ClientError::IntentUnsupported
    );
    conn.set_intent(ClientIntent::Status).expect("first declaration");
    assert_eq!(
        conn.set_intent(ClientIntent::Login).unwrap_err(),
        ClientError::IntentAlreadySet
    );
    assert_eq!(conn.attempt_login("bot").unwrap_err(), ClientError::WrongIntent);
}

#[test]
fn login_flow_up_to_configuration() {
    // A throwaway RSA identity for the fake server.
    let mut rng = rand::rngs::OsRng;
    let server_key = rsa::RsaPrivateKey::new(&mut rng, 1024).expect("key generation");
    let server_pub = server_key.to_public_key();
    let der = server_pub
        .to_public_key_der()
        .expect("public key encodes")
        .as_bytes()
        .to_vec();

    let mut conn = Connection::new("localhost".to_string(), 25565);
    let handshake = conn.set_intent(ClientIntent::Login).expect("first declaration");
    assert_eq!(handshake[handshake.len() - 1], 0x02);
    assert_eq!(conn.protocol(), ConnectionProtocol::Login);

    // The login request carries the name and a version-4 identity.
    let hello_wire = conn.attempt_login("bot").expect("login intent declared");
    assert_eq!(hello_wire[0], 21);
    assert_eq!(hello_wire[1], 0x00);
    assert_eq!(hello_wire[2], 3);
    assert_eq!(&hello_wire[3..6], b"bot");
    let uuid_bytes = &hello_wire[6..22];
    assert_eq!(uuid_bytes[6] >> 4, 4);
    assert_eq!(uuid_bytes[8] >> 6, 2);

    // The server asks for encryption with a four-byte challenge.
    let challenge = vec![1u8, 2, 3, 4];
    let request = ClientHello::new(
        "".to_string(),
        Binary::new(der),
        Binary::new(challenge.clone()),
        true,
    );
    let effect = conn
        .handle_packet(&RawPacket::new(1, payload_of(&request)))
        .expect("well-formed encryption request");
    assert!(!effect.login_finished);

    // The answer leaves in the clear: one frame holding two sealed blocks
    // of 128 bytes each (a 1024-bit modulus).
    let mut probe = PacketDecoder::new();
    probe.queue_bytes(effect.to_send.clone());
    let key_frame = probe.decode().expect("well formed").expect("complete");
    assert_eq!(key_frame.id.0, 1);
    let body = key_frame.bytebuf;
    assert_eq!(&body[0..2], &[0x80, 0x01]);
    let sealed_key = &body[2..130];
    assert_eq!(&body[130..132], &[0x80, 0x01]);
    let sealed_challenge = &body[132..260];
    let shared = server_key
        .decrypt(Pkcs1v15Encrypt, sealed_key)
        .expect("the client sealed under our key");
    let echoed = server_key
        .decrypt(Pkcs1v15Encrypt, sealed_challenge)
        .expect("the client sealed under our key");
    assert_eq!(shared.len(), 16);
    assert_eq!(echoed, challenge);
    let mut shared_key = [0u8; 16];
    shared_key.copy_from_slice(&shared);

    // Compression activates at threshold 256.
    let effect = conn
        .handle_packet(&RawPacket::new(3, payload_of(&LoginCompression::new(VarInt(256)))))
        .expect("well-formed compression order");
    assert!(effect.to_send.is_empty());

    // Everything the client sends from now on continues one cipher stream.
    let mut cipher_stream: Vec<u8> = Vec::new();

    let small = conn
        .send_packet(&RawPacket::new(0x0A, vec![7u8; 100]))
        .expect("small frame fits");
    cipher_stream.extend_from_slice(&small);
    let plain = decrypt_stream(&shared_key, &cipher_stream);
    // 100 + 1 bytes of content stay at or under the threshold: the stored
    // layout with the zero marker in the data-length slot.
    assert_eq!(plain[0], 102);
    assert_eq!(plain[1], 0x00);

    let large = conn
        .send_packet(&RawPacket::new(0x0B, vec![8u8; 500]))
        .expect("large frame fits");
    cipher_stream.extend_from_slice(&large);
    let plain = decrypt_stream(&shared_key, &cipher_stream);
    // The second frame must use the deflated layout: a nonzero data length
    // behind its prefix, and far fewer bytes than its content.
    assert!(plain[103] != 0x00);
    assert!(large.len() < 200);

    // Both frames decode back through an identically configured decoder.
    let mut server_side = PacketDecoder::new();
    server_side.set_compression(true);
    server_side.queue_bytes(plain);
    let first = server_side.decode().expect("well formed").expect("complete");
    assert_eq!((first.id.0, first.bytebuf), (0x0A, vec![7u8; 100]));
    let second = server_side.decode().expect("well formed").expect("complete");
    assert_eq!((second.id.0, second.bytebuf), (0x0B, vec![8u8; 500]));

    // Login success: the identity is recorded, the acknowledgement leaves,
    // the phase moves on, and the login notification fires once.
    let granted = Uuid(0xFEED_FACE_CAFE_BEEF_0123_4567_89AB_CDEF);
    let finish = LoginFinished::new(granted, "bot".to_string(), PropertyMap::new(Vec::new()));
    let effect = conn
        .handle_packet(&RawPacket::new(2, payload_of(&finish)))
        .expect("well-formed login success");
    assert!(effect.login_finished);
    assert_eq!(conn.protocol(), ConnectionProtocol::Config);
    assert_eq!(conn.profile_id(), Some(granted));
    cipher_stream.extend_from_slice(&effect.to_send);
    let plain = decrypt_stream(&shared_key, &cipher_stream);
    // The acknowledgement is the stored frame [2, 0, 3] at the tail.
    assert_eq!(&plain[plain.len() - 3..], &[0x02, 0x00, 0x03]);

    // Consumers observe every inbound frame in arrival order, the handled
    // ones included.
    let ids: Vec<i32> = std::iter::from_fn(|| conn.peek_packet().map(|p| p.id.0)).collect();
    assert_eq!(ids, vec![1, 3, 2]);
}

#[test]
fn disconnect_closes_and_surfaces_the_reason() {
    let mut conn = Connection::new("localhost".to_string(), 25565);
    conn.set_intent(ClientIntent::Login).expect("first declaration");
    let effect = conn
        .handle_packet(&RawPacket::new(0, payload_of(&LoginDisconnect::new("bye".to_string()))))
        .expect("well-formed disconnect");
    assert!(conn.is_closed());
    assert_eq!(effect.disconnect_reason.as_deref(), Some("bye"));
    assert!(!effect.login_finished);
}

#[test]
fn close_is_idempotent() {
    let mut conn = Connection::new("localhost".to_string(), 25565);
    conn.set_intent(ClientIntent::Login).expect("first declaration");
    assert!(!conn.is_closed());
    conn.close();
    assert!(conn.is_closed());
    let phase = conn.protocol();
    conn.close();
    conn.close();
    assert!(conn.is_closed());
    assert_eq!(conn.protocol(), phase);
}

#[test]
fn fatal_decode_fault_then_close_wakes_the_machine_down() {
    // The reader loop's decision on a fatal frame: close the connection.
    let mut conn = Connection::new("localhost".to_string(), 25565);
    conn.set_intent(ClientIntent::Status).expect("first declaration");
    conn.decoder.queue_bytes(vec![0x80, 0x80, 0x80, 0x01]);
    match conn.decoder.decode() {
        Err(wither_network::frame::DecodeError::FrameTooLarge) => conn.close(),
        other => panic!("expected FrameTooLarge, got {:?}", other),
    }
    assert!(conn.is_closed());
}

#[test]
fn malformed_login_payloads_do_not_close() {
    let mut conn = Connection::new("localhost".to_string(), 25565);
    conn.set_intent(ClientIntent::Login).expect("first declaration");
    // An encryption request whose body ends inside the key block.
    let err = conn
        .handle_packet(&RawPacket::new(1, vec![0x00, 0x05, 0x01]))
        .unwrap_err();
    assert_eq!(err, ClientError::MalformedPacket);
    assert!(!conn.is_closed());
    // The broken frame is still visible to consumers.
    assert_eq!(conn.queue_len(), 1);
}

#[test]
fn unusable_der_key_closes_the_connection() {
    let mut conn = Connection::new("localhost".to_string(), 25565);
    conn.set_intent(ClientIntent::Login).expect("first declaration");
    let request = ClientHello::new(
        "".to_string(),
        Binary::new(vec![0xDE, 0xAD]),
        Binary::new(vec![1, 2, 3, 4]),
        true,
    );
    let err = conn
        .handle_packet(&RawPacket::new(1, payload_of(&request)))
        .unwrap_err();
    assert_eq!(err, ClientError::CryptoFailure);
    assert!(conn.is_closed());
}

#[test]
fn unknown_packet_ids_are_enqueued_and_ignored() {
    let mut conn = Connection::new("localhost".to_string(), 25565);
    conn.set_intent(ClientIntent::Login).expect("first declaration");
    let effect = conn
        .handle_packet(&RawPacket::new(0x7F, vec![1, 2, 3]))
        .expect("unknown ids are not fatal");
    assert!(effect.to_send.is_empty());
    assert!(!conn.is_closed());
    let seen = conn.peek_packet().expect("queued");
    assert_eq!(seen.id.0, 0x7F);
    assert_eq!(seen.bytebuf, vec![1, 2, 3]);
    assert!(conn.peek_packet().is_none());
}
