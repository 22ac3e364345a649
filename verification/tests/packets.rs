use wither_network::protocol::client::login::{LoginCompression, LoginDisconnect, LoginFinished};
use wither_network::protocol::server::login::CookieResponse;
use wither_network::types::Identifier;
use wither_network::protocol::client::status::{PongResponse, StatusResponse};
use wither_network::protocol::server::handshake::HandShake;
use wither_network::protocol::server::login::{Hello, Key, LoginAcknowledged};
use wither_network::protocol::server::status::{PingRequest, StatusRequest};
use wither_network::types::{Property, PropertyMap, Uuid};
use wither_network::{ClientIntent, Packet, VarInt};

#[test]
fn handshake_writes_and_reads_back() {
    let hs = HandShake::new(768, "localhost".to_string(), 25565, ClientIntent::Status);
    let mut pl: Vec<u8> = Vec::new();
    hs.write(&mut pl);
    assert_eq!(
        pl,
        vec![
            0x80, 0x06, 0x09, b'l', b'o', b'c', b'a', b'l', b'h', b'o', b's', b't', 0x63, 0xDD,
            0x01
        ]
    );
    let back = HandShake::read(&pl).expect("own bytes must parse");
    assert_eq!(back.protocol_version.0, 768);
    assert_eq!(back.host_name, "localhost");
    assert_eq!(back.port, 25565);
    assert_eq!(back.intention, ClientIntent::Status);
}

#[test]
fn handshake_with_multibyte_host_round_trips() {
    let hs = HandShake::new(768, "höst-ünïcode".to_string(), 443, ClientIntent::Login);
    let mut pl: Vec<u8> = Vec::new();
    hs.write(&mut pl);
    let back = HandShake::read(&pl).expect("own bytes must parse");
    assert_eq!(back.host_name, "höst-ünïcode");
    assert_eq!(back.port, 443);
    assert_eq!(back.intention, ClientIntent::Login);
}

#[test]
fn handshake_rejects_unknown_intent_code() {
    // version 1; empty host; port 0; intent code 9.
    let pl = vec![0x01, 0x00, 0x00, 0x00, 0x09];
    assert!(HandShake::read(&pl).is_err());
}

#[test]
fn login_hello_payload_layout() {
    let hello = Hello::new("bot".to_string(), Uuid(0x0102_0304_0506_0708_090A_0B0C_0D0E_0F10));
    let mut pl: Vec<u8> = Vec::new();
    hello.write(&mut pl);
    assert_eq!(pl[0], 3);
    assert_eq!(&pl[1..4], b"bot");
    assert_eq!(
        &pl[4..20],
        &[1, 2, 3, 4, 5, 6, 7, 8, 9, 10, 11, 12, 13, 14, 15, 16]
    );
    assert_eq!(pl.len(), 20);
}

#[test]
fn key_payload_is_two_prefixed_blocks() {
    let key = Key::new(vec![0xAA; 3], vec![0xBB; 2]);
    let mut pl: Vec<u8> = Vec::new();
    key.write(&mut pl);
    assert_eq!(pl, vec![3, 0xAA, 0xAA, 0xAA, 2, 0xBB, 0xBB]);
}

#[test]
fn empty_packets_have_empty_payloads() {
    let mut pl: Vec<u8> = Vec::new();
    LoginAcknowledged::new().write(&mut pl);
    StatusRequest::new().write(&mut pl);
    assert!(pl.is_empty());
    assert_eq!(LoginAcknowledged::new().packet_id(), 3);
    assert_eq!(StatusRequest::new().packet_id(), 0);
}

#[test]
fn ping_and_pong_carry_big_endian_payloads() {
    let mut pl: Vec<u8> = Vec::new();
    PingRequest::new(512).write(&mut pl);
    assert_eq!(pl, vec![0, 0, 0, 0, 0, 0, 2, 0]);
    let mut pl: Vec<u8> = Vec::new();
    PongResponse::new(-1).write(&mut pl);
    assert_eq!(pl, vec![0xFF; 8]);
}

#[test]
fn status_response_is_one_string() {
    let sr = StatusResponse::new("{\"motd\":1}".to_string());
    let mut pl: Vec<u8> = Vec::new();
    sr.write(&mut pl);
    assert_eq!(pl[0] as usize, pl.len() - 1);
    assert_eq!(&pl[1..], "{\"motd\":1}".as_bytes());
}

#[test]
fn login_compression_and_disconnect_read_back() {
    let mut pl: Vec<u8> = Vec::new();
    LoginCompression::new(VarInt(256)).write(&mut pl);
    assert_eq!(pl, vec![0x80, 0x02]);
    let back = LoginCompression::read(&pl).expect("own bytes must parse");
    assert_eq!(back.compression_threshold.0, 256);

    let mut pl: Vec<u8> = Vec::new();
    LoginDisconnect::new("bye".to_string()).write(&mut pl);
    let back = LoginDisconnect::read(&pl).expect("own bytes must parse");
    assert_eq!(back.reason, "bye");
}

#[test]
fn login_finished_round_trips_with_properties() {
    let props = vec![
        Property {
            name: "textures".to_string(),
            value: "dGV4dHVyZQ==".to_string(),
            signature: Some("c2ln".to_string()),
        },
        Property { name: "cape".to_string(), value: "Y2FwZQ==".to_string(), signature: None },
    ];
    let packet = LoginFinished::new(
        Uuid(0xFEED_FACE_CAFE_BEEF_0123_4567_89AB_CDEF),
        "bot".to_string(),
        PropertyMap::new(props),
    );
    let mut pl: Vec<u8> = Vec::new();
    packet.write(&mut pl);
    let back = LoginFinished::read(&pl).expect("own bytes must parse");
    assert_eq!(back.id, Uuid(0xFEED_FACE_CAFE_BEEF_0123_4567_89AB_CDEF));
    assert_eq!(back.name, "bot");
    assert_eq!(back.properties.len(), 2);
    assert_eq!(back.properties.get(0).name, "textures");
    assert_eq!(back.properties.get(0).value, "dGV4dHVyZQ==");
    assert_eq!(back.properties.get(0).signature.as_deref(), Some("c2ln"));
    assert_eq!(back.properties.get(1).name, "cape");
    assert_eq!(back.properties.get(1).signature, None);
}

#[test]
fn cookie_response_round_trips_both_ways() {
    let with_payload = CookieResponse {
        key: Identifier::new("minecraft".to_string(), "session".to_string()),
        payload: Some(vec![4, 8, 15, 16, 23, 42]),
    };
    let mut pl: Vec<u8> = Vec::new();
    with_payload.write(&mut pl);
    assert_eq!(pl[0] as usize, "minecraft:session".len());
    assert_eq!(&pl[1..18], b"minecraft:session");
    assert_eq!(pl[18], 1);
    assert_eq!(pl[19], 6);
    let back = CookieResponse::read(&pl).expect("own bytes must parse");
    assert_eq!(back.key.namespace, "minecraft");
    assert_eq!(back.key.path, "session");
    assert_eq!(back.payload.as_deref(), Some(&[4u8, 8, 15, 16, 23, 42][..]));

    let without = CookieResponse {
        key: Identifier::new("minecraft".to_string(), "none".to_string()),
        payload: None,
    };
    let mut pl: Vec<u8> = Vec::new();
    without.write(&mut pl);
    assert_eq!(*pl.last().unwrap(), 0);
    let back = CookieResponse::read(&pl).expect("own bytes must parse");
    assert_eq!(back.payload, None);
}

#[test]
fn cookie_response_rejects_a_keyless_string() {
    // A key string without a colon is not an identifier.
    let pl = vec![3u8, b'a', b'b', b'c', 0];
    assert!(CookieResponse::read(&pl).is_err());
}

#[test]
fn login_finished_with_empty_properties_round_trips() {
    let packet = LoginFinished::new(Uuid(7), "x".to_string(), PropertyMap::new(Vec::new()));
    let mut pl: Vec<u8> = Vec::new();
    packet.write(&mut pl);
    let back = LoginFinished::read(&pl).expect("own bytes must parse");
    assert_eq!(back.id, Uuid(7));
    assert_eq!(back.name, "x");
    assert_eq!(back.properties.len(), 0);
}
