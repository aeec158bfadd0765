//! Scenario tests for the codec's laws: round-tripping of every packet kind,
//! string round-tripping across the Basic Multilingual Plane boundary,
//! rejection of unknown identifiers, truncation safety, trailing-byte
//! tolerance, and every error variant.

use protocol::error::CodecError;
use protocol::packet::{
    ChatMessagePayload, DisconnectKickPayload, EntityEquipmentPayload, HandshakePayload,
    KeepAlivePayload, LoginRequestPayload, Packet, PlayerPositionAndLookPayload,
    ServerListPingPayload, SpawnPositionPayload, TimeUpdatePayload,
};
use protocol::session::replies_for;
use protocol::text::{put_string, read_string, utf16_count};
use protocol::wire::Cursor;

fn sample_packets() -> Vec<Packet> {
    vec![
        Packet::KeepAlive(KeepAlivePayload { keep_alive_id: -17 }),
        Packet::LoginRequest(LoginRequestPayload {
            id: 29,
            username: "ezio".to_string(),
            level_type: "FLAT".to_string(),
            server_mode: 1,
            dimension: -1,
            difficulty: 3,
            unused_0: 0,
            max_players: 20,
        }),
        Packet::Handshake(HandshakePayload {
            data: "ezio;localhost:25565".to_string(),
        }),
        Packet::ChatMessage(ChatMessagePayload {
            message: "hello \u{1d11e} world".to_string(),
        }),
        Packet::TimeUpdate(TimeUpdatePayload { time: -6000 }),
        Packet::EntityEquipment(EntityEquipmentPayload {
            entity_id: 7,
            slot: 1,
            item_id: -1,
            damage: 2,
        }),
        Packet::SpawnPosition(SpawnPositionPayload { x: -8, y: 65, z: 8 }),
        Packet::PlayerPositionAndLook(PlayerPositionAndLookPayload {
            x_bits: (-1.5f64).to_bits(),
            stance_y_0_bits: (66.62f64).to_bits(),
            stance_y_1_bits: (65.0f64).to_bits(),
            z_bits: (0.25f64).to_bits(),
            yaw_bits: (90.0f32).to_bits(),
            pitch_bits: (-12.5f32).to_bits(),
            on_ground: 1,
        }),
        Packet::ServerListPing(ServerListPingPayload {}),
        Packet::DisconnectKick(DisconnectKickPayload {
            reason: "bye\u{a7}0".to_string(),
        }),
    ]
}

#[test]
fn round_trip_every_packet_kind() {
    for packet in sample_packets() {
        let data = packet.to_bytes().unwrap();
        let decoded = Packet::from_bytes(data.as_slice()).unwrap();
        assert_eq!(decoded, packet);
    }
}

#[test]
fn string_round_trip_including_surrogate_pairs() {
    let samples = vec![
        "".to_string(),
        "test".to_string(),
        "\u{a7}4".to_string(),
        "G clef: \u{1d11e}".to_string(),
        "\u{1f600}\u{1f600}".to_string(),
        "mixed \u{0000} nul and \u{10fffd} high".to_string(),
    ];
    for s in samples {
        let mut buffer: Vec<u8> = Vec::new();
        put_string(&mut buffer, s.as_str()).unwrap();
        let mut cursor = Cursor::new(buffer.as_slice());
        let back = read_string(&mut cursor).unwrap();
        assert_eq!(back, s);
    }
}

#[test]
fn put_string_counts_code_units_not_characters() {
    // One character outside the Basic Multilingual Plane takes two code
    // units, so the length prefix is 2 and a surrogate pair follows.
    let mut buffer: Vec<u8> = Vec::new();
    put_string(&mut buffer, "\u{1d11e}").unwrap();
    assert_eq!(buffer.as_slice(), &[0x00, 0x02, 0xD8, 0x34, 0xDD, 0x1E]);

    assert_eq!(utf16_count("a\u{1d11e}").unwrap(), 3);
}

#[test]
fn unknown_identifier_is_rejected() {
    let data: &[u8] = &[0x99, 0x00, 0x00];
    assert_eq!(
        Packet::from_bytes(data),
        Err(CodecError::UnknownIdentifier(0x99))
    );

    let data: &[u8] = &[0x07];
    assert_eq!(
        Packet::from_bytes(data),
        Err(CodecError::UnknownIdentifier(0x07))
    );
}

#[test]
fn empty_buffer_is_truncated() {
    let data: &[u8] = &[];
    assert_eq!(Packet::from_bytes(data), Err(CodecError::TruncatedMessage));
}

#[test]
fn every_strict_prefix_is_truncated() {
    for packet in sample_packets() {
        let data = packet.to_bytes().unwrap();
        for n in 0..data.len() {
            let prefix = &data[..n];
            assert_eq!(
                Packet::from_bytes(prefix),
                Err(CodecError::TruncatedMessage),
                "prefix of {} bytes",
                n
            );
        }
    }
}

#[test]
fn trailing_bytes_are_tolerated() {
    for packet in sample_packets() {
        let mut data = packet.to_bytes().unwrap();
        let exact = Packet::from_bytes(data.as_slice()).unwrap();
        data.push(0xAB);
        data.push(0x00);
        data.push(0xFF);
        let padded = Packet::from_bytes(data.as_slice()).unwrap();
        assert_eq!(padded, exact);
    }
}

#[test]
fn lone_surrogates_are_malformed() {
    // A high surrogate with nothing after it.
    let data: &[u8] = &[0xFF, 0x00, 0x01, 0xD8, 0x00];
    assert_eq!(Packet::from_bytes(data), Err(CodecError::MalformedText));

    // A low surrogate in first position.
    let data: &[u8] = &[0xFF, 0x00, 0x01, 0xDC, 0x00];
    assert_eq!(Packet::from_bytes(data), Err(CodecError::MalformedText));

    // A high surrogate followed by a non-surrogate.
    let data: &[u8] = &[0x02, 0x00, 0x02, 0xD8, 0x34, 0x00, 0x41];
    assert_eq!(Packet::from_bytes(data), Err(CodecError::MalformedText));
}

#[test]
fn oversized_string_cannot_be_encoded() {
    let long = "a".repeat(0x10000);
    assert_eq!(utf16_count(long.as_str()), Err(CodecError::OversizedText));

    let packet = Packet::ChatMessage(ChatMessagePayload { message: long });
    assert_eq!(packet.to_bytes(), Err(CodecError::OversizedText));

    // The largest string that still fits.
    let widest = "b".repeat(0xFFFF);
    assert_eq!(utf16_count(widest.as_str()), Ok(0xFFFF));
    let packet = Packet::DisconnectKick(DisconnectKickPayload { reason: widest });
    let data = packet.to_bytes().unwrap();
    assert_eq!(data.len(), 1 + 2 + 2 * 0xFFFF);
    assert_eq!(Packet::from_bytes(data.as_slice()).unwrap(), packet);
}

#[test]
fn string_read_consumes_exactly_its_bytes() {
    // Two strings back to back through one cursor.
    let mut buffer: Vec<u8> = Vec::new();
    put_string(&mut buffer, "ab").unwrap();
    put_string(&mut buffer, "\u{1d11e}").unwrap();
    let mut cursor = Cursor::new(buffer.as_slice());
    assert_eq!(read_string(&mut cursor).unwrap(), "ab");
    assert_eq!(read_string(&mut cursor).unwrap(), "\u{1d11e}");
    assert_eq!(cursor.remaining(), 0);
}

#[test]
fn error_descriptions_are_distinct() {
    let errors = [
        CodecError::UnknownIdentifier(0x99),
        CodecError::MalformedText,
        CodecError::TruncatedMessage,
        CodecError::OversizedText,
    ];
    for (i, a) in errors.iter().enumerate() {
        assert!(!a.describe().is_empty());
        for (j, b) in errors.iter().enumerate() {
            if i != j {
                assert_ne!(a.describe(), b.describe());
            }
        }
    }
}

#[test]
fn server_replies_to_ping_with_status() {
    let replies = replies_for(&Packet::ServerListPing(ServerListPingPayload {}));
    assert_eq!(replies.len(), 1);
    assert_eq!(
        replies[0],
        Packet::DisconnectKick(DisconnectKickPayload {
            reason: "A Minecraft Server\u{a7}0\u{a7}20".to_string()
        })
    );
}

#[test]
fn server_replies_to_login_with_spawn_sequence() {
    let login = Packet::LoginRequest(LoginRequestPayload {
        id: 29,
        username: "ezio".to_string(),
        level_type: "".to_string(),
        server_mode: 0,
        dimension: 0,
        difficulty: 0,
        unused_0: 0,
        max_players: 0,
    });
    let replies = replies_for(&login);
    assert_eq!(replies.len(), 3);
    assert!(matches!(replies[0], Packet::LoginRequest(_)));
    assert_eq!(
        replies[1],
        Packet::SpawnPosition(SpawnPositionPayload { x: 8, y: 65, z: 8 })
    );
    assert_eq!(
        replies[2],
        Packet::PlayerPositionAndLook(PlayerPositionAndLookPayload {
            x_bits: (8.5f64).to_bits(),
            stance_y_0_bits: (66.62f64).to_bits(),
            stance_y_1_bits: (65.0f64).to_bits(),
            z_bits: (8.5f64).to_bits(),
            yaw_bits: (-180.0f32).to_bits(),
            pitch_bits: (0.0f32).to_bits(),
            on_ground: 0,
        })
    );

    // Packets that the handler does not answer.
    assert!(replies_for(&Packet::TimeUpdate(TimeUpdatePayload { time: 0 })).is_empty());
}
