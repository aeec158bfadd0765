//! The test suite of the packet codec: string sub-codec bytes, and decoding
//! and encoding of every packet kind.

use protocol::packet::{
    ChatMessagePayload, DisconnectKickPayload, EntityEquipmentPayload, HandshakePayload,
    KeepAlivePayload, LoginRequestPayload, Packet, PlayerPositionAndLookPayload,
    ServerListPingPayload, SpawnPositionPayload, TimeUpdatePayload,
};
use protocol::text::{put_string, read_string};
use protocol::wire::Cursor;

#[test]
fn put_string_empty() {
    let mut buffer: Vec<u8> = Vec::new();
    put_string(&mut buffer, "").unwrap();

    assert_eq!(buffer.as_slice(), &[0x00, 0x00]);
}

#[test]
fn put_string_test() {
    let mut buffer: Vec<u8> = Vec::new();
    put_string(&mut buffer, "test").unwrap();

    assert_eq!(
        buffer.as_slice(),
        &[0x00, 0x04, 0x00, 0x74, 0x00, 0x65, 0x00, 0x73, 0x00, 0x74]
    );
}

#[test]
fn read_string_test() {
    let data: &[u8] = &[0x00u8, 0x04, 0x00, 0x74, 0x00, 0x65, 0x00, 0x73, 0x00, 0x74];
    let mut cursor = Cursor::new(data);
    let s = read_string(&mut cursor).unwrap();

    assert_eq!(s, "test");
}

#[test]
fn decode_trailing_zeroes_without_payload() {
    let data: &[u8] = &[0xFE, 0x00, 0x00, 0x00];

    let packet = Packet::from_bytes(data).unwrap();

    assert_eq!(packet, Packet::ServerListPing(ServerListPingPayload {}));
}

#[test]
fn decode_trailing_zeroes_with_payload() {
    let data: &[u8] = &[0x00, 0x00, 0x00, 0x00, 0x11, 0x00, 0x00, 0x00, 0x00];

    let packet = Packet::from_bytes(data).unwrap();

    assert_eq!(
        packet,
        Packet::KeepAlive(KeepAlivePayload { keep_alive_id: 17 })
    );
}

#[test]
fn decode_keep_alive_packet() {
    let data: &[u8] = &[0x00, 0x00, 0x00, 0x00, 0x11];

    let packet = Packet::from_bytes(data).unwrap();

    assert_eq!(
        packet,
        Packet::KeepAlive(KeepAlivePayload { keep_alive_id: 17 })
    );
}

#[test]
fn encode_keep_alive_packet() {
    let packet = Packet::KeepAlive(KeepAlivePayload { keep_alive_id: 17 });

    let data = packet.to_bytes().unwrap();

    assert_eq!(data, &[0x00, 0x00, 0x00, 0x00, 0x11]);
}

#[test]
fn decode_login_request_packet() {
    let data: &[u8] = &[
        0x01, 0x00, 0x00, 0x00, 0x1D, 0x00, 0x01, 0x00, 0x65, 0x00, 0x00, 0x00, 0x00, 0x00, 0x00,
        0x00, 0x00, 0x00, 0x00, 0x00, 0x00, 0x00,
    ];

    let packet = Packet::from_bytes(data).unwrap();

    assert_eq!(
        packet,
        Packet::LoginRequest(LoginRequestPayload {
            id: 29,
            username: "e".to_string(),
            level_type: "".to_string(),
            server_mode: 0,
            dimension: 0,
            difficulty: 0,
            unused_0: 0,
            max_players: 0
        })
    )
}

#[test]
fn encode_login_request_packet() {
    let packet = Packet::LoginRequest(LoginRequestPayload {
        id: 1234,
        username: "".to_string(),
        level_type: "FLAT".to_string(),
        server_mode: 1,
        dimension: 0,
        difficulty: 0,
        unused_0: 0,
        max_players: 5,
    });

    let data = packet.to_bytes().unwrap();

    assert_eq!(
        data,
        &[
            0x01, 0x00, 0x00, 0x04, 0xD2, 0x00, 0x00, 0x00, 0x04, 0x00, 0x46, 0x00, 0x4C, 0x00,
            0x41, 0x00, 0x54, 0x00, 0x00, 0x00, 0x01, 0x00, 0x00, 0x00, 0x00, 0x00, 0x00, 0x05,
        ]
    )
}

#[test]
fn decode_handshake_packet() {
    let data: &[u8] = &[0x02, 0x00, 0x03, 0x00, 0x65, 0x00, 0x3B, 0x00, 0x31];

    let packet = Packet::from_bytes(data).unwrap();

    assert_eq!(
        packet,
        Packet::Handshake(HandshakePayload {
            data: "e;1".to_string()
        })
    )
}

#[test]
fn encode_handshake_packet() {
    let packet = Packet::Handshake(HandshakePayload {
        data: "e;1".to_string(),
    });

    let data = packet.to_bytes().unwrap();

    assert_eq!(data, &[0x02, 0x00, 0x03, 0x00, 0x65, 0x00, 0x3B, 0x00, 0x31]);
}

#[test]
fn decode_chat_message_packet() {
    let data: &[u8] = &[0x03, 0x00, 0x02, 0x00, b'h', 0x00, b'i'];

    let packet = Packet::from_bytes(data).unwrap();

    assert_eq!(
        packet,
        Packet::ChatMessage(ChatMessagePayload {
            message: "hi".to_string()
        })
    );
}

#[test]
fn encode_chat_message_packet() {
    let packet = Packet::ChatMessage(ChatMessagePayload {
        message: "hi".to_string(),
    });

    let data = packet.to_bytes().unwrap();

    assert_eq!(data, &[0x03, 0x00, 0x02, 0x00, b'h', 0x00, b'i']);
}

#[test]
fn decode_time_update_packet() {
    let data: &[u8] = &[0x04, 0x00, 0x00, 0x00, 0x00, 0x00, 0x00, 0x00, 0x10];

    let packet = Packet::from_bytes(data).unwrap();

    assert_eq!(packet, Packet::TimeUpdate(TimeUpdatePayload { time: 16 }));
}

#[test]
fn encode_time_update_packet() {
    let packet = Packet::TimeUpdate(TimeUpdatePayload { time: 16 });

    let data = packet.to_bytes().unwrap();

    assert_eq!(data, &[0x04, 0x00, 0x00, 0x00, 0x00, 0x00, 0x00, 0x00, 0x10]);
}

#[test]
fn decode_entity_equipment_packet() {
    let data: &[u8] = &[
        0x05, 0x00, 0x00, 0x00, 0x20, 0x00, 0x04, 0x00, 0x40, 0x00, 0x00,
    ];

    let packet = Packet::from_bytes(data).unwrap();

    assert_eq!(
        packet,
        Packet::EntityEquipment(EntityEquipmentPayload {
            entity_id: 32,
            slot: 4,
            item_id: 64,
            damage: 0
        })
    );
}

#[test]
fn encode_entity_equipment_packet() {
    let packet = Packet::EntityEquipment(EntityEquipmentPayload {
        entity_id: 32,
        slot: 4,
        item_id: 64,
        damage: 0,
    });

    let data = packet.to_bytes().unwrap();

    assert_eq!(
        data,
        &[0x05, 0x00, 0x00, 0x00, 0x20, 0x00, 0x04, 0x00, 0x40, 0x00, 0x00]
    )
}

#[test]
fn decode_spawn_position_packet() {
    let data: &[u8] = &[
        0x06, 0x00, 0x00, 0x00, 0x10, 0x00, 0x00, 0x00, 0x20, 0x00, 0x00, 0x00, 0x30,
    ];

    let packet = Packet::from_bytes(data).unwrap();

    assert_eq!(
        packet,
        Packet::SpawnPosition(SpawnPositionPayload {
            x: 16,
            y: 32,
            z: 48,
        })
    );
}

#[test]
fn encode_spawn_position_packet() {
    let packet = Packet::SpawnPosition(SpawnPositionPayload {
        x: 16,
        y: 32,
        z: 48,
    });

    let data = packet.to_bytes().unwrap();

    assert_eq!(
        data,
        &[0x06, 0x00, 0x00, 0x00, 0x10, 0x00, 0x00, 0x00, 0x20, 0x00, 0x00, 0x00, 0x30]
    )
}

#[test]
fn decode_player_position_and_look_packet() {
    let data: &[u8] = &[
        0x0D, 64, 33, 0, 0, 0, 0, 0, 0, 64, 80, 64, 0, 0, 0, 0, 0, 64, 80, 167, 174, 20, 128, 0,
        0, 64, 33, 0, 0, 0, 0, 0, 0, 195, 52, 0, 0, 0, 0, 0, 0, 0,
    ];

    let packet = Packet::from_bytes(data).unwrap();

    assert_eq!(
        packet,
        Packet::PlayerPositionAndLook(PlayerPositionAndLookPayload {
            x_bits: (8.5f64).to_bits(),
            stance_y_0_bits: (65.0f64).to_bits(),
            stance_y_1_bits: (66.62000000476837f64).to_bits(),
            z_bits: (8.5f64).to_bits(),
            yaw_bits: (-180.0f32).to_bits(),
            pitch_bits: (0.0f32).to_bits(),
            on_ground: 0
        })
    );

    println!("{:?}", packet)
}

#[test]
fn encode_player_position_and_look_packet() {
    let packet = Packet::PlayerPositionAndLook(PlayerPositionAndLookPayload {
        x_bits: (8.5f64).to_bits(),
        stance_y_0_bits: (65.0f64).to_bits(),
        stance_y_1_bits: (66.62000000476837f64).to_bits(),
        z_bits: (8.5f64).to_bits(),
        yaw_bits: (-180.0f32).to_bits(),
        pitch_bits: (0.0f32).to_bits(),
        on_ground: 0,
    });

    let data = packet.to_bytes().unwrap();

    assert_eq!(
        data,
        &[
            0x0D, 0x40, 0x21, 0x00, 0x00, 0x00, 0x00, 0x00, 0x00, 0x40, 0x50, 0x40, 0x00, 0x00,
            0x00, 0x00, 0x00, 0x40, 0x50, 0xA7, 0xAE, 0x14, 0x80, 0x00, 0x00, 0x40, 0x21, 0x00,
            0x00, 0x00, 0x00, 0x00, 0x00, 0xC3, 0x34, 0x00, 0x00, 0x00, 0x00, 0x00, 0x00, 0x00,
        ]
    );
}

#[test]
fn decode_server_list_ping_packet() {
    let data: &[u8] = &[0xFE];

    let packet = Packet::from_bytes(data).unwrap();

    assert_eq!(packet, Packet::ServerListPing(ServerListPingPayload {}));
}

#[test]
fn decode_disconnect_kick_packet() {
    let data: &[u8] = &[0xFF, 0x00, 0x01, 0x00, b'A'];

    let packet = Packet::from_bytes(data).unwrap();

    assert_eq!(
        packet,
        Packet::DisconnectKick(DisconnectKickPayload {
            reason: "A".to_string(),
        })
    );
}

#[test]
fn encode_disconnect_kick_packet() {
    let packet = Packet::DisconnectKick(DisconnectKickPayload {
        reason: "A".to_string(),
    });

    let data = packet.to_bytes().unwrap();

    assert_eq!(data, &[0xFF, 0x00, 0x01, 0x00, b'A'])
}

#[test]
fn encode_disconnect_server_status_packet() {
    let expected_data = &[
        0xFF, 0x00, 0x08, 0x00, 0x45, 0x00, 0x5A, 0x00, 0x49, 0x00, 0x4F, 0x00, 0xA7, 0x00, 0x34,
        0x00, 0xA7, 0x00, 0x34,
    ];

    let packet = Packet::DisconnectKick(DisconnectKickPayload {
        reason: "EZIO\u{a7}4\u{a7}4".to_string(),
    });

    let data = packet.to_bytes().unwrap();

    assert_eq!(data, expected_data)
}
