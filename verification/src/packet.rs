//! The message envelope and its dispatcher: every recognized packet kind, the
//! exact byte layout of each, and the mapping between a raw byte buffer and a
//! typed packet.
//!
//! A packet travels as one identifier byte followed by the fields of its
//! payload, all big-endian, with no overall length field: the format is
//! self-delimiting because every field width is statically known, string
//! lengths included. Bytes left over after a complete packet are tolerated
//! and ignored.

use vstd::prelude::*;

use crate::error::CodecError;
use crate::text::{
    read_string, put_string, spec_take_string, string_fits, string_wire, utf16_count,
};
use crate::wire::{
    be2_bytes, be2_val, be4_bytes, be4_val, be8_bytes, be8_val, i16_from_u16, i32_from_u32,
    i64_from_u64, i8_from_u8, u16_from_i16, u32_from_i32, u64_from_i64, u8_from_i8, put_i16,
    put_i32, put_i64, put_i8, put_u32, put_u64, put_u8, Cursor,
};

verus! {

/// Keep alive packet identifier.
pub const KEEP_ALIVE_PACKET_ID: u8 = 0x00;

/// Login request identifier.
pub const LOGIN_REQUEST_PACKET_ID: u8 = 0x01;

/// Handshake packet identifier.
pub const HANDSHAKE_PACKET_ID: u8 = 0x02;

/// Chat message packet identifier.
pub const CHAT_MESSAGE_PACKET_ID: u8 = 0x03;

/// Time update packet identifier.
pub const TIME_UPDATE_PACKET_ID: u8 = 0x04;

/// Entity equipment packet identifier.
pub const ENTITY_EQUIPMENT_PACKET_ID: u8 = 0x05;

/// Spawn position packet identifier.
pub const SPAWN_POSITION_PACKET_ID: u8 = 0x06;

/// Player position and look packet identifier.
pub const PLAYER_POSITION_AND_LOOK_PACKET_ID: u8 = 0x0D;

/// Server list ping packet identifier.
pub const SERVER_LIST_PING_PACKET_ID: u8 = 0xFE;

/// Disconnect/Kick packet identifier.
pub const DISCONNECT_KICK_PACKET_ID: u8 = 0xFF;

// ---------------------------------------------------------------------------
// Payload records
// ---------------------------------------------------------------------------

/// Payload for `Packet::KeepAlive`.
#[derive(Debug, PartialEq, Eq, Clone, Copy)]
pub struct KeepAlivePayload {
    /// Server-generated random identifier.
    pub keep_alive_id: i32,
}

/// Payload for `Packet::LoginRequest`.
///
/// The wire layout is the same in both directions, but several fields are
/// read differently by direction, as noted on each field.
#[derive(Debug, PartialEq, Eq, Clone)]
pub struct LoginRequestPayload {
    /// Client to server: the protocol version. Server to client: the
    /// player's entity identifier.
    pub id: i32,
    /// Client to server: the player's username. Server to client: unused.
    pub username: String,
    /// Client to server: unused, an empty string. Server to client: the
    /// level type, such as `default` or `FLAT`.
    pub level_type: String,
    /// Server to client: `0` for survival, `1` for creative.
    pub server_mode: i32,
    /// Server to client: `-1` for Nether, `0` for the Overworld, `1` for
    /// the End.
    pub dimension: i32,
    /// Server to client: `0` peaceful, `1` easy, `2` normal, `3` hard.
    pub difficulty: i8,
    /// Unused, always `0` on the wire. Previously a world height.
    pub unused_0: u8,
    /// Server to client: the player-list size drawn by the client.
    pub max_players: u8,
}

/// Payload for `Packet::Handshake`.
#[derive(Debug, PartialEq, Eq, Clone)]
pub struct HandshakePayload {
    /// Client to server: username and host, such as `player;localhost:25565`.
    /// Server to client: a connection hash.
    pub data: String,
}

/// Payload for `Packet::ChatMessage`.
#[derive(Debug, PartialEq, Eq, Clone)]
pub struct ChatMessagePayload {
    /// Content of the message; untrusted input, to be sanitized server-side.
    pub message: String,
}

/// Payload for `Packet::TimeUpdate`.
#[derive(Debug, PartialEq, Eq, Clone, Copy)]
pub struct TimeUpdatePayload {
    /// The world (or region) time in ticks.
    pub time: i64,
}

/// Payload for `Packet::EntityEquipment`.
#[derive(Debug, PartialEq, Eq, Clone, Copy)]
pub struct EntityEquipmentPayload {
    /// Named entity identifier.
    pub entity_id: i32,
    /// Equipment slot: 0 is held, 1 to 4 are armor slots.
    pub slot: i16,
    /// Equipped item, -1 for an empty slot.
    pub item_id: i16,
    /// Undocumented.
    pub damage: i16,
}

/// Payload for `Packet::SpawnPosition`.
#[derive(Debug, PartialEq, Eq, Clone, Copy)]
pub struct SpawnPositionPayload {
    /// Spawn X in block coordinates.
    pub x: i32,
    /// Spawn Y in block coordinates.
    pub y: i32,
    /// Spawn Z in block coordinates.
    pub z: i32,
}

/// Payload for `Packet::PlayerPositionAndLook`.
///
/// The position and rotation fields travel as IEEE 754 values; this record
/// holds their exact bit patterns, so that encoding and decoding are
/// byte-faithful. The 64-bit fields carry double precision, the 32-bit ones
/// single precision.
#[derive(Debug, PartialEq, Eq, Clone, Copy)]
pub struct PlayerPositionAndLookPayload {
    /// Bit pattern of the absolute X position (double precision).
    pub x_bits: u64,
    /// Client to server: the absolute Y position. Server to client: the
    /// bounding-box stance offset. Bit pattern, double precision.
    pub stance_y_0_bits: u64,
    /// Client to server: the bounding-box stance offset. Server to client:
    /// the absolute Y position. Bit pattern, double precision.
    pub stance_y_1_bits: u64,
    /// Bit pattern of the absolute Z position (double precision).
    pub z_bits: u64,
    /// Bit pattern of the rotation around the X axis (single precision).
    pub yaw_bits: u32,
    /// Bit pattern of the rotation around the Y axis (single precision).
    pub pitch_bits: u32,
    /// Whether the client is on the ground, `0` or `1`.
    pub on_ground: u8,
}

/// Payload for `Packet::ServerListPing`: no fields at all.
#[derive(Debug, PartialEq, Eq, Clone, Copy)]
pub struct ServerListPingPayload;

/// Payload for `Packet::DisconnectKick`.
#[derive(Debug, PartialEq, Eq, Clone)]
pub struct DisconnectKickPayload {
    /// Reason displayed to the client when the connection terminates. As a
    /// pre-login server-status reply it carries several fields separated by
    /// a control character.
    pub reason: String,
}

/// Represents a single packet type and the payload contained within it.
#[derive(Debug, PartialEq, Eq, Clone)]
pub enum Packet {
    /// Two-way keep alive packet.
    KeepAlive(KeepAlivePayload),
    /// Two-way login request packet.
    LoginRequest(LoginRequestPayload),
    /// Two-way handshake packet.
    Handshake(HandshakePayload),
    /// Two-way chat message packet.
    ChatMessage(ChatMessagePayload),
    /// Server to client time update packet.
    TimeUpdate(TimeUpdatePayload),
    /// Server to client entity equipment packet.
    EntityEquipment(EntityEquipmentPayload),
    /// Server to client spawn position packet.
    SpawnPosition(SpawnPositionPayload),
    /// Two-way player position and look packet.
    PlayerPositionAndLook(PlayerPositionAndLookPayload),
    /// Client to server server-list ping packet.
    ServerListPing(ServerListPingPayload),
    /// Two-way disconnect/kick packet.
    DisconnectKick(DisconnectKickPayload),
}

// ---------------------------------------------------------------------------
// Mathematical views of the packets
// ---------------------------------------------------------------------------

/// The abstract value of a login request: its strings as character sequences.
pub struct LoginRequestView {
    /// See `LoginRequestPayload::id`.
    pub id: i32,
    /// See `LoginRequestPayload::username`.
    pub username: Seq<char>,
    /// See `LoginRequestPayload::level_type`.
    pub level_type: Seq<char>,
    /// See `LoginRequestPayload::server_mode`.
    pub server_mode: i32,
    /// See `LoginRequestPayload::dimension`.
    pub dimension: i32,
    /// See `LoginRequestPayload::difficulty`.
    pub difficulty: i8,
    /// See `LoginRequestPayload::unused_0`.
    pub unused_0: u8,
    /// See `LoginRequestPayload::max_players`.
    pub max_players: u8,
}

/// The abstract value of a handshake.
pub struct HandshakeView {
    /// See `HandshakePayload::data`.
    pub data: Seq<char>,
}

/// The abstract value of a chat message.
pub struct ChatMessageView {
    /// See `ChatMessagePayload::message`.
    pub message: Seq<char>,
}

/// The abstract value of a disconnect/kick.
pub struct DisconnectKickView {
    /// See `DisconnectKickPayload::reason`.
    pub reason: Seq<char>,
}

impl View for LoginRequestPayload {
    type V = LoginRequestView;

    open spec fn view(&self) -> LoginRequestView {
        LoginRequestView {
            id: self.id,
            username: self.username@,
            level_type: self.level_type@,
            server_mode: self.server_mode,
            dimension: self.dimension,
            difficulty: self.difficulty,
            unused_0: self.unused_0,
            max_players: self.max_players,
        }
    }
}

impl View for HandshakePayload {
    type V = HandshakeView;

    open spec fn view(&self) -> HandshakeView {
        HandshakeView { data: self.data@ }
    }
}

impl View for ChatMessagePayload {
    type V = ChatMessageView;

    open spec fn view(&self) -> ChatMessageView {
        ChatMessageView { message: self.message@ }
    }
}

impl View for DisconnectKickPayload {
    type V = DisconnectKickView;

    open spec fn view(&self) -> DisconnectKickView {
        DisconnectKickView { reason: self.reason@ }
    }
}

/// The abstract value of a packet: one case per kind, with the payloads that
/// carry strings replaced by their views.
pub enum PacketView {
    /// View of `Packet::KeepAlive`.
    KeepAlive(KeepAlivePayload),
    /// View of `Packet::LoginRequest`.
    LoginRequest(LoginRequestView),
    /// View of `Packet::Handshake`.
    Handshake(HandshakeView),
    /// View of `Packet::ChatMessage`.
    ChatMessage(ChatMessageView),
    /// View of `Packet::TimeUpdate`.
    TimeUpdate(TimeUpdatePayload),
    /// View of `Packet::EntityEquipment`.
    EntityEquipment(EntityEquipmentPayload),
    /// View of `Packet::SpawnPosition`.
    SpawnPosition(SpawnPositionPayload),
    /// View of `Packet::PlayerPositionAndLook`.
    PlayerPositionAndLook(PlayerPositionAndLookPayload),
    /// View of `Packet::ServerListPing`.
    ServerListPing(ServerListPingPayload),
    /// View of `Packet::DisconnectKick`.
    DisconnectKick(DisconnectKickView),
}

impl View for Packet {
    type V = PacketView;

    open spec fn view(&self) -> PacketView {
        match self {
            Packet::KeepAlive(p) => PacketView::KeepAlive(*p),
            Packet::LoginRequest(p) => PacketView::LoginRequest(p@),
            Packet::Handshake(p) => PacketView::Handshake(p@),
            Packet::ChatMessage(p) => PacketView::ChatMessage(p@),
            Packet::TimeUpdate(p) => PacketView::TimeUpdate(*p),
            Packet::EntityEquipment(p) => PacketView::EntityEquipment(*p),
            Packet::SpawnPosition(p) => PacketView::SpawnPosition(*p),
            Packet::PlayerPositionAndLook(p) => PacketView::PlayerPositionAndLook(*p),
            Packet::ServerListPing(p) => PacketView::ServerListPing(*p),
            Packet::DisconnectKick(p) => PacketView::DisconnectKick(p@),
        }
    }
}

// ---------------------------------------------------------------------------
// The wire form of each payload
// ---------------------------------------------------------------------------

/// Wire form of a keep alive payload.
pub open spec fn wire_keep_alive(p: KeepAlivePayload) -> Seq<u8> {
    be4_bytes(u32_from_i32(p.keep_alive_id))
}

/// Wire form of a login request payload.
pub open spec fn wire_login_request(v: LoginRequestView) -> Seq<u8> {
    be4_bytes(u32_from_i32(v.id)) + string_wire(v.username) + string_wire(v.level_type)
        + be4_bytes(u32_from_i32(v.server_mode)) + be4_bytes(u32_from_i32(v.dimension)) + seq![
        u8_from_i8(v.difficulty),
        v.unused_0,
        v.max_players,
    ]
}

/// Wire form of a handshake payload.
pub open spec fn wire_handshake(v: HandshakeView) -> Seq<u8> {
    string_wire(v.data)
}

/// Wire form of a chat message payload.
pub open spec fn wire_chat_message(v: ChatMessageView) -> Seq<u8> {
    string_wire(v.message)
}

/// Wire form of a time update payload.
pub open spec fn wire_time_update(p: TimeUpdatePayload) -> Seq<u8> {
    be8_bytes(u64_from_i64(p.time))
}

/// Wire form of an entity equipment payload.
pub open spec fn wire_entity_equipment(p: EntityEquipmentPayload) -> Seq<u8> {
    be4_bytes(u32_from_i32(p.entity_id)) + be2_bytes(u16_from_i16(p.slot)) + be2_bytes(
        u16_from_i16(p.item_id),
    ) + be2_bytes(u16_from_i16(p.damage))
}

/// Wire form of a spawn position payload.
pub open spec fn wire_spawn_position(p: SpawnPositionPayload) -> Seq<u8> {
    be4_bytes(u32_from_i32(p.x)) + be4_bytes(u32_from_i32(p.y)) + be4_bytes(u32_from_i32(p.z))
}

/// Wire form of a player position and look payload.
pub open spec fn wire_position_and_look(p: PlayerPositionAndLookPayload) -> Seq<u8> {
    be8_bytes(p.x_bits) + be8_bytes(p.stance_y_0_bits) + be8_bytes(p.stance_y_1_bits) + be8_bytes(
        p.z_bits,
    ) + be4_bytes(p.yaw_bits) + be4_bytes(p.pitch_bits) + seq![p.on_ground]
}

/// Wire form of a disconnect/kick payload.
pub open spec fn wire_disconnect_kick(v: DisconnectKickView) -> Seq<u8> {
    string_wire(v.reason)
}

/// The identifier byte of a packet kind.
pub open spec fn packet_id_of(m: PacketView) -> u8 {
    match m {
        PacketView::KeepAlive(_) => KEEP_ALIVE_PACKET_ID,
        PacketView::LoginRequest(_) => LOGIN_REQUEST_PACKET_ID,
        PacketView::Handshake(_) => HANDSHAKE_PACKET_ID,
        PacketView::ChatMessage(_) => CHAT_MESSAGE_PACKET_ID,
        PacketView::TimeUpdate(_) => TIME_UPDATE_PACKET_ID,
        PacketView::EntityEquipment(_) => ENTITY_EQUIPMENT_PACKET_ID,
        PacketView::SpawnPosition(_) => SPAWN_POSITION_PACKET_ID,
        PacketView::PlayerPositionAndLook(_) => PLAYER_POSITION_AND_LOOK_PACKET_ID,
        PacketView::ServerListPing(_) => SERVER_LIST_PING_PACKET_ID,
        PacketView::DisconnectKick(_) => DISCONNECT_KICK_PACKET_ID,
    }
}

/// The wire form of a packet's payload, without the identifier byte.
pub open spec fn payload_wire(m: PacketView) -> Seq<u8> {
    match m {
        PacketView::KeepAlive(p) => wire_keep_alive(p),
        PacketView::LoginRequest(v) => wire_login_request(v),
        PacketView::Handshake(v) => wire_handshake(v),
        PacketView::ChatMessage(v) => wire_chat_message(v),
        PacketView::TimeUpdate(p) => wire_time_update(p),
        PacketView::EntityEquipment(p) => wire_entity_equipment(p),
        PacketView::SpawnPosition(p) => wire_spawn_position(p),
        PacketView::PlayerPositionAndLook(p) => wire_position_and_look(p),
        PacketView::ServerListPing(_) => Seq::empty(),
        PacketView::DisconnectKick(v) => wire_disconnect_kick(v),
    }
}

/// The complete wire form of a packet: identifier byte, then payload.
pub open spec fn message_wire(m: PacketView) -> Seq<u8> {
    seq![packet_id_of(m)] + payload_wire(m)
}

/// Whether a packet can be encoded at all: every string field must fit the
/// 16-bit code-unit count of the string wire format.
pub open spec fn message_fits(m: PacketView) -> bool {
    match m {
        PacketView::LoginRequest(v) => string_fits(v.username) && string_fits(v.level_type),
        PacketView::Handshake(v) => string_fits(v.data),
        PacketView::ChatMessage(v) => string_fits(v.message),
        PacketView::DisconnectKick(v) => string_fits(v.reason),
        _ => true,
    }
}

// ---------------------------------------------------------------------------
// The specification-level parser
// ---------------------------------------------------------------------------

/// Parses a keep alive payload from the front of `b`.
pub open spec fn spec_parse_keep_alive(b: Seq<u8>) -> Result<(KeepAlivePayload, int), CodecError> {
    if b.len() < 4 {
        Err(CodecError::TruncatedMessage)
    } else {
        Ok((KeepAlivePayload { keep_alive_id: i32_from_u32(be4_val(b.take(4))) }, 4))
    }
}

/// Parses a login request payload from the front of `b`.
pub open spec fn spec_parse_login_request(b: Seq<u8>) -> Result<
    (LoginRequestView, int),
    CodecError,
> {
    if b.len() < 4 {
        Err(CodecError::TruncatedMessage)
    } else {
        match spec_take_string(b.skip(4)) {
            Err(e) => Err(e),
            Ok((username, c1)) => match spec_take_string(b.skip(4 + c1)) {
                Err(e) => Err(e),
                Ok((level_type, c2)) => {
                    let tail = b.skip(4 + c1 + c2);
                    if tail.len() < 11 {
                        Err(CodecError::TruncatedMessage)
                    } else {
                        Ok(
                            (
                                LoginRequestView {
                                    id: i32_from_u32(be4_val(b.take(4))),
                                    username: username,
                                    level_type: level_type,
                                    server_mode: i32_from_u32(be4_val(tail.take(4))),
                                    dimension: i32_from_u32(be4_val(tail.subrange(4, 8))),
                                    difficulty: i8_from_u8(tail[8]),
                                    unused_0: tail[9],
                                    max_players: tail[10],
                                },
                                4 + c1 + c2 + 11,
                            ),
                        )
                    }
                },
            },
        }
    }
}

/// Parses a handshake payload from the front of `b`.
pub open spec fn spec_parse_handshake(b: Seq<u8>) -> Result<(HandshakeView, int), CodecError> {
    match spec_take_string(b) {
        Err(e) => Err(e),
        Ok((data, used)) => Ok((HandshakeView { data: data }, used)),
    }
}

/// Parses a chat message payload from the front of `b`.
pub open spec fn spec_parse_chat_message(b: Seq<u8>) -> Result<(ChatMessageView, int), CodecError> {
    match spec_take_string(b) {
        Err(e) => Err(e),
        Ok((message, used)) => Ok((ChatMessageView { message: message }, used)),
    }
}

/// Parses a time update payload from the front of `b`.
pub open spec fn spec_parse_time_update(b: Seq<u8>) -> Result<(TimeUpdatePayload, int), CodecError> {
    if b.len() < 8 {
        Err(CodecError::TruncatedMessage)
    } else {
        Ok((TimeUpdatePayload { time: i64_from_u64(be8_val(b.take(8))) }, 8))
    }
}

/// Parses an entity equipment payload from the front of `b`.
pub open spec fn spec_parse_entity_equipment(b: Seq<u8>) -> Result<
    (EntityEquipmentPayload, int),
    CodecError,
> {
    if b.len() < 10 {
        Err(CodecError::TruncatedMessage)
    } else {
        Ok(
            (
                EntityEquipmentPayload {
                    entity_id: i32_from_u32(be4_val(b.take(4))),
                    slot: i16_from_u16(be2_val(b.subrange(4, 6))),
                    item_id: i16_from_u16(be2_val(b.subrange(6, 8))),
                    damage: i16_from_u16(be2_val(b.subrange(8, 10))),
                },
                10,
            ),
        )
    }
}

/// Parses a spawn position payload from the front of `b`.
pub open spec fn spec_parse_spawn_position(b: Seq<u8>) -> Result<
    (SpawnPositionPayload, int),
    CodecError,
> {
    if b.len() < 12 {
        Err(CodecError::TruncatedMessage)
    } else {
        Ok(
            (
                SpawnPositionPayload {
                    x: i32_from_u32(be4_val(b.take(4))),
                    y: i32_from_u32(be4_val(b.subrange(4, 8))),
                    z: i32_from_u32(be4_val(b.subrange(8, 12))),
                },
                12,
            ),
        )
    }
}

/// Parses a player position and look payload from the front of `b`.
pub open spec fn spec_parse_position_and_look(b: Seq<u8>) -> Result<
    (PlayerPositionAndLookPayload, int),
    CodecError,
> {
    if b.len() < 41 {
        Err(CodecError::TruncatedMessage)
    } else {
        Ok(
            (
                PlayerPositionAndLookPayload {
                    x_bits: be8_val(b.take(8)),
                    stance_y_0_bits: be8_val(b.subrange(8, 16)),
                    stance_y_1_bits: be8_val(b.subrange(16, 24)),
                    z_bits: be8_val(b.subrange(24, 32)),
                    yaw_bits: be4_val(b.subrange(32, 36)),
                    pitch_bits: be4_val(b.subrange(36, 40)),
                    on_ground: b[40],
                },
                41,
            ),
        )
    }
}

/// Parses a disconnect/kick payload from the front of `b`.
pub open spec fn spec_parse_disconnect_kick(b: Seq<u8>) -> Result<
    (DisconnectKickView, int),
    CodecError,
> {
    match spec_take_string(b) {
        Err(e) => Err(e),
        Ok((reason, used)) => Ok((DisconnectKickView { reason: reason }, used)),
    }
}

/// Whether a byte is a recognized packet identifier.
pub open spec fn is_known_id(id: u8) -> bool {
    ||| id == KEEP_ALIVE_PACKET_ID
    ||| id == LOGIN_REQUEST_PACKET_ID
    ||| id == HANDSHAKE_PACKET_ID
    ||| id == CHAT_MESSAGE_PACKET_ID
    ||| id == TIME_UPDATE_PACKET_ID
    ||| id == ENTITY_EQUIPMENT_PACKET_ID
    ||| id == SPAWN_POSITION_PACKET_ID
    ||| id == PLAYER_POSITION_AND_LOOK_PACKET_ID
    ||| id == SERVER_LIST_PING_PACKET_ID
    ||| id == DISCONNECT_KICK_PACKET_ID
}

/// Parses one whole packet from `b`: the identifier byte, then the matching
/// payload. Bytes after the payload are ignored.
pub open spec fn spec_parse_packet(b: Seq<u8>) -> Result<PacketView, CodecError> {
    if b.len() == 0 {
        Err(CodecError::TruncatedMessage)
    } else {
        let id = b[0];
        let rest = b.skip(1);
        if id == KEEP_ALIVE_PACKET_ID {
            match spec_parse_keep_alive(rest) {
                Ok((p, _)) => Ok(PacketView::KeepAlive(p)),
                Err(e) => Err(e),
            }
        } else if id == LOGIN_REQUEST_PACKET_ID {
            match spec_parse_login_request(rest) {
                Ok((v, _)) => Ok(PacketView::LoginRequest(v)),
                Err(e) => Err(e),
            }
        } else if id == HANDSHAKE_PACKET_ID {
            match spec_parse_handshake(rest) {
                Ok((v, _)) => Ok(PacketView::Handshake(v)),
                Err(e) => Err(e),
            }
        } else if id == CHAT_MESSAGE_PACKET_ID {
            match spec_parse_chat_message(rest) {
                Ok((v, _)) => Ok(PacketView::ChatMessage(v)),
                Err(e) => Err(e),
            }
        } else if id == TIME_UPDATE_PACKET_ID {
            match spec_parse_time_update(rest) {
                Ok((p, _)) => Ok(PacketView::TimeUpdate(p)),
                Err(e) => Err(e),
            }
        } else if id == ENTITY_EQUIPMENT_PACKET_ID {
            match spec_parse_entity_equipment(rest) {
                Ok((p, _)) => Ok(PacketView::EntityEquipment(p)),
                Err(e) => Err(e),
            }
        } else if id == SPAWN_POSITION_PACKET_ID {
            match spec_parse_spawn_position(rest) {
                Ok((p, _)) => Ok(PacketView::SpawnPosition(p)),
                Err(e) => Err(e),
            }
        } else if id == PLAYER_POSITION_AND_LOOK_PACKET_ID {
            match spec_parse_position_and_look(rest) {
                Ok((p, _)) => Ok(PacketView::PlayerPositionAndLook(p)),
                Err(e) => Err(e),
            }
        } else if id == SERVER_LIST_PING_PACKET_ID {
            Ok(PacketView::ServerListPing(ServerListPingPayload))
        } else if id == DISCONNECT_KICK_PACKET_ID {
            match spec_parse_disconnect_kick(rest) {
                Ok((v, _)) => Ok(PacketView::DisconnectKick(v)),
                Err(e) => Err(e),
            }
        } else {
            Err(CodecError::UnknownIdentifier(id))
        }
    }
}

/// The decode result as an abstract value: the packet replaced by its view.
pub open spec fn decoded_view(r: Result<Packet, CodecError>) -> Result<PacketView, CodecError> {
    match r {
        Ok(p) => Ok(p@),
        Err(e) => Err(e),
    }
}

// ---------------------------------------------------------------------------
// Executable payload codecs
// ---------------------------------------------------------------------------

impl KeepAlivePayload {
    /// Reads the payload fields that follow the identifier byte.
    pub fn from_bytes(cursor: &mut Cursor) -> (r: Result<KeepAlivePayload, CodecError>)
        requires
            old(cursor).wf(),
        ensures
            final(cursor).wf(),
            final(cursor).buf() == old(cursor).buf(),
            final(cursor).pos() >= old(cursor).pos(),
            match (r, spec_parse_keep_alive(old(cursor).remaining_bytes())) {
                (Ok(p), Ok((q, used))) => p == q && final(cursor).pos() == old(cursor).pos()
                    + used,
                (Err(e1), Err(e2)) => e1 == e2,
                _ => false,
            },
    {
        match cursor.get_i32() {
            Ok(v) => Ok(KeepAlivePayload { keep_alive_id: v }),
            Err(e) => Err(e),
        }
    }

    /// Writes the payload fields; never fails.
    pub fn to_bytes(&self, buffer: &mut Vec<u8>) -> (r: Result<(), CodecError>)
        ensures
            r is Ok,
            final(buffer)@ == old(buffer)@ + wire_keep_alive(*self),
    {
        put_i32(buffer, self.keep_alive_id);
        Ok(())
    }
}

impl TimeUpdatePayload {
    /// Reads the payload fields that follow the identifier byte.
    pub fn from_bytes(cursor: &mut Cursor) -> (r: Result<TimeUpdatePayload, CodecError>)
        requires
            old(cursor).wf(),
        ensures
            final(cursor).wf(),
            final(cursor).buf() == old(cursor).buf(),
            final(cursor).pos() >= old(cursor).pos(),
            match (r, spec_parse_time_update(old(cursor).remaining_bytes())) {
                (Ok(p), Ok((q, used))) => p == q && final(cursor).pos() == old(cursor).pos()
                    + used,
                (Err(e1), Err(e2)) => e1 == e2,
                _ => false,
            },
    {
        match cursor.get_i64() {
            Ok(v) => Ok(TimeUpdatePayload { time: v }),
            Err(e) => Err(e),
        }
    }

    /// Writes the payload fields; never fails.
    pub fn to_bytes(&self, buffer: &mut Vec<u8>) -> (r: Result<(), CodecError>)
        ensures
            r is Ok,
            final(buffer)@ == old(buffer)@ + wire_time_update(*self),
    {
        put_i64(buffer, self.time);
        Ok(())
    }
}

impl EntityEquipmentPayload {
    /// Reads the payload fields that follow the identifier byte.
    pub fn from_bytes(cursor: &mut Cursor) -> (r: Result<EntityEquipmentPayload, CodecError>)
        requires
            old(cursor).wf(),
        ensures
            final(cursor).wf(),
            final(cursor).buf() == old(cursor).buf(),
            final(cursor).pos() >= old(cursor).pos(),
            match (r, spec_parse_entity_equipment(old(cursor).remaining_bytes())) {
                (Ok(p), Ok((q, used))) => p == q && final(cursor).pos() == old(cursor).pos()
                    + used,
                (Err(e1), Err(e2)) => e1 == e2,
                _ => false,
            },
    {
        let ghost b = old(cursor).remaining_bytes();
        let entity_id: i32 = match cursor.get_i32() {
            Ok(v) => v,
            Err(e) => {
                return Err(e);
            },
        };
        proof {
            assert(cursor.remaining_bytes() =~= b.skip(4));
            if b.len() >= 6 {
                assert(b.skip(4).take(2) =~= b.subrange(4, 6));
            }
        }
        let slot: i16 = match cursor.get_i16() {
            Ok(v) => v,
            Err(e) => {
                return Err(e);
            },
        };
        proof {
            assert(cursor.remaining_bytes() =~= b.skip(6));
            if b.len() >= 8 {
                assert(b.skip(6).take(2) =~= b.subrange(6, 8));
            }
        }
        let item_id: i16 = match cursor.get_i16() {
            Ok(v) => v,
            Err(e) => {
                return Err(e);
            },
        };
        proof {
            assert(cursor.remaining_bytes() =~= b.skip(8));
            if b.len() >= 10 {
                assert(b.skip(8).take(2) =~= b.subrange(8, 10));
            }
        }
        let damage: i16 = match cursor.get_i16() {
            Ok(v) => v,
            Err(e) => {
                return Err(e);
            },
        };
        Ok(EntityEquipmentPayload { entity_id, slot, item_id, damage })
    }

    /// Writes the payload fields; never fails.
    pub fn to_bytes(&self, buffer: &mut Vec<u8>) -> (r: Result<(), CodecError>)
        ensures
            r is Ok,
            final(buffer)@ == old(buffer)@ + wire_entity_equipment(*self),
    {
        put_i32(buffer, self.entity_id);
        put_i16(buffer, self.slot);
        put_i16(buffer, self.item_id);
        put_i16(buffer, self.damage);
        assert(buffer@ =~= old(buffer)@ + wire_entity_equipment(*self));
        Ok(())
    }
}

impl SpawnPositionPayload {
    /// Reads the payload fields that follow the identifier byte.
    pub fn from_bytes(cursor: &mut Cursor) -> (r: Result<SpawnPositionPayload, CodecError>)
        requires
            old(cursor).wf(),
        ensures
            final(cursor).wf(),
            final(cursor).buf() == old(cursor).buf(),
            final(cursor).pos() >= old(cursor).pos(),
            match (r, spec_parse_spawn_position(old(cursor).remaining_bytes())) {
                (Ok(p), Ok((q, used))) => p == q && final(cursor).pos() == old(cursor).pos()
                    + used,
                (Err(e1), Err(e2)) => e1 == e2,
                _ => false,
            },
    {
        let ghost b = old(cursor).remaining_bytes();
        let x: i32 = match cursor.get_i32() {
            Ok(v) => v,
            Err(e) => {
                return Err(e);
            },
        };
        proof {
            assert(cursor.remaining_bytes() =~= b.skip(4));
            if b.len() >= 8 {
                assert(b.skip(4).take(4) =~= b.subrange(4, 8));
            }
        }
        let y: i32 = match cursor.get_i32() {
            Ok(v) => v,
            Err(e) => {
                return Err(e);
            },
        };
        proof {
            assert(cursor.remaining_bytes() =~= b.skip(8));
            if b.len() >= 12 {
                assert(b.skip(8).take(4) =~= b.subrange(8, 12));
            }
        }
        let z: i32 = match cursor.get_i32() {
            Ok(v) => v,
            Err(e) => {
                return Err(e);
            },
        };
        Ok(SpawnPositionPayload { x, y, z })
    }

    /// Writes the payload fields; never fails.
    pub fn to_bytes(&self, buffer: &mut Vec<u8>) -> (r: Result<(), CodecError>)
        ensures
            r is Ok,
            final(buffer)@ == old(buffer)@ + wire_spawn_position(*self),
    {
        put_i32(buffer, self.x);
        put_i32(buffer, self.y);
        put_i32(buffer, self.z);
        assert(buffer@ =~= old(buffer)@ + wire_spawn_position(*self));
        Ok(())
    }
}

impl PlayerPositionAndLookPayload {
    /// Reads the payload fields that follow the identifier byte.
    pub fn from_bytes(cursor: &mut Cursor) -> (r: Result<
        PlayerPositionAndLookPayload,
        CodecError,
    >)
        requires
            old(cursor).wf(),
        ensures
            final(cursor).wf(),
            final(cursor).buf() == old(cursor).buf(),
            final(cursor).pos() >= old(cursor).pos(),
            match (r, spec_parse_position_and_look(old(cursor).remaining_bytes())) {
                (Ok(p), Ok((q, used))) => p == q && final(cursor).pos() == old(cursor).pos()
                    + used,
                (Err(e1), Err(e2)) => e1 == e2,
                _ => false,
            },
    {
        let ghost b = old(cursor).remaining_bytes();
        let x_bits: u64 = match cursor.get_u64() {
            Ok(v) => v,
            Err(e) => {
                return Err(e);
            },
        };
        proof {
            assert(cursor.remaining_bytes() =~= b.skip(8));
            if b.len() >= 16 {
                assert(b.skip(8).take(8) =~= b.subrange(8, 16));
            }
        }
        let stance_y_0_bits: u64 = match cursor.get_u64() {
            Ok(v) => v,
            Err(e) => {
                return Err(e);
            },
        };
        proof {
            assert(cursor.remaining_bytes() =~= b.skip(16));
            if b.len() >= 24 {
                assert(b.skip(16).take(8) =~= b.subrange(16, 24));
            }
        }
        let stance_y_1_bits: u64 = match cursor.get_u64() {
            Ok(v) => v,
            Err(e) => {
                return Err(e);
            },
        };
        proof {
            assert(cursor.remaining_bytes() =~= b.skip(24));
            if b.len() >= 32 {
                assert(b.skip(24).take(8) =~= b.subrange(24, 32));
            }
        }
        let z_bits: u64 = match cursor.get_u64() {
            Ok(v) => v,
            Err(e) => {
                return Err(e);
            },
        };
        proof {
            assert(cursor.remaining_bytes() =~= b.skip(32));
            if b.len() >= 36 {
                assert(b.skip(32).take(4) =~= b.subrange(32, 36));
            }
        }
        let yaw_bits: u32 = match cursor.get_u32() {
            Ok(v) => v,
            Err(e) => {
                return Err(e);
            },
        };
        proof {
            assert(cursor.remaining_bytes() =~= b.skip(36));
            if b.len() >= 40 {
                assert(b.skip(36).take(4) =~= b.subrange(36, 40));
            }
        }
        let pitch_bits: u32 = match cursor.get_u32() {
            Ok(v) => v,
            Err(e) => {
                return Err(e);
            },
        };
        proof {
            assert(cursor.remaining_bytes() =~= b.skip(40));
        }
        let on_ground: u8 = match cursor.get_u8() {
            Ok(v) => v,
            Err(e) => {
                return Err(e);
            },
        };
        Ok(
            PlayerPositionAndLookPayload {
                x_bits,
                stance_y_0_bits,
                stance_y_1_bits,
                z_bits,
                yaw_bits,
                pitch_bits,
                on_ground,
            },
        )
    }

    /// Writes the payload fields; never fails.
    pub fn to_bytes(&self, buffer: &mut Vec<u8>) -> (r: Result<(), CodecError>)
        ensures
            r is Ok,
            final(buffer)@ == old(buffer)@ + wire_position_and_look(*self),
    {
        put_u64(buffer, self.x_bits);
        put_u64(buffer, self.stance_y_0_bits);
        put_u64(buffer, self.stance_y_1_bits);
        put_u64(buffer, self.z_bits);
        put_u32(buffer, self.yaw_bits);
        put_u32(buffer, self.pitch_bits);
        put_u8(buffer, self.on_ground);
        assert(buffer@ =~= old(buffer)@ + wire_position_and_look(*self));
        Ok(())
    }
}

impl ServerListPingPayload {
    /// Reads the payload: there are no fields, so nothing is consumed and
    /// any following bytes are left untouched.
    pub fn from_bytes(cursor: &mut Cursor) -> (r: Result<ServerListPingPayload, CodecError>)
        requires
            old(cursor).wf(),
        ensures
            *final(cursor) == *old(cursor),
            r == Ok::<ServerListPingPayload, CodecError>(ServerListPingPayload),
    {
        let _ = cursor;
        Ok(ServerListPingPayload)
    }
}

impl HandshakePayload {
    /// Reads the payload fields that follow the identifier byte.
    pub fn from_bytes(cursor: &mut Cursor) -> (r: Result<HandshakePayload, CodecError>)
        requires
            old(cursor).wf(),
        ensures
            final(cursor).wf(),
            final(cursor).buf() == old(cursor).buf(),
            final(cursor).pos() >= old(cursor).pos(),
            match (r, spec_parse_handshake(old(cursor).remaining_bytes())) {
                (Ok(p), Ok((q, used))) => p@ == q && final(cursor).pos() == old(cursor).pos()
                    + used,
                (Err(e1), Err(e2)) => e1 == e2,
                _ => false,
            },
    {
        match read_string(cursor) {
            Ok(data) => Ok(HandshakePayload { data }),
            Err(e) => Err(e),
        }
    }

    /// Writes the payload fields; fails only when the string does not fit
    /// the 16-bit code-unit count, leaving the buffer untouched.
    pub fn to_bytes(&self, buffer: &mut Vec<u8>) -> (r: Result<(), CodecError>)
        ensures
            match r {
                Ok(_) => string_fits(self.data@) && final(buffer)@ == old(buffer)@ + wire_handshake(
                    self@,
                ),
                Err(e) => {
                    &&& e == CodecError::OversizedText
                    &&& !string_fits(self.data@)
                    &&& final(buffer)@ == old(buffer)@
                },
            },
    {
        match put_string(buffer, self.data.as_str()) {
            Ok(_) => Ok(()),
            Err(e) => Err(e),
        }
    }
}

impl ChatMessagePayload {
    /// Reads the payload fields that follow the identifier byte.
    pub fn from_bytes(cursor: &mut Cursor) -> (r: Result<ChatMessagePayload, CodecError>)
        requires
            old(cursor).wf(),
        ensures
            final(cursor).wf(),
            final(cursor).buf() == old(cursor).buf(),
            final(cursor).pos() >= old(cursor).pos(),
            match (r, spec_parse_chat_message(old(cursor).remaining_bytes())) {
                (Ok(p), Ok((q, used))) => p@ == q && final(cursor).pos() == old(cursor).pos()
                    + used,
                (Err(e1), Err(e2)) => e1 == e2,
                _ => false,
            },
    {
        match read_string(cursor) {
            Ok(message) => Ok(ChatMessagePayload { message }),
            Err(e) => Err(e),
        }
    }

    /// Writes the payload fields; fails only when the string does not fit
    /// the 16-bit code-unit count, leaving the buffer untouched.
    pub fn to_bytes(&self, buffer: &mut Vec<u8>) -> (r: Result<(), CodecError>)
        ensures
            match r {
                Ok(_) => string_fits(self.message@) && final(buffer)@ == old(buffer)@
                    + wire_chat_message(self@),
                Err(e) => {
                    &&& e == CodecError::OversizedText
                    &&& !string_fits(self.message@)
                    &&& final(buffer)@ == old(buffer)@
                },
            },
    {
        match put_string(buffer, self.message.as_str()) {
            Ok(_) => Ok(()),
            Err(e) => Err(e),
        }
    }
}

impl DisconnectKickPayload {
    /// Reads the payload fields that follow the identifier byte.
    pub fn from_bytes(cursor: &mut Cursor) -> (r: Result<DisconnectKickPayload, CodecError>)
        requires
            old(cursor).wf(),
        ensures
            final(cursor).wf(),
            final(cursor).buf() == old(cursor).buf(),
            final(cursor).pos() >= old(cursor).pos(),
            match (r, spec_parse_disconnect_kick(old(cursor).remaining_bytes())) {
                (Ok(p), Ok((q, used))) => p@ == q && final(cursor).pos() == old(cursor).pos()
                    + used,
                (Err(e1), Err(e2)) => e1 == e2,
                _ => false,
            },
    {
        match read_string(cursor) {
            Ok(reason) => Ok(DisconnectKickPayload { reason }),
            Err(e) => Err(e),
        }
    }

    /// Writes the payload fields; fails only when the string does not fit
    /// the 16-bit code-unit count, leaving the buffer untouched.
    pub fn to_bytes(&self, buffer: &mut Vec<u8>) -> (r: Result<(), CodecError>)
        ensures
            match r {
                Ok(_) => string_fits(self.reason@) && final(buffer)@ == old(buffer)@
                    + wire_disconnect_kick(self@),
                Err(e) => {
                    &&& e == CodecError::OversizedText
                    &&& !string_fits(self.reason@)
                    &&& final(buffer)@ == old(buffer)@
                },
            },
    {
        match put_string(buffer, self.reason.as_str()) {
            Ok(_) => Ok(()),
            Err(e) => Err(e),
        }
    }
}

impl LoginRequestPayload {
    /// Reads the payload fields that follow the identifier byte.
    pub fn from_bytes(cursor: &mut Cursor) -> (r: Result<LoginRequestPayload, CodecError>)
        requires
            old(cursor).wf(),
        ensures
            final(cursor).wf(),
            final(cursor).buf() == old(cursor).buf(),
            final(cursor).pos() >= old(cursor).pos(),
            match (r, spec_parse_login_request(old(cursor).remaining_bytes())) {
                (Ok(p), Ok((q, used))) => p@ == q && final(cursor).pos() == old(cursor).pos()
                    + used,
                (Err(e1), Err(e2)) => e1 == e2,
                _ => false,
            },
    {
        let ghost b = old(cursor).remaining_bytes();
        let id: i32 = match cursor.get_i32() {
            Ok(v) => v,
            Err(e) => {
                return Err(e);
            },
        };
        proof {
            assert(cursor.remaining_bytes() =~= b.skip(4));
        }
        let ghost st1 = spec_take_string(b.skip(4));
        let username: String = match read_string(cursor) {
            Ok(s) => s,
            Err(e) => {
                return Err(e);
            },
        };
        let ghost c1 = st1->Ok_0.1;
        proof {
            assert(cursor.remaining_bytes() =~= b.skip(4 + c1));
        }
        let ghost st2 = spec_take_string(b.skip(4 + c1));
        let level_type: String = match read_string(cursor) {
            Ok(s) => s,
            Err(e) => {
                return Err(e);
            },
        };
        let ghost c2 = st2->Ok_0.1;
        let ghost tail = b.skip(4 + c1 + c2);
        proof {
            assert(cursor.remaining_bytes() =~= tail);
        }
        let server_mode: i32 = match cursor.get_i32() {
            Ok(v) => v,
            Err(e) => {
                return Err(e);
            },
        };
        proof {
            assert(cursor.remaining_bytes() =~= tail.skip(4));
            if tail.len() >= 8 {
                assert(tail.skip(4).take(4) =~= tail.subrange(4, 8));
            }
        }
        let dimension: i32 = match cursor.get_i32() {
            Ok(v) => v,
            Err(e) => {
                return Err(e);
            },
        };
        proof {
            assert(cursor.remaining_bytes() =~= tail.skip(8));
        }
        let difficulty: i8 = match cursor.get_i8() {
            Ok(v) => v,
            Err(e) => {
                return Err(e);
            },
        };
        proof {
            assert(cursor.remaining_bytes() =~= tail.skip(9));
        }
        let unused_0: u8 = match cursor.get_u8() {
            Ok(v) => v,
            Err(e) => {
                return Err(e);
            },
        };
        proof {
            assert(cursor.remaining_bytes() =~= tail.skip(10));
        }
        let max_players: u8 = match cursor.get_u8() {
            Ok(v) => v,
            Err(e) => {
                return Err(e);
            },
        };
        Ok(
            LoginRequestPayload {
                id,
                username,
                level_type,
                server_mode,
                dimension,
                difficulty,
                unused_0,
                max_players,
            },
        )
    }

    /// Writes the payload fields; fails only when one of the strings does
    /// not fit the 16-bit code-unit count, leaving the buffer untouched.
    pub fn to_bytes(&self, buffer: &mut Vec<u8>) -> (r: Result<(), CodecError>)
        ensures
            match r {
                Ok(_) => {
                    &&& string_fits(self.username@)
                    &&& string_fits(self.level_type@)
                    &&& final(buffer)@ == old(buffer)@ + wire_login_request(self@)
                },
                Err(e) => {
                    &&& e == CodecError::OversizedText
                    &&& !(string_fits(self.username@) && string_fits(self.level_type@))
                    &&& final(buffer)@ == old(buffer)@
                },
            },
    {
        match utf16_count(self.username.as_str()) {
            Ok(_) => (),
            Err(e) => {
                return Err(e);
            },
        };
        match utf16_count(self.level_type.as_str()) {
            Ok(_) => (),
            Err(e) => {
                return Err(e);
            },
        };
        put_i32(buffer, self.id);
        match put_string(buffer, self.username.as_str()) {
            Ok(_) => (),
            Err(_) => {
                proof {
                    assert(false);
                }
                return Err(CodecError::OversizedText);
            },
        };
        match put_string(buffer, self.level_type.as_str()) {
            Ok(_) => (),
            Err(_) => {
                proof {
                    assert(false);
                }
                return Err(CodecError::OversizedText);
            },
        };
        put_i32(buffer, self.server_mode);
        put_i32(buffer, self.dimension);
        put_i8(buffer, self.difficulty);
        put_u8(buffer, self.unused_0);
        put_u8(buffer, self.max_players);
        assert(buffer@ =~= old(buffer)@ + wire_login_request(self@));
        Ok(())
    }
}

// ---------------------------------------------------------------------------
// The dispatcher
// ---------------------------------------------------------------------------

impl Packet {
    /// Decodes one packet from the front of the buffer: the identifier byte
    /// selects the kind, the matching payload follows. Bytes after the
    /// payload are tolerated and ignored; a short buffer gives
    /// `TruncatedMessage`, an unrecognized leading byte gives
    /// `UnknownIdentifier`, and invalid UTF-16 in a string field gives
    /// `MalformedText`.
    pub fn from_bytes(bytes: &[u8]) -> (r: Result<Packet, CodecError>)
        ensures
            decoded_view(r) == spec_parse_packet(bytes@),
    {
        let mut cursor = Cursor::new(bytes);
        let packet_id: u8 = match cursor.get_u8() {
            Ok(v) => v,
            Err(e) => {
                return Err(e);
            },
        };
        proof {
            assert(bytes@.skip(0) =~= bytes@);
            assert(packet_id == bytes@[0]);
            assert(cursor.remaining_bytes() =~= bytes@.skip(1));
        }
        if packet_id == KEEP_ALIVE_PACKET_ID {
            match KeepAlivePayload::from_bytes(&mut cursor) {
                Ok(p) => Ok(Packet::KeepAlive(p)),
                Err(e) => Err(e),
            }
        } else if packet_id == LOGIN_REQUEST_PACKET_ID {
            match LoginRequestPayload::from_bytes(&mut cursor) {
                Ok(p) => Ok(Packet::LoginRequest(p)),
                Err(e) => Err(e),
            }
        } else if packet_id == HANDSHAKE_PACKET_ID {
            match HandshakePayload::from_bytes(&mut cursor) {
                Ok(p) => Ok(Packet::Handshake(p)),
                Err(e) => Err(e),
            }
        } else if packet_id == CHAT_MESSAGE_PACKET_ID {
            match ChatMessagePayload::from_bytes(&mut cursor) {
                Ok(p) => Ok(Packet::ChatMessage(p)),
                Err(e) => Err(e),
            }
        } else if packet_id == TIME_UPDATE_PACKET_ID {
            match TimeUpdatePayload::from_bytes(&mut cursor) {
                Ok(p) => Ok(Packet::TimeUpdate(p)),
                Err(e) => Err(e),
            }
        } else if packet_id == ENTITY_EQUIPMENT_PACKET_ID {
            match EntityEquipmentPayload::from_bytes(&mut cursor) {
                Ok(p) => Ok(Packet::EntityEquipment(p)),
                Err(e) => Err(e),
            }
        } else if packet_id == SPAWN_POSITION_PACKET_ID {
            match SpawnPositionPayload::from_bytes(&mut cursor) {
                Ok(p) => Ok(Packet::SpawnPosition(p)),
                Err(e) => Err(e),
            }
        } else if packet_id == PLAYER_POSITION_AND_LOOK_PACKET_ID {
            match PlayerPositionAndLookPayload::from_bytes(&mut cursor) {
                Ok(p) => Ok(Packet::PlayerPositionAndLook(p)),
                Err(e) => Err(e),
            }
        } else if packet_id == SERVER_LIST_PING_PACKET_ID {
            match ServerListPingPayload::from_bytes(&mut cursor) {
                Ok(p) => Ok(Packet::ServerListPing(p)),
                Err(e) => Err(e),
            }
        } else if packet_id == DISCONNECT_KICK_PACKET_ID {
            match DisconnectKickPayload::from_bytes(&mut cursor) {
                Ok(p) => Ok(Packet::DisconnectKick(p)),
                Err(e) => Err(e),
            }
        } else {
            Err(CodecError::UnknownIdentifier(packet_id))
        }
    }

    /// Encodes the packet: its identifier byte, then its payload. Fails
    /// only when a string field has more than 65535 UTF-16 code units.
    pub fn to_bytes(&self) -> (r: Result<Vec<u8>, CodecError>)
        ensures
            match r {
                Ok(v) => message_fits(self@) && v@ == message_wire(self@),
                Err(e) => e == CodecError::OversizedText && !message_fits(self@),
            },
    {
        let mut buffer: Vec<u8> = Vec::new();
        match self {
            Packet::KeepAlive(payload) => {
                put_u8(&mut buffer, KEEP_ALIVE_PACKET_ID);
                match payload.to_bytes(&mut buffer) {
                    Ok(_) => (),
                    Err(e) => {
                        return Err(e);
                    },
                };
            },
            Packet::LoginRequest(payload) => {
                put_u8(&mut buffer, LOGIN_REQUEST_PACKET_ID);
                match payload.to_bytes(&mut buffer) {
                    Ok(_) => (),
                    Err(e) => {
                        return Err(e);
                    },
                };
            },
            Packet::Handshake(payload) => {
                put_u8(&mut buffer, HANDSHAKE_PACKET_ID);
                match payload.to_bytes(&mut buffer) {
                    Ok(_) => (),
                    Err(e) => {
                        return Err(e);
                    },
                };
            },
            Packet::ChatMessage(payload) => {
                put_u8(&mut buffer, CHAT_MESSAGE_PACKET_ID);
                match payload.to_bytes(&mut buffer) {
                    Ok(_) => (),
                    Err(e) => {
                        return Err(e);
                    },
                };
            },
            Packet::TimeUpdate(payload) => {
                put_u8(&mut buffer, TIME_UPDATE_PACKET_ID);
                match payload.to_bytes(&mut buffer) {
                    Ok(_) => (),
                    Err(e) => {
                        return Err(e);
                    },
                };
            },
            Packet::EntityEquipment(payload) => {
                put_u8(&mut buffer, ENTITY_EQUIPMENT_PACKET_ID);
                match payload.to_bytes(&mut buffer) {
                    Ok(_) => (),
                    Err(e) => {
                        return Err(e);
                    },
                };
            },
            Packet::SpawnPosition(payload) => {
                put_u8(&mut buffer, SPAWN_POSITION_PACKET_ID);
                match payload.to_bytes(&mut buffer) {
                    Ok(_) => (),
                    Err(e) => {
                        return Err(e);
                    },
                };
            },
            Packet::PlayerPositionAndLook(payload) => {
                put_u8(&mut buffer, PLAYER_POSITION_AND_LOOK_PACKET_ID);
                match payload.to_bytes(&mut buffer) {
                    Ok(_) => (),
                    Err(e) => {
                        return Err(e);
                    },
                };
            },
            Packet::ServerListPing(_) => {
                put_u8(&mut buffer, SERVER_LIST_PING_PACKET_ID);
            },
            Packet::DisconnectKick(payload) => {
                put_u8(&mut buffer, DISCONNECT_KICK_PACKET_ID);
                match payload.to_bytes(&mut buffer) {
                    Ok(_) => (),
                    Err(e) => {
                        return Err(e);
                    },
                };
            },
        }
        proof {
            assert(buffer@ =~= message_wire(self@));
        }
        Ok(buffer)
    }
}

// ---------------------------------------------------------------------------
// Laws of the codec
// ---------------------------------------------------------------------------

/// Round-trip for the keep alive payload: it parses back from its own
/// wire form, whatever bytes follow.
pub proof fn lemma_parse_keep_alive_wire(p: KeepAlivePayload, extra: Seq<u8>)
    ensures
        wire_keep_alive(p).len() == 4,
        spec_parse_keep_alive(wire_keep_alive(p) + extra) == Ok::<
            (KeepAlivePayload, int),
            CodecError,
        >((p, 4)),
{
    let b = wire_keep_alive(p) + extra;
    assert(b.take(4) =~= wire_keep_alive(p));
    crate::wire::lemma_be4_roundtrip(u32_from_i32(p.keep_alive_id));
    crate::wire::lemma_signed_roundtrip();
}

/// Round-trip for the time update payload: it parses back from its own
/// wire form, whatever bytes follow.
pub proof fn lemma_parse_time_update_wire(p: TimeUpdatePayload, extra: Seq<u8>)
    ensures
        wire_time_update(p).len() == 8,
        spec_parse_time_update(wire_time_update(p) + extra) == Ok::<
            (TimeUpdatePayload, int),
            CodecError,
        >((p, 8)),
{
    let b = wire_time_update(p) + extra;
    assert(b.take(8) =~= wire_time_update(p));
    crate::wire::lemma_be8_roundtrip(u64_from_i64(p.time));
    crate::wire::lemma_signed_roundtrip();
}

/// Round-trip for the entity equipment payload: it parses back from its
/// own wire form, whatever bytes follow.
pub proof fn lemma_parse_entity_equipment_wire(p: EntityEquipmentPayload, extra: Seq<u8>)
    ensures
        wire_entity_equipment(p).len() == 10,
        spec_parse_entity_equipment(wire_entity_equipment(p) + extra) == Ok::<
            (EntityEquipmentPayload, int),
            CodecError,
        >((p, 10)),
{
    let b = wire_entity_equipment(p) + extra;
    assert(b.take(4) =~= be4_bytes(u32_from_i32(p.entity_id)));
    assert(b.subrange(4, 6) =~= be2_bytes(u16_from_i16(p.slot)));
    assert(b.subrange(6, 8) =~= be2_bytes(u16_from_i16(p.item_id)));
    assert(b.subrange(8, 10) =~= be2_bytes(u16_from_i16(p.damage)));
    crate::wire::lemma_be4_roundtrip(u32_from_i32(p.entity_id));
    crate::wire::lemma_be2_roundtrip(u16_from_i16(p.slot));
    crate::wire::lemma_be2_roundtrip(u16_from_i16(p.item_id));
    crate::wire::lemma_be2_roundtrip(u16_from_i16(p.damage));
    crate::wire::lemma_signed_roundtrip();
}

/// Round-trip for the spawn position payload: it parses back from its
/// own wire form, whatever bytes follow.
pub proof fn lemma_parse_spawn_position_wire(p: SpawnPositionPayload, extra: Seq<u8>)
    ensures
        wire_spawn_position(p).len() == 12,
        spec_parse_spawn_position(wire_spawn_position(p) + extra) == Ok::<
            (SpawnPositionPayload, int),
            CodecError,
        >((p, 12)),
{
    let b = wire_spawn_position(p) + extra;
    assert(b.take(4) =~= be4_bytes(u32_from_i32(p.x)));
    assert(b.subrange(4, 8) =~= be4_bytes(u32_from_i32(p.y)));
    assert(b.subrange(8, 12) =~= be4_bytes(u32_from_i32(p.z)));
    crate::wire::lemma_be4_roundtrip(u32_from_i32(p.x));
    crate::wire::lemma_be4_roundtrip(u32_from_i32(p.y));
    crate::wire::lemma_be4_roundtrip(u32_from_i32(p.z));
    crate::wire::lemma_signed_roundtrip();
}

/// Round-trip for the player position and look payload: it parses back
/// from its own wire form, whatever bytes follow.
pub proof fn lemma_parse_position_and_look_wire(p: PlayerPositionAndLookPayload, extra: Seq<u8>)
    ensures
        wire_position_and_look(p).len() == 41,
        spec_parse_position_and_look(wire_position_and_look(p) + extra) == Ok::<
            (PlayerPositionAndLookPayload, int),
            CodecError,
        >((p, 41)),
{
    let b = wire_position_and_look(p) + extra;
    assert(b.take(8) =~= be8_bytes(p.x_bits));
    assert(b.subrange(8, 16) =~= be8_bytes(p.stance_y_0_bits));
    assert(b.subrange(16, 24) =~= be8_bytes(p.stance_y_1_bits));
    assert(b.subrange(24, 32) =~= be8_bytes(p.z_bits));
    assert(b.subrange(32, 36) =~= be4_bytes(p.yaw_bits));
    assert(b.subrange(36, 40) =~= be4_bytes(p.pitch_bits));
    assert(b[40] == p.on_ground);
    crate::wire::lemma_be8_roundtrip(p.x_bits);
    crate::wire::lemma_be8_roundtrip(p.stance_y_0_bits);
    crate::wire::lemma_be8_roundtrip(p.stance_y_1_bits);
    crate::wire::lemma_be8_roundtrip(p.z_bits);
    crate::wire::lemma_be4_roundtrip(p.yaw_bits);
    crate::wire::lemma_be4_roundtrip(p.pitch_bits);
}

/// Round-trip for the login request payload: it parses back from its own
/// wire form, whatever bytes follow.
pub proof fn lemma_parse_login_request_wire(v: LoginRequestView, extra: Seq<u8>)
    requires
        string_fits(v.username),
        string_fits(v.level_type),
    ensures
        wire_login_request(v).len() == 15 + string_wire(v.username).len() + string_wire(
            v.level_type,
        ).len(),
        spec_parse_login_request(wire_login_request(v) + extra) == Ok::<
            (LoginRequestView, int),
            CodecError,
        >((v, wire_login_request(v).len() as int)),
{
    let sw1 = string_wire(v.username);
    let sw2 = string_wire(v.level_type);
    let l1 = sw1.len() as int;
    let l2 = sw2.len() as int;
    let fix = be4_bytes(u32_from_i32(v.server_mode)) + be4_bytes(u32_from_i32(v.dimension))
        + seq![u8_from_i8(v.difficulty), v.unused_0, v.max_players];
    let w = wire_login_request(v);
    let b = w + extra;
    crate::text::lemma_take_string_wire(v.username, sw2 + fix + extra);
    crate::text::lemma_take_string_wire(v.level_type, fix + extra);
    assert(b.take(4) =~= be4_bytes(u32_from_i32(v.id)));
    assert(b.skip(4) =~= sw1 + (sw2 + fix + extra));
    assert(b.skip(4 + l1) =~= sw2 + (fix + extra));
    let tail = b.skip(4 + l1 + l2);
    assert(tail =~= fix + extra);
    assert(tail.take(4) =~= be4_bytes(u32_from_i32(v.server_mode)));
    assert(tail.subrange(4, 8) =~= be4_bytes(u32_from_i32(v.dimension)));
    assert(tail[8] == u8_from_i8(v.difficulty));
    assert(tail[9] == v.unused_0);
    assert(tail[10] == v.max_players);
    crate::wire::lemma_be4_roundtrip(u32_from_i32(v.id));
    crate::wire::lemma_be4_roundtrip(u32_from_i32(v.server_mode));
    crate::wire::lemma_be4_roundtrip(u32_from_i32(v.dimension));
    crate::wire::lemma_signed_roundtrip();
}

/// Trailing-byte tolerance: a packet parses back from its own wire form
/// followed by arbitrary extra bytes, and the extra bytes change nothing.
pub proof fn lemma_parse_message_wire(m: PacketView, extra: Seq<u8>)
    requires
        message_fits(m),
    ensures
        message_wire(m).len() >= 1,
        spec_parse_packet(message_wire(m) + extra) == Ok::<PacketView, CodecError>(m),
{
    let b = message_wire(m) + extra;
    let pw = payload_wire(m);
    assert(b[0] == packet_id_of(m));
    assert(b.skip(1) =~= pw + extra);
    match m {
        PacketView::KeepAlive(p) => lemma_parse_keep_alive_wire(p, extra),
        PacketView::LoginRequest(v) => lemma_parse_login_request_wire(v, extra),
        PacketView::Handshake(v) => crate::text::lemma_take_string_wire(v.data, extra),
        PacketView::ChatMessage(v) => crate::text::lemma_take_string_wire(v.message, extra),
        PacketView::TimeUpdate(p) => lemma_parse_time_update_wire(p, extra),
        PacketView::EntityEquipment(p) => lemma_parse_entity_equipment_wire(p, extra),
        PacketView::SpawnPosition(p) => lemma_parse_spawn_position_wire(p, extra),
        PacketView::PlayerPositionAndLook(p) => lemma_parse_position_and_look_wire(p, extra),
        PacketView::ServerListPing(_) => (),
        PacketView::DisconnectKick(v) => crate::text::lemma_take_string_wire(v.reason, extra),
    }
}

/// Round-trip: a packet decodes back from exactly the bytes it encodes to.
pub proof fn lemma_message_round_trip(m: PacketView)
    requires
        message_fits(m),
    ensures
        spec_parse_packet(message_wire(m)) == Ok::<PacketView, CodecError>(m),
{
    lemma_parse_message_wire(m, Seq::empty());
    assert(message_wire(m) + Seq::<u8>::empty() =~= message_wire(m));
}

/// Unknown identifier rejection: a buffer whose leading byte matches no
/// known packet identifier is rejected with exactly that byte.
pub proof fn lemma_unknown_identifier(b: Seq<u8>)
    requires
        b.len() > 0,
        !is_known_id(b[0]),
    ensures
        spec_parse_packet(b) == Err::<PacketView, CodecError>(
            CodecError::UnknownIdentifier(b[0]),
        ),
{
}

proof fn lemma_truncated_keep_alive(p: KeepAlivePayload, k: int)
    requires
        0 <= k < wire_keep_alive(p).len(),
    ensures
        spec_parse_keep_alive(wire_keep_alive(p).take(k)) == Err::<
            (KeepAlivePayload, int),
            CodecError,
        >(CodecError::TruncatedMessage),
{
}

proof fn lemma_truncated_time_update(p: TimeUpdatePayload, k: int)
    requires
        0 <= k < wire_time_update(p).len(),
    ensures
        spec_parse_time_update(wire_time_update(p).take(k)) == Err::<
            (TimeUpdatePayload, int),
            CodecError,
        >(CodecError::TruncatedMessage),
{
}

proof fn lemma_truncated_entity_equipment(p: EntityEquipmentPayload, k: int)
    requires
        0 <= k < wire_entity_equipment(p).len(),
    ensures
        spec_parse_entity_equipment(wire_entity_equipment(p).take(k)) == Err::<
            (EntityEquipmentPayload, int),
            CodecError,
        >(CodecError::TruncatedMessage),
{
}

proof fn lemma_truncated_spawn_position(p: SpawnPositionPayload, k: int)
    requires
        0 <= k < wire_spawn_position(p).len(),
    ensures
        spec_parse_spawn_position(wire_spawn_position(p).take(k)) == Err::<
            (SpawnPositionPayload, int),
            CodecError,
        >(CodecError::TruncatedMessage),
{
}

proof fn lemma_truncated_position_and_look(p: PlayerPositionAndLookPayload, k: int)
    requires
        0 <= k < wire_position_and_look(p).len(),
    ensures
        spec_parse_position_and_look(wire_position_and_look(p).take(k)) == Err::<
            (PlayerPositionAndLookPayload, int),
            CodecError,
        >(CodecError::TruncatedMessage),
{
}

proof fn lemma_truncated_login_request(v: LoginRequestView, k: int)
    requires
        string_fits(v.username),
        string_fits(v.level_type),
        0 <= k < wire_login_request(v).len(),
    ensures
        spec_parse_login_request(wire_login_request(v).take(k)) == Err::<
            (LoginRequestView, int),
            CodecError,
        >(CodecError::TruncatedMessage),
{
    let sw1 = string_wire(v.username);
    let sw2 = string_wire(v.level_type);
    let l1 = sw1.len() as int;
    let l2 = sw2.len() as int;
    let fix = be4_bytes(u32_from_i32(v.server_mode)) + be4_bytes(u32_from_i32(v.dimension))
        + seq![u8_from_i8(v.difficulty), v.unused_0, v.max_players];
    let w = wire_login_request(v);
    let t = w.take(k);
    if k < 4 {
        // Fewer bytes than the leading 32-bit field needs.
    } else {
        let j = k - 4;
        assert(t.skip(4) =~= (sw1 + (sw2 + fix)).take(j));
        if j < l1 {
            assert((sw1 + (sw2 + fix)).take(j) =~= sw1.take(j));
            crate::text::lemma_take_string_truncated(v.username, sw1.take(j));
        } else {
            let j2 = j - l1;
            assert((sw1 + (sw2 + fix)).take(j) =~= sw1 + (sw2 + fix).take(j2));
            crate::text::lemma_take_string_wire(v.username, (sw2 + fix).take(j2));
            assert(t.skip(4 + l1) =~= (sw2 + fix).take(j2));
            if j2 < l2 {
                assert((sw2 + fix).take(j2) =~= sw2.take(j2));
                crate::text::lemma_take_string_truncated(v.level_type, sw2.take(j2));
            } else {
                let j3 = j2 - l2;
                assert((sw2 + fix).take(j2) =~= sw2 + fix.take(j3));
                crate::text::lemma_take_string_wire(v.level_type, fix.take(j3));
                assert(t.skip(4 + l1 + l2) =~= fix.take(j3));
                // The fixed block after the strings is 11 bytes; the prefix
                // ends inside it.
                assert(fix.take(j3).len() < 11);
            }
        }
    }
}

/// Truncation safety: decoding any strict prefix of a valid encoded message
/// reports a truncated message, whatever the packet and wherever the cut.
pub proof fn lemma_message_truncated(m: PacketView, n: int)
    requires
        message_fits(m),
        0 <= n < message_wire(m).len(),
    ensures
        spec_parse_packet(message_wire(m).take(n)) == Err::<PacketView, CodecError>(
            CodecError::TruncatedMessage,
        ),
{
    let w = message_wire(m);
    let t = w.take(n);
    if n == 0 {
        assert(t.len() == 0);
    } else {
        assert(t[0] == packet_id_of(m));
        assert(t.skip(1) =~= payload_wire(m).take(n - 1));
        match m {
            PacketView::KeepAlive(p) => lemma_truncated_keep_alive(p, n - 1),
            PacketView::LoginRequest(v) => lemma_truncated_login_request(v, n - 1),
            PacketView::Handshake(v) => crate::text::lemma_take_string_truncated(
                v.data,
                wire_handshake(v).take(n - 1),
            ),
            PacketView::ChatMessage(v) => crate::text::lemma_take_string_truncated(
                v.message,
                wire_chat_message(v).take(n - 1),
            ),
            PacketView::TimeUpdate(p) => lemma_truncated_time_update(p, n - 1),
            PacketView::EntityEquipment(p) => lemma_truncated_entity_equipment(p, n - 1),
            PacketView::SpawnPosition(p) => lemma_truncated_spawn_position(p, n - 1),
            PacketView::PlayerPositionAndLook(p) => lemma_truncated_position_and_look(p, n - 1),
            PacketView::ServerListPing(_) => (),
            PacketView::DisconnectKick(v) => crate::text::lemma_take_string_truncated(
                v.reason,
                wire_disconnect_kick(v).take(n - 1),
            ),
        }
    }
}

} // verus!
