//! The decisions of the connection handler: which packets are sent back for
//! each packet received. The caller owns the socket and the read/write loop;
//! this module only chooses the replies, in order, as plain values.

use vstd::prelude::*;

use crate::packet::{
    DisconnectKickPayload, HandshakePayload, KeepAlivePayload, LoginRequestPayload, Packet,
    PlayerPositionAndLookPayload, SpawnPositionPayload,
};

verus! {

/// Bit pattern of the spawn X and Z coordinates sent after login, 8.5.
pub const REPLY_XZ_BITS: u64 = 0x4021000000000000;

/// Bit pattern of the stance offset sent after login, 66.62.
pub const REPLY_STANCE_BITS: u64 = 0x4050A7AE147AE148;

/// Bit pattern of the absolute Y position sent after login, 65.0.
pub const REPLY_Y_BITS: u64 = 0x4050400000000000;

/// Bit pattern of the yaw sent after login, -180.0.
pub const REPLY_YAW_BITS: u32 = 0xC3340000;

/// Bit pattern of the pitch sent after login, 0.0.
pub const REPLY_PITCH_BITS: u32 = 0x00000000;

/// The packets the server sends in reply to one received packet, in order.
///
/// A server-list ping is answered with the status line, a handshake with the
/// no-authentication marker, a login request with the login confirmation
/// followed by the spawn position and the initial position and look, and a
/// position update with a keep alive. Every other packet gets no reply.
pub fn replies_for(packet: &Packet) -> (r: Vec<Packet>)
    ensures
        match *packet {
            Packet::ServerListPing(_) => {
                &&& r@.len() == 1
                &&& r@[0] matches Packet::DisconnectKick(p) && p.reason@ == (
                "A Minecraft Server\u{a7}0\u{a7}20")@
            },
            Packet::Handshake(_) => {
                &&& r@.len() == 1
                &&& r@[0] matches Packet::Handshake(p) && p.data@ == "-"@
            },
            Packet::LoginRequest(_) => {
                &&& r@.len() == 3
                &&& r@[0] matches Packet::LoginRequest(p) && p.id == 1234 && p.username@ == ""@
                    && p.level_type@ == "default"@ && p.server_mode == 1 && p.dimension == 0
                    && p.difficulty == 0 && p.unused_0 == 0 && p.max_players == 20
                &&& r@[1] matches Packet::SpawnPosition(p) && p == (SpawnPositionPayload {
                    x: 8,
                    y: 65,
                    z: 8,
                })
                &&& r@[2] matches Packet::PlayerPositionAndLook(p) && p == (
                PlayerPositionAndLookPayload {
                    x_bits: REPLY_XZ_BITS,
                    stance_y_0_bits: REPLY_STANCE_BITS,
                    stance_y_1_bits: REPLY_Y_BITS,
                    z_bits: REPLY_XZ_BITS,
                    yaw_bits: REPLY_YAW_BITS,
                    pitch_bits: REPLY_PITCH_BITS,
                    on_ground: 0,
                })
            },
            Packet::PlayerPositionAndLook(_) => {
                &&& r@.len() == 1
                &&& r@[0] matches Packet::KeepAlive(p) && p.keep_alive_id == 1
            },
            _ => r@.len() == 0,
        },
{
    let mut replies: Vec<Packet> = Vec::new();
    match packet {
        Packet::ServerListPing(_) => {
            replies.push(
                Packet::DisconnectKick(
                    DisconnectKickPayload {
                        reason: String::from_str("A Minecraft Server\u{a7}0\u{a7}20"),
                    },
                ),
            );
        },
        Packet::Handshake(_) => {
            replies.push(Packet::Handshake(HandshakePayload { data: String::from_str("-") }));
        },
        Packet::LoginRequest(_) => {
            replies.push(
                Packet::LoginRequest(
                    LoginRequestPayload {
                        id: 1234,
                        username: String::from_str(""),
                        level_type: String::from_str("default"),
                        server_mode: 1,
                        dimension: 0,
                        difficulty: 0,
                        unused_0: 0,
                        max_players: 20,
                    },
                ),
            );
            replies.push(Packet::SpawnPosition(SpawnPositionPayload { x: 8, y: 65, z: 8 }));
            replies.push(
                Packet::PlayerPositionAndLook(
                    PlayerPositionAndLookPayload {
                        x_bits: REPLY_XZ_BITS,
                        stance_y_0_bits: REPLY_STANCE_BITS,
                        stance_y_1_bits: REPLY_Y_BITS,
                        z_bits: REPLY_XZ_BITS,
                        yaw_bits: REPLY_YAW_BITS,
                        pitch_bits: REPLY_PITCH_BITS,
                        on_ground: 0,
                    },
                ),
            );
        },
        Packet::PlayerPositionAndLook(_) => {
            replies.push(Packet::KeepAlive(KeepAlivePayload { keep_alive_id: 1 }));
        },
        _ => {},
    }
    replies
}

} // verus!
