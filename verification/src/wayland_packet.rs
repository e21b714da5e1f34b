//! The 16-byte WaylandPacket header:
//! `[msg_id: u32][obj_id: u32][op_code: u16][pad: u16][payload_len: u32]`.

use vstd::prelude::*;
use crate::le_bytes::{le_u16, le_u32, read_u16_le, read_u32_le};

verus! {

/// Largest payload length a header may announce.
pub const MAX_PAYLOAD_LEN: u32 = 1_000_000;

#[derive(Debug, Clone, Copy, PartialEq, Eq, Structural)]
pub struct WaylandPacket {
    pub msg_id: u32,
    pub obj_id: u32,
    pub op_code: u16,
    pub payload_len: u32,
}

/// The header encoded at the start of `data`, if `data` holds 16 bytes and
/// the announced payload length is at most `MAX_PAYLOAD_LEN`.
pub open spec fn spec_parse_packet(data: Seq<u8>) -> Option<WaylandPacket> {
    if data.len() < 16 || le_u32(data, 12) > MAX_PAYLOAD_LEN {
        None
    } else {
        Some(WaylandPacket {
            msg_id: le_u32(data, 0) as u32,
            obj_id: le_u32(data, 4) as u32,
            op_code: le_u16(data, 8) as u16,
            payload_len: le_u32(data, 12) as u32,
        })
    }
}

impl WaylandPacket {
    /// Parses a 16-byte header; `None` if the data is too short or the
    /// payload length exceeds 1 MB.
    pub fn parse(data: &[u8]) -> (r: Option<Self>)
        ensures
            r == spec_parse_packet(data@),
    {
        if data.len() < 16 {
            return None;
        }
        let msg_id = read_u32_le(data, 0);
        let obj_id = read_u32_le(data, 4);
        let op_code = read_u16_le(data, 8);
        let payload_len = read_u32_le(data, 12);

        if payload_len > MAX_PAYLOAD_LEN {
            return None;
        }

        Some(WaylandPacket { msg_id, obj_id, op_code, payload_len })
    }

    /// Byte offset where the payload begins (the header size).
    pub fn payload_offset() -> (n: usize)
        ensures
            n == 16,
    {
        16
    }
}

} // verus!
