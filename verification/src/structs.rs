//! The game's message readers, as they lie in its memory. Buffers are held by address.
use crate::bytes;
use crate::bytes::{read_i32, read_u32, read_u64};
use vstd::prelude::*;

verus! {

/// An address as the game's network code holds it.
#[derive(Clone, Copy, Debug, PartialEq, Eq)]
pub struct NetAdr {
    pub ipv4: [u8; 4],
    pub port: u16,
    pub kind: i32,
    pub local_net_id: i32,
}

#[derive(Clone, Copy, Debug, PartialEq, Eq, Structural)]
pub struct Msg {
    pub overflowed: u8,
    pub read_only: u8,
    pub data: u64,
    pub split_data: u64,
    pub max_size: u32,
    pub cur_size: u32,
    pub split_size: u32,
    pub read_count: u32,
    pub bit: i32,
    pub last_entity: i32,
    pub flush: i32,
    pub target: i32,
}

#[derive(Clone, Copy, Debug, PartialEq, Eq, Structural)]
pub struct LobbyMsg {
    pub msg: Msg,
    pub msg_type: i32,
    pub encode_flags: u8,
    pub package_type: i32,
}

pub const MSG_SIZE: usize = 0x38;
pub const LOBBY_MSG_SIZE: usize = 0x48;
pub const NET_ADR_SIZE: usize = 16;

/// The reader that lies in `d`.
pub open spec fn msg_at(d: Seq<u8>) -> Msg {
    Msg {
        overflowed: d[0],
        read_only: d[1],
        data: bytes::u64_at(d, 8)->Some_0,
        split_data: bytes::u64_at(d, 0x10)->Some_0,
        max_size: bytes::u32_at(d, 0x18)->Some_0,
        cur_size: bytes::u32_at(d, 0x1c)->Some_0,
        split_size: bytes::u32_at(d, 0x20)->Some_0,
        read_count: bytes::u32_at(d, 0x24)->Some_0,
        bit: bytes::i32_at(d, 0x28)->Some_0,
        last_entity: bytes::i32_at(d, 0x2c)->Some_0,
        flush: bytes::i32_at(d, 0x30)->Some_0,
        target: bytes::i32_at(d, 0x34)->Some_0,
    }
}

/// The lobby reader that lies in `d`.
pub open spec fn lobby_msg_at(d: Seq<u8>) -> LobbyMsg {
    LobbyMsg {
        msg: msg_at(d),
        msg_type: bytes::i32_at(d, 0x38)->Some_0,
        encode_flags: d[0x3c],
        package_type: bytes::i32_at(d, 0x40)->Some_0,
    }
}

/// A reader was read.
pub open spec fn msg_read(d: Seq<u8>, r: Option<Msg>) -> bool {
    &&& r is Some <==> d.len() >= MSG_SIZE
    &&& r is Some ==> r->Some_0 == msg_at(d)
}

impl Msg {
    pub fn from_bytes(d: &[u8]) -> (r: Option<Self>)
        ensures
            msg_read(d@, r),
    {
        if d.len() < MSG_SIZE {
            return None;
        }
        Some(
            Msg {
                overflowed: d[0],
                read_only: d[1],
                data: read_u64(d, 8)?,
                split_data: read_u64(d, 0x10)?,
                max_size: read_u32(d, 0x18)?,
                cur_size: read_u32(d, 0x1c)?,
                split_size: read_u32(d, 0x20)?,
                read_count: read_u32(d, 0x24)?,
                bit: read_i32(d, 0x28)?,
                last_entity: read_i32(d, 0x2c)?,
                flush: read_i32(d, 0x30)?,
                target: read_i32(d, 0x34)?,
            },
        )
    }
}

/// A lobby reader was read.
pub open spec fn lobby_msg_read(d: Seq<u8>, r: Option<LobbyMsg>) -> bool {
    &&& r is Some <==> d.len() >= LOBBY_MSG_SIZE
    &&& r is Some ==> r->Some_0 == lobby_msg_at(d)
}

impl LobbyMsg {
    pub fn from_bytes(d: &[u8]) -> (r: Option<Self>)
        ensures
            lobby_msg_read(d@, r),
    {
        if d.len() < LOBBY_MSG_SIZE {
            return None;
        }
        let msg: Msg = Msg::from_bytes(d)?;
        Some(
            LobbyMsg {
                msg,
                msg_type: read_i32(d, 0x38)?,
                encode_flags: d[0x3c],
                package_type: read_i32(d, 0x40)?,
            },
        )
    }
}

/// An address was read.
pub open spec fn address_at(d: Seq<u8>, r: Option<NetAdr>) -> bool {
    &&& r is Some <==> d.len() >= NET_ADR_SIZE
    &&& r is Some ==> {
        &&& r->Some_0.ipv4@ == d.subrange(0, 4)
        &&& Some(r->Some_0.port) == bytes::u16_at(d, 4)
        &&& Some(r->Some_0.kind) == bytes::i32_at(d, 8)
        &&& Some(r->Some_0.local_net_id) == bytes::i32_at(d, 12)
    }
}

impl NetAdr {
    /// The address that lies in `d`.
    pub fn from_bytes(d: &[u8]) -> (r: Option<Self>)
        ensures
            address_at(d@, r),
    {
        if d.len() < NET_ADR_SIZE {
            return None;
        }
        let ipv4: [u8; 4] = [d[0], d[1], d[2], d[3]];
        assert(ipv4@ =~= d@.subrange(0, 4));
        Some(
            NetAdr {
                ipv4,
                port: bytes::read_u16(d, 4)?,
                kind: read_i32(d, 8)?,
                local_net_id: read_i32(d, 12)?,
            },
        )
    }
}

} // verus!
