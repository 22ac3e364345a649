//! Serverbound status packets.
use vstd::prelude::*;

use crate::bytebuf::{be_bytes, write_be_bytes};
use crate::Packet;

verus! {

/// Asks the server for its status document; it carries nothing.
#[derive(Debug)]
pub struct StatusRequest {}

impl StatusRequest {
    pub fn new() -> (r: Self) {
        StatusRequest {  }
    }
}

impl Packet for StatusRequest {
    open spec fn wire_id(&self) -> i32 {
        0
    }

    open spec fn payload_bytes(&self) -> Seq<u8> {
        Seq::empty()
    }

    open spec fn wf(&self) -> bool {
        true
    }

    fn packet_id(&self) -> (r: i32) {
        0
    }

    fn write(&self, buf: &mut Vec<u8>) {
        assert(buf@ =~= old(buf)@ + self.payload_bytes());
    }
}

/// A ping whose payload the server echoes back.
#[derive(Debug)]
pub struct PingRequest {
    pub payload: i64,
}

impl PingRequest {
    pub fn new(payload: i64) -> (r: Self)
        ensures
            r.payload == payload,
    {
        PingRequest { payload }
    }
}

impl Packet for PingRequest {
    open spec fn wire_id(&self) -> i32 {
        1
    }

    open spec fn payload_bytes(&self) -> Seq<u8> {
        be_bytes((self.payload as u64) as int, 8)
    }

    open spec fn wf(&self) -> bool {
        true
    }

    fn packet_id(&self) -> (r: i32) {
        1
    }

    fn write(&self, buf: &mut Vec<u8>) {
        write_be_bytes(buf, self.payload as u64 as u128, 8);
        assert(buf@ =~= old(buf)@ + self.payload_bytes());
    }
}

} // verus!
