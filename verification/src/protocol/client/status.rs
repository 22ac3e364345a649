//! Clientbound status packets.
use vstd::prelude::*;

use crate::bytebuf::{be_bytes, string_bytes, write_be_bytes, write_string};
use crate::Packet;

verus! {

/// The server's status document, as one JSON string.
#[derive(Debug)]
pub struct StatusResponse {
    pub json_response: String,
}

impl StatusResponse {
    pub fn new(json_response: String) -> (r: Self)
        ensures
            r.json_response@ == json_response@,
    {
        StatusResponse { json_response }
    }
}

impl Packet for StatusResponse {
    open spec fn wire_id(&self) -> i32 {
        0
    }

    open spec fn payload_bytes(&self) -> Seq<u8> {
        string_bytes(self.json_response@)
    }

    open spec fn wf(&self) -> bool {
        vstd::utf8::encode_utf8(self.json_response@).len() <= 32767
    }

    fn packet_id(&self) -> (r: i32) {
        0
    }

    fn write(&self, buf: &mut Vec<u8>) {
        write_string(buf, self.json_response.as_str());
        assert(buf@ =~= old(buf)@ + self.payload_bytes());
    }
}

/// The echo of a ping's payload.
#[derive(Debug)]
pub struct PongResponse {
    pub payload: i64,
}

impl PongResponse {
    pub fn new(payload: i64) -> (r: Self)
        ensures
            r.payload == payload,
    {
        PongResponse { payload }
    }
}

impl Packet for PongResponse {
    open spec fn wire_id(&self) -> i32 {
        1
    }

    open spec fn payload_bytes(&self) -> Seq<u8> {
        be_bytes((self.payload as u64) as int, 8)
    }

    open spec fn wf(&self) -> bool {
        true
    }

    fn packet_id(&self) -> (r: i32) {
        1
    }

    fn write(&self, buf: &mut Vec<u8>) {
        write_be_bytes(buf, self.payload as u64 as u128, 8);
        assert(buf@ =~= old(buf)@ + self.payload_bytes());
    }
}

} // verus!
