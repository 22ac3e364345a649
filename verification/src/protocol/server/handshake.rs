//! The first packet of every connection: it names the protocol version,
//! the endpoint, and the client's intent.
use vstd::prelude::*;

use crate::bytebuf::{
    be_bytes, parse_string, parse_varint, read_string, read_varint, string_bytes, write_be_bytes,
    write_string, ReadError,
};
use crate::var_int::{varint_bytes, VarInt};
use crate::{intent_code, ClientIntent, Packet};

verus! {

/// The serverbound handshake: protocol version, host, port, intent.
#[derive(Debug)]
pub struct HandShake {
    pub protocol_version: VarInt,
    pub host_name: String,
    pub port: u16,
    pub intention: ClientIntent,
}

impl HandShake {
    pub fn new(protocol_version: i32, host_name: String, port: u16, intention: ClientIntent) -> (r:
        Self)
        ensures
            r.protocol_version.0 == protocol_version,
            r.host_name@ == host_name@,
            r.port == port,
            r.intention == intention,
    {
        HandShake { protocol_version: VarInt(protocol_version), host_name, port, intention }
    }

    /// Parses a handshake payload from the front of `buf`: version, host,
    /// port, then an intent code that must be 1, 2 or 3.
    pub fn read(buf: &Vec<u8>) -> (r: Result<Self, ReadError>)
        ensures
            ({
                match r {
                    Ok(p) => parse_handshake(buf@) matches Some((version, host, port, intent))
                        && p.protocol_version.0 == version && p.host_name@ == host && p.port == port
                        && p.intention == intent,
                    Err(_) => parse_handshake(buf@) is None,
                }
            }),
    {
        let blen = buf.len();
        let ghost s = buf@;
        assert(s.skip(0) =~= s);
        let (version, n1) = match read_varint(buf, 0) {
            Ok(x) => x,
            Err(e) => {
                return Err(e);
            },
        };
        let (host, n2) = match read_string(buf, n1) {
            Ok(x) => x,
            Err(e) => {
                return Err(e);
            },
        };
        let pos = n1 + n2;
        if blen - pos < 2 {
            return Err(ReadError::Incomplete);
        }
        let hi = buf[pos];
        let lo = buf[pos + 1];
        let port: u16 = (hi as u16) * 256 + lo as u16;
        let (code, _n3) = match read_varint(buf, pos + 2) {
            Ok(x) => x,
            Err(e) => {
                return Err(e);
            },
        };
        let intention = match code {
            1i32 => ClientIntent::Status,
            2i32 => ClientIntent::Login,
            3i32 => ClientIntent::Transfer,
            _ => {
                return Err(ReadError::Malformed);
            },
        };
        Ok(HandShake { protocol_version: VarInt(version), host_name: host, port, intention })
    }
}

/// The handshake payload at `s[0..]`: protocol version, host, big-endian
/// port, then an intent code of 1, 2 or 3.
pub open spec fn parse_handshake(s: Seq<u8>) -> Option<(i32, Seq<char>, u16, ClientIntent)> {
    match parse_varint(s) {
        Some((version, n1)) => match parse_string(s.skip(n1)) {
            Some((host, n2)) => {
                if s.len() - n1 - n2 < 2 {
                    None
                } else {
                    let port = (s[n1 + n2] * 256 + s[n1 + n2 + 1]) as u16;
                    match parse_varint(s.skip(n1 + n2 + 2)) {
                        Some((code, n3)) => {
                            if code == 1 {
                                Some((version, host, port, ClientIntent::Status))
                            } else if code == 2 {
                                Some((version, host, port, ClientIntent::Login))
                            } else if code == 3 {
                                Some((version, host, port, ClientIntent::Transfer))
                            } else {
                                None
                            }
                        },
                        None => None,
                    }
                }
            },
            None => None,
        },
        None => None,
    }
}

impl Packet for HandShake {
    open spec fn wire_id(&self) -> i32 {
        0
    }

    open spec fn payload_bytes(&self) -> Seq<u8> {
        varint_bytes(self.protocol_version.0) + string_bytes(self.host_name@) + be_bytes(
            self.port as int,
            2,
        ) + varint_bytes(intent_code(self.intention))
    }

    open spec fn wf(&self) -> bool {
        vstd::utf8::encode_utf8(self.host_name@).len() <= 255
    }

    fn packet_id(&self) -> (r: i32) {
        0
    }

    fn write(&self, buf: &mut Vec<u8>) {
        crate::var_int::encode_varint(self.protocol_version.0, buf);
        write_string(buf, self.host_name.as_str());
        write_be_bytes(buf, self.port as u128, 2);
        crate::var_int::encode_varint(self.intention.code(), buf);
        assert(buf@ =~= old(buf)@ + self.payload_bytes());
    }
}

} // verus!
