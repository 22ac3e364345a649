//! Serverbound login packets.
use vstd::prelude::*;

use crate::bytebuf::{
    be_bytes, bool_byte, parse_prefixed_bytes, prefixed_bytes, read_bool, read_prefixed_bytes,
    string_bytes, write_be_bytes, write_bool, write_prefixed_bytes, write_string, ReadError,
};
use crate::types::{identifier_bytes, parse_identifier, Binary, Identifier, Uuid};
use crate::Packet;

verus! {

/// The login request: the player's name and claimed profile identity.
#[derive(Debug)]
pub struct Hello {
    pub name: String,
    pub profile_id: Uuid,
}

impl Hello {
    pub fn new(name: String, profile_id: Uuid) -> (r: Self)
        ensures
            r.name@ == name@,
            r.profile_id == profile_id,
    {
        Hello { name, profile_id }
    }
}

impl Packet for Hello {
    open spec fn wire_id(&self) -> i32 {
        0
    }

    open spec fn payload_bytes(&self) -> Seq<u8> {
        string_bytes(self.name@) + be_bytes(self.profile_id.0 as int, 16)
    }

    open spec fn wf(&self) -> bool {
        vstd::utf8::encode_utf8(self.name@).len() <= 16
    }

    fn packet_id(&self) -> (r: i32) {
        0
    }

    fn write(&self, buf: &mut Vec<u8>) {
        write_string(buf, self.name.as_str());
        write_be_bytes(buf, self.profile_id.0, 16);
        assert(buf@ =~= old(buf)@ + self.payload_bytes());
    }
}

/// The key exchange: the shared secret and the echoed challenge, both
/// sealed under the server's RSA public key.
#[derive(Debug)]
pub struct Key {
    pub keybytes: Binary,
    pub encrypted_challenge: Binary,
}

impl Key {
    pub fn new(keybytes: Vec<u8>, encrypted_challenge: Vec<u8>) -> (r: Self)
        ensures
            r.keybytes.inner@ == keybytes@,
            r.encrypted_challenge.inner@ == encrypted_challenge@,
    {
        Key { keybytes: Binary::new(keybytes), encrypted_challenge: Binary::new(encrypted_challenge) }
    }
}

impl Packet for Key {
    open spec fn wire_id(&self) -> i32 {
        1
    }

    open spec fn payload_bytes(&self) -> Seq<u8> {
        prefixed_bytes(self.keybytes.inner@) + prefixed_bytes(self.encrypted_challenge.inner@)
    }

    open spec fn wf(&self) -> bool {
        self.keybytes.inner@.len() <= i32::MAX && self.encrypted_challenge.inner@.len()
            <= i32::MAX
    }

    fn packet_id(&self) -> (r: i32) {
        1
    }

    fn write(&self, buf: &mut Vec<u8>) {
        write_prefixed_bytes(buf, &self.keybytes.inner);
        write_prefixed_bytes(buf, &self.encrypted_challenge.inner);
        assert(buf@ =~= old(buf)@ + self.payload_bytes());
    }
}

/// The largest cookie payload the protocol accepts.
pub const MAX_COOKIE_LENGTH: usize = 5120;

/// The answer to a cookie request: the key the cookie was stored under,
/// and its payload if one is held.
#[derive(Debug)]
pub struct CookieResponse {
    pub key: Identifier,
    pub payload: Option<Vec<u8>>,
}

/// A cookie response's payload at `s[0..]`: the key, a flag byte, and
/// when the flag is set a counted block of at most the cookie cap.
pub open spec fn parse_cookie_response(s: Seq<u8>) -> Option<
    ((Seq<char>, Seq<char>), Option<Seq<u8>>, int),
> {
    match parse_identifier(s) {
        Some((key, n1)) => {
            if s.len() <= n1 {
                None
            } else if s[n1] == 0 {
                Some((key, None, n1 + 1))
            } else {
                match parse_prefixed_bytes(s.skip(n1 + 1)) {
                    Some((b, n2)) => {
                        if b.len() <= MAX_COOKIE_LENGTH {
                            Some((key, Some(b), n1 + 1 + n2))
                        } else {
                            None
                        }
                    },
                    None => None,
                }
            }
        },
        None => None,
    }
}

impl CookieResponse {
    /// Parses a cookie response's payload.
    pub fn read(buf: &Vec<u8>) -> (r: Result<Self, ReadError>)
        ensures
            ({
                match r {
                    Ok(p) => parse_cookie_response(buf@) matches Some((key, payload, n))
                        && p.key.namespace@ == key.0 && p.key.path@ == key.1 && (match p.payload {
                        Some(v) => payload matches Some(b) && v@ == b,
                        None => payload is None,
                    }),
                    Err(_) => parse_cookie_response(buf@) is None,
                }
            }),
    {
        let blen = buf.len();
        let ghost s = buf@;
        proof {
            assert(s.skip(0) =~= s);
        }
        let (key, n1) = match Identifier::read(buf, 0) {
            Ok(x) => x,
            Err(e) => {
                return Err(e);
            },
        };
        let (has_payload, _) = match read_bool(buf, n1) {
            Ok(x) => x,
            Err(e) => {
                return Err(e);
            },
        };
        if !has_payload {
            return Ok(CookieResponse { key, payload: None });
        }
        proof {
            assert(s.skip(n1 as int).len() >= 1);
        }
        let (bytes, _n2) = match read_prefixed_bytes(buf, n1 + 1) {
            Ok(x) => x,
            Err(e) => {
                return Err(e);
            },
        };
        if bytes.len() > MAX_COOKIE_LENGTH {
            return Err(ReadError::Malformed);
        }
        Ok(CookieResponse { key, payload: Some(bytes) })
    }
}

impl Packet for CookieResponse {
    open spec fn wire_id(&self) -> i32 {
        4
    }

    open spec fn payload_bytes(&self) -> Seq<u8> {
        identifier_bytes(self.key.namespace@, self.key.path@) + seq![
            bool_byte(self.payload is Some),
        ] + (match self.payload {
            Some(p) => prefixed_bytes(p@),
            None => Seq::empty(),
        })
    }

    open spec fn wf(&self) -> bool {
        &&& vstd::utf8::encode_utf8(self.key.namespace@).len() + 1 + vstd::utf8::encode_utf8(
            self.key.path@,
        ).len() <= i32::MAX
        &&& match self.payload {
            Some(p) => p@.len() <= MAX_COOKIE_LENGTH,
            None => true,
        }
    }

    fn packet_id(&self) -> (r: i32) {
        4
    }

    fn write(&self, buf: &mut Vec<u8>) {
        self.key.write(buf);
        match &self.payload {
            Some(p) => {
                write_bool(buf, true);
                write_prefixed_bytes(buf, p);
            },
            None => {
                write_bool(buf, false);
            },
        }
        assert(buf@ =~= old(buf)@ + self.payload_bytes());
    }
}

/// The acknowledgement that ends the login phase; it carries nothing.
#[derive(Debug)]
pub struct LoginAcknowledged {}

impl LoginAcknowledged {
    pub fn new() -> (r: Self) {
        LoginAcknowledged {  }
    }
}

impl Packet for LoginAcknowledged {
    open spec fn wire_id(&self) -> i32 {
        3
    }

    open spec fn payload_bytes(&self) -> Seq<u8> {
        Seq::empty()
    }

    open spec fn wf(&self) -> bool {
        true
    }

    fn packet_id(&self) -> (r: i32) {
        3
    }

    fn write(&self, buf: &mut Vec<u8>) {
        assert(buf@ =~= old(buf)@ + self.payload_bytes());
    }
}

} // verus!
