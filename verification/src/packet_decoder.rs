//! The inbound half of the transport: turns raw socket bytes into frames,
//! undoing stream encryption as bytes arrive and compression per frame.
use vstd::prelude::*;

use crate::bytebuf::copy_range;
use crate::compress::zlib_decompress;
use crate::crypt::{cfb8_decrypt_of, StreamDecryptor};
use crate::frame::{decode_compressed, decode_frame, DecodeError, FrameParse};
use crate::var_int::{decode_varint, varint_parse_len, varint_parsed_value, VarIntError};
use crate::{RawPacket, MAX_PACKET_SIZE};

verus! {

/// Buffers inbound bytes and pulls complete frames off their front.
pub struct PacketDecoder {
    buf: Vec<u8>,
    cipher: Option<StreamDecryptor>,
    compression: bool,
}

impl PacketDecoder {
    /// The bytes received and not yet consumed, already decrypted.
    pub closed spec fn buffered(&self) -> Seq<u8> {
        self.buf@
    }

    /// Whether frames are read in the compressed layout.
    pub closed spec fn compression(&self) -> bool {
        self.compression
    }

    /// Whether a stream cipher is installed.
    pub closed spec fn encrypted(&self) -> bool {
        self.cipher is Some
    }

    /// The installed cipher's key; empty when none is installed.
    pub closed spec fn cipher_key(&self) -> Seq<u8> {
        match self.cipher {
            Some(c) => c.key(),
            None => Seq::empty(),
        }
    }

    /// Every ciphertext byte the installed cipher has transformed so far.
    pub closed spec fn cipher_fed(&self) -> Seq<u8> {
        match self.cipher {
            Some(c) => c.fed(),
            None => Seq::empty(),
        }
    }

    /// Whether a stream cipher is installed, as executable code.
    pub fn is_encrypted(&self) -> (r: bool)
        ensures
            r == self.encrypted(),
    {
        self.cipher.is_some()
    }

    pub fn new() -> (r: Self)
        ensures
            r.buffered() == Seq::<u8>::empty(),
            !r.compression(),
            !r.encrypted(),
    {
        PacketDecoder { buf: Vec::new(), cipher: None, compression: false }
    }

    /// Makes room for at least `additional` more buffered bytes.
    pub fn reserve(&mut self, additional: usize)
        ensures
            final(self).buffered() == old(self).buffered(),
            final(self).compression() == old(self).compression(),
            final(self).encrypted() == old(self).encrypted(),
            final(self).cipher_key() == old(self).cipher_key(),
            final(self).cipher_fed() == old(self).cipher_fed(),
    {
        self.buf.reserve(additional);
    }

    /// Switches the frame layout; each frame is parsed under the mode in
    /// force when it is decoded.
    pub fn set_compression(&mut self, compression: bool)
        ensures
            final(self).buffered() == old(self).buffered(),
            final(self).compression() == compression,
            final(self).encrypted() == old(self).encrypted(),
            final(self).cipher_key() == old(self).cipher_key(),
            final(self).cipher_fed() == old(self).cipher_fed(),
    {
        self.compression = compression;
    }

    /// Installs the cipher keyed and IV'd by `key`, or removes it. Bytes
    /// already buffered stay as they are: only bytes queued from now on
    /// run through the cipher.
    pub fn set_encryption(&mut self, key: Option<&[u8; 16]>)
        requires
            key is Some <==> !old(self).encrypted(),
        ensures
            final(self).buffered() == old(self).buffered(),
            final(self).compression() == old(self).compression(),
            final(self).encrypted() == key is Some,
            key matches Some(k) ==> final(self).cipher_key() == k@ && final(self).cipher_fed()
                == Seq::<u8>::empty(),
    {
        match key {
            Some(k) => {
                self.cipher = Some(StreamDecryptor::new(k));
            },
            None => {
                self.cipher = None;
            },
        }
    }

    /// Appends received bytes to the buffer, running them through the
    /// cipher first when one is installed: the appended plaintext then
    /// continues the decrypted stream, and nothing already buffered moves.
    pub fn queue_bytes(&mut self, data: Vec<u8>)
        ensures
            final(self).compression() == old(self).compression(),
            final(self).encrypted() == old(self).encrypted(),
            final(self).cipher_key() == old(self).cipher_key(),
            !old(self).encrypted() ==> final(self).buffered() == old(self).buffered() + data@
                && final(self).cipher_fed() == old(self).cipher_fed(),
            old(self).encrypted() ==> ({
                let k = old(self).cipher_key();
                let f0 = old(self).cipher_fed();
                let f1 = f0 + data@;
                &&& final(self).cipher_fed() == f1
                &&& cfb8_decrypt_of(k, f1).len() == f1.len()
                &&& cfb8_decrypt_of(k, f1).take(f0.len() as int) == cfb8_decrypt_of(k, f0)
                &&& final(self).buffered() == old(self).buffered() + cfb8_decrypt_of(
                    k,
                    f1,
                ).subrange(f0.len() as int, f1.len() as int)
            }),
    {
        let mut data = data;
        match &mut self.cipher {
            Some(c) => {
                c.apply(&mut data);
            },
            None => {},
        }
        self.buf.append(&mut data);
    }

    /// Attempts to pull one frame off the front of the buffer.
    ///
    /// An incomplete frame leaves the buffer untouched and yields nothing.
    /// A complete frame is consumed exactly and handed out. A malformed
    /// stream yields the fatal fault that `decode_frame` assigns to it.
    pub fn decode(&mut self) -> (r: Result<Option<RawPacket>, DecodeError>)
        ensures
            final(self).compression() == old(self).compression(),
            final(self).encrypted() == old(self).encrypted(),
            final(self).cipher_key() == old(self).cipher_key(),
            final(self).cipher_fed() == old(self).cipher_fed(),
            ({
                match decode_frame(old(self).compression(), old(self).buffered()) {
                    FrameParse::NeedMore => r matches Ok(None) && final(self).buffered() == old(
                        self,
                    ).buffered(),
                    FrameParse::Frame { id, body, used } => {
                        &&& r matches Ok(Some(p)) && p.id.0 == id && p.bytebuf@ == body
                        &&& final(self).buffered() == old(self).buffered().skip(used)
                    },
                    FrameParse::Bad(e) => r matches Err(e2) && e2 == e,
                }
            }),
    {
        let ghost s = self.buf@;
        proof {
            assert(s.skip(0) =~= s);
        }
        let (plen_v, plen_n) = match decode_varint(&self.buf, 0) {
            Ok(x) => x,
            Err(VarIntError::Incomplete) => {
                return Ok(None);
            },
            Err(VarIntError::TooLarge) => {
                return Err(DecodeError::BadVarInt);
            },
        };
        assert(self.buf@.skip(0) =~= s);
        if plen_v < 0 || plen_v >= MAX_PACKET_SIZE as i32 {
            return Err(DecodeError::FrameTooLarge);
        }
        let len = plen_v as usize;
        if self.buf.len() - plen_n < len {
            return Ok(None);
        }
        let content = copy_range(&self.buf, plen_n, len);
        let ghost used = plen_n + len as int;
        let tail = self.buf.split_off(plen_n + len);
        self.buf = tail;
        assert(self.buf@ =~= s.skip(used));
        assert(content@ =~= s.subrange(plen_n as int, used));
        proof {
            assert(content@.skip(0) =~= content@);
        }
        if self.compression {
            Self::decode_compressed_content(content, Ghost(used))
        } else {
            match parse_inner(&content, 0) {
                Ok(p) => Ok(Some(p)),
                Err(e) => Err(e),
            }
        }
    }

    /// The compressed-layout half of `decode`, applied to one complete
    /// frame's content.
    fn decode_compressed_content(content: Vec<u8>, used: Ghost<int>) -> (r: Result<
        Option<RawPacket>,
        DecodeError,
    >)
        ensures
            ({
                match decode_compressed(content@, used@) {
                    FrameParse::Frame { id, body, used } => r matches Ok(Some(p)) && p.id.0 == id
                        && p.bytebuf@ == body,
                    FrameParse::Bad(e) => r matches Err(e2) && e2 == e,
                    FrameParse::NeedMore => false,
                }
            }),
    {
        proof {
            assert(content@.skip(0) =~= content@);
        }
        let (dlen, dlen_n) = match decode_varint(&content, 0) {
            Ok(x) => x,
            Err(_) => {
                return Err(DecodeError::BadVarInt);
            },
        };
        assert(content@.skip(0) =~= content@);
        if dlen == 0 {
            match parse_inner(&content, dlen_n) {
                Ok(p) => Ok(Some(p)),
                Err(e) => Err(e),
            }
        } else if dlen < 0 {
            Err(DecodeError::InconsistentLength)
        } else {
            let rest = copy_range(&content, dlen_n, content.len() - dlen_n);
            assert(rest@ =~= content@.skip(dlen_n as int));
            match zlib_decompress(&rest, dlen as usize) {
                Ok(inner) => {
                    if inner.len() == dlen as usize {
                        assert(inner@.skip(0) =~= inner@);
                        match parse_inner(&inner, 0) {
                            Ok(p) => Ok(Some(p)),
                            Err(e) => Err(e),
                        }
                    } else {
                        Err(DecodeError::InconsistentLength)
                    }
                },
                Err(_) => Err(DecodeError::Zlib),
            }
        }
    }
}

/// Reads the id VarInt at `content[start]` and takes the remainder as the
/// frame's body.
fn parse_inner(content: &Vec<u8>, start: usize) -> (r: Result<RawPacket, DecodeError>)
    requires
        start <= content@.len(),
    ensures
        ({
            let s = content@.skip(start as int);
            let idlen = varint_parse_len(s);
            match r {
                Ok(p) => idlen >= 1 && p.id.0 == varint_parsed_value(s) && p.bytebuf@ == s.skip(
                    idlen,
                ),
                Err(e) => idlen <= 0 && e == DecodeError::BadVarInt,
            }
        }),
{
    let (id, idn) = match decode_varint(content, start) {
        Ok(x) => x,
        Err(_) => {
            return Err(DecodeError::BadVarInt);
        },
    };
    let clen = content.len();
    let body = copy_range(content, start + idn, clen - (start + idn));
    assert(body@ =~= content@.skip(start as int).skip(idn as int));
    Ok(RawPacket::new(id, body))
}

impl Default for PacketDecoder {
    /// A bare decoder: nothing buffered, plain layout, no cipher.
    fn default() -> (r: Self)
        ensures
            r.buffered() == Seq::<u8>::empty(),
            !r.compression(),
            !r.encrypted(),
    {
        PacketDecoder::new()
    }
}

} // verus!
