//! The outbound half of the transport: frames packets, optionally behind
//! zlib compression and AES-128/CFB8 stream encryption.
use vstd::prelude::*;

use crate::compress::{
    zlib_compress, zlib_deflate_of, zlib_inflate_of, MAX_COMPRESSION_LEVEL, MIN_COMPRESSION_LEVEL,
};
use crate::crypt::{cfb8_decrypt_of, cfb8_encrypt_of, StreamEncryptor};
use crate::frame::{frame_deflated, frame_plain, frame_stored, inner_bytes};
use crate::var_int::{encode_varint, lemma_varint_bytes_u_len, varint_size, VarInt};
use crate::{CompressionLevel, CompressionThreshold, Packet, MAX_PACKET_SIZE};

verus! {

/// The compression level handed to `set_compression` is outside the range
/// the compressor accepts.
#[derive(Clone, Copy, PartialEq, Eq, Structural, Debug)]
pub struct CompressionLevelError;

/// Why a packet could not be framed.
#[derive(Debug)]
pub enum PacketEncodeError {
    /// The frame would announce a length of 2^21 or more; the offending
    /// length is carried along.
    TooLong(usize),
    /// The compressor refused the content; with the output buffer sized by
    /// the compressor's own bound this never happens.
    CompressionFailed(String),
}

/// Frames outbound packets into a pending buffer that `take` drains,
/// encrypting on the way out once a cipher is installed.
pub struct PacketEncoder {
    buf: Vec<u8>,
    cipher: Option<StreamEncryptor>,
    compression: Option<(CompressionThreshold, CompressionLevel)>,
}

impl PacketEncoder {
    /// Well-formedness: an installed compression level lies in the
    /// compressor's range; `set_compression` refuses any other.
    pub closed spec fn wf(&self) -> bool {
        match self.compression {
            Some((t, lvl)) => MIN_COMPRESSION_LEVEL <= lvl.0 <= MAX_COMPRESSION_LEVEL,
            None => true,
        }
    }

    /// The framed bytes waiting for the next `take`, still in the clear.
    pub closed spec fn pending(&self) -> Seq<u8> {
        self.buf@
    }

    /// The compression setting, if one is installed.
    pub closed spec fn compression(&self) -> Option<(CompressionThreshold, CompressionLevel)> {
        self.compression
    }

    /// Whether a stream cipher is installed.
    pub closed spec fn encrypted(&self) -> bool {
        self.cipher is Some
    }

    /// The installed cipher's key; empty when none is installed.
    pub closed spec fn cipher_key(&self) -> Seq<u8> {
        match self.cipher {
            Some(c) => c.key(),
            None => Seq::empty(),
        }
    }

    /// Every plaintext byte the installed cipher has transformed so far.
    pub closed spec fn cipher_fed(&self) -> Seq<u8> {
        match self.cipher {
            Some(c) => c.fed(),
            None => Seq::empty(),
        }
    }

    /// Whether a stream cipher is installed, as executable code.
    pub fn is_encrypted(&self) -> (r: bool)
        ensures
            r == self.encrypted(),
    {
        self.cipher.is_some()
    }

    pub fn new() -> (r: Self)
        ensures
            r.wf(),
            r.pending() == Seq::<u8>::empty(),
            r.compression() is None,
            !r.encrypted(),
    {
        PacketEncoder { buf: Vec::new(), cipher: None, compression: None }
    }

    /// Installs the cipher keyed and IV'd by `key`, or removes it. A cipher
    /// may only be installed while none is, and removed while one is.
    pub fn set_encryption(&mut self, key: Option<&[u8; 16]>)
        requires
            old(self).wf(),
            key is Some <==> !old(self).encrypted(),
        ensures
            final(self).wf(),
            final(self).pending() == old(self).pending(),
            final(self).compression() == old(self).compression(),
            final(self).encrypted() == key is Some,
            key matches Some(k) ==> final(self).cipher_key() == k@ && final(self).cipher_fed()
                == Seq::<u8>::empty(),
    {
        match key {
            Some(k) => {
                self.cipher = Some(StreamEncryptor::new(k));
            },
            None => {
                self.cipher = None;
            },
        }
    }

    /// Installs or removes compression. A level outside the compressor's
    /// range is refused and nothing changes.
    pub fn set_compression(
        &mut self,
        compression: Option<(CompressionThreshold, CompressionLevel)>,
    ) -> (r: Result<(), CompressionLevelError>)
        requires
            old(self).wf(),
        ensures
            final(self).wf(),
            final(self).pending() == old(self).pending(),
            final(self).encrypted() == old(self).encrypted(),
            final(self).cipher_key() == old(self).cipher_key(),
            final(self).cipher_fed() == old(self).cipher_fed(),
            ({
                match compression {
                    Some((t, lvl)) => {
                        if MIN_COMPRESSION_LEVEL <= lvl.0 <= MAX_COMPRESSION_LEVEL {
                            r is Ok && final(self).compression() == compression
                        } else {
                            r is Err && final(self).compression() == old(self).compression()
                        }
                    },
                    None => r is Ok && final(self).compression() is None,
                }
            }),
    {
        match compression {
            Some((threshold, level)) => {
                if MIN_COMPRESSION_LEVEL <= level.0 && level.0 <= MAX_COMPRESSION_LEVEL {
                    self.compression = Some((threshold, level));
                    Ok(())
                } else {
                    Err(CompressionLevelError)
                }
            },
            None => {
                self.compression = None;
                Ok(())
            },
        }
    }

    /// Frames one packet into the pending buffer.
    ///
    /// Without compression the frame is the plain layout, refused as
    /// `TooLong` when its content reaches 2^21 bytes. With compression,
    /// content up to the threshold takes the stored layout; larger content
    /// is deflated, and the frame is refused as `TooLong` when the framed
    /// result still reaches 2^21 bytes. A refused packet leaves the
    /// encoder exactly as it was; on no other account does framing fail.
    pub fn append_packet<P: Packet>(&mut self, packet: &P) -> (r: Result<(), PacketEncodeError>)
        requires
            old(self).wf(),
            packet.wf(),
            packet.payload_bytes().len() + 5 <= i32::MAX,
        ensures
            final(self).wf(),
            final(self).compression() == old(self).compression(),
            final(self).encrypted() == old(self).encrypted(),
            final(self).cipher_key() == old(self).cipher_key(),
            final(self).cipher_fed() == old(self).cipher_fed(),
            ({
                let id = packet.wire_id();
                let pl = packet.payload_bytes();
                let dl = varint_size(id) + pl.len();
                match old(self).compression() {
                    None => {
                        if dl < MAX_PACKET_SIZE {
                            &&& r is Ok
                            &&& final(self).pending() == old(self).pending() + frame_plain(id, pl)
                        } else {
                            &&& r matches Err(PacketEncodeError::TooLong(n)) && n == dl
                            &&& final(self).pending() == old(self).pending()
                        }
                    },
                    Some((t, lvl)) => {
                        if dl <= t.0 {
                            if 1 + dl < MAX_PACKET_SIZE {
                                &&& r is Ok
                                &&& final(self).pending() == old(self).pending() + frame_stored(
                                    id,
                                    pl,
                                )
                            } else {
                                &&& r matches Err(PacketEncodeError::TooLong(n)) && n == 1 + dl
                                &&& final(self).pending() == old(self).pending()
                            }
                        } else {
                            let z = zlib_deflate_of(inner_bytes(id, pl), lvl.0 as int);
                            if varint_size(dl as i32) + z.len() < MAX_PACKET_SIZE {
                                &&& r is Ok
                                &&& zlib_inflate_of(z) == Some(inner_bytes(id, pl))
                                &&& final(self).pending() == old(self).pending() + frame_deflated(
                                    id,
                                    pl,
                                    z,
                                )
                            } else {
                                &&& r matches Err(PacketEncodeError::TooLong(n))
                                &&& n >= MAX_PACKET_SIZE
                                &&& varint_size(dl as i32) + z.len() <= usize::MAX ==> n
                                    == varint_size(dl as i32) + z.len()
                                &&& final(self).pending() == old(self).pending()
                            }
                        }
                    },
                }
            }),
    {
        let ghost id = packet.wire_id();
        let ghost pl = packet.payload_bytes();
        let mut inner: Vec<u8> = Vec::new();
        encode_varint(packet.packet_id(), &mut inner);
        packet.write(&mut inner);
        assert(inner@ =~= inner_bytes(id, pl));
        let data_len = inner.len();
        let compression = self.compression;
        match compression {
            None => {
                if data_len >= MAX_PACKET_SIZE {
                    return Err(PacketEncodeError::TooLong(data_len));
                }
                encode_varint(data_len as i32, &mut self.buf);
                self.buf.append(&mut inner);
                assert(self.buf@ =~= old(self).pending() + frame_plain(id, pl));
                Ok(())
            },
            Some((threshold, level)) => {
                if data_len as u64 <= threshold.0 as u64 {
                    if 1 + data_len >= MAX_PACKET_SIZE {
                        return Err(PacketEncodeError::TooLong(1 + data_len));
                    }
                    encode_varint((1 + data_len) as i32, &mut self.buf);
                    encode_varint(0, &mut self.buf);
                    self.buf.append(&mut inner);
                    assert(self.buf@ =~= old(self).pending() + frame_stored(id, pl));
                    Ok(())
                } else {
                    let mut z = zlib_compress(&inner, level.0).unwrap();
                    let dl_size = VarInt(data_len as i32).written_size();
                    proof {
                        lemma_varint_bytes_u_len(data_len as i32 as u32);
                    }
                    let zl = z.len();
                    if zl >= MAX_PACKET_SIZE {
                        let n = if zl <= usize::MAX - dl_size {
                            zl + dl_size
                        } else {
                            zl
                        };
                        return Err(PacketEncodeError::TooLong(n));
                    }
                    if dl_size + zl >= MAX_PACKET_SIZE {
                        return Err(PacketEncodeError::TooLong(dl_size + zl));
                    }
                    encode_varint((dl_size + zl) as i32, &mut self.buf);
                    encode_varint(data_len as i32, &mut self.buf);
                    self.buf.append(&mut z);
                    assert(self.buf@ =~= old(self).pending() + frame_deflated(
                        id,
                        pl,
                        zlib_deflate_of(inner_bytes(id, pl), level.0 as int),
                    ));
                    Ok(())
                }
            },
        }
    }

    /// Drains the pending buffer for the socket. With a cipher installed
    /// the drained bytes continue the ciphertext stream; what was already
    /// emitted never changes, and decryption under the same key recovers
    /// the whole plaintext stream.
    pub fn take(&mut self) -> (r: Vec<u8>)
        requires
            old(self).wf(),
        ensures
            final(self).wf(),
            final(self).pending() == Seq::<u8>::empty(),
            final(self).compression() == old(self).compression(),
            final(self).encrypted() == old(self).encrypted(),
            final(self).cipher_key() == old(self).cipher_key(),
            !old(self).encrypted() ==> r@ == old(self).pending() && final(self).cipher_fed() == old(
                self,
            ).cipher_fed(),
            old(self).encrypted() ==> ({
                let k = old(self).cipher_key();
                let f0 = old(self).cipher_fed();
                let f1 = f0 + old(self).pending();
                &&& final(self).cipher_fed() == f1
                &&& cfb8_encrypt_of(k, f1).len() == f1.len()
                &&& cfb8_encrypt_of(k, f1).take(f0.len() as int) == cfb8_encrypt_of(k, f0)
                &&& r@ == cfb8_encrypt_of(k, f1).subrange(f0.len() as int, f1.len() as int)
                &&& cfb8_decrypt_of(k, cfb8_encrypt_of(k, f1)) == f1
            }),
    {
        match &mut self.cipher {
            Some(c) => {
                c.apply(&mut self.buf);
            },
            None => {},
        }
        let mut out: Vec<u8> = Vec::new();
        core::mem::swap(&mut out, &mut self.buf);
        out
    }
}

impl Default for PacketEncoder {
    /// A bare encoder: nothing pending, no compression, no cipher.
    fn default() -> (r: Self)
        ensures
            r.wf(),
            r.pending() == Seq::<u8>::empty(),
            r.compression() is None,
            !r.encrypted(),
    {
        PacketEncoder::new()
    }
}

} // verus!
