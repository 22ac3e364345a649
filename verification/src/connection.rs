//! The connection's state machine: one client's phase, intent, codecs and
//! inbound queue, driven by the frames that arrive and the calls the owner
//! makes. The surrounding runtime only moves bytes between the socket and
//! this state and forwards its notifications.
use vstd::prelude::*;

use std::collections::VecDeque;

use crate::bytebuf::{be_bytes, parse_string, parse_varint, prefixed_bytes, string_bytes};
use crate::compress::{zlib_deflate_of, zlib_inflate_of};
use crate::crypt::{
    cfb8_decrypt_of, cfb8_encrypt_of, random_key_16, rsa_der_key_accepted, rsa_der_key_size,
    ServerPublicKey,
};
use crate::frame::{frame_deflated, frame_plain, frame_stored, inner_bytes};
use crate::packet_decoder::PacketDecoder;
use crate::packet_encoder::PacketEncoder;
use crate::protocol::client::login::{
    parse_client_hello, parse_login_finished, LoginCompression, LoginDisconnect, LoginFinished,
};
use crate::protocol::client::login::Hello as ClientHello;
use crate::protocol::server::handshake::HandShake;
use crate::protocol::server::login::{Hello, Key, LoginAcknowledged};
use crate::types::Uuid;
use crate::var_int::{varint_bytes, varint_size};
use crate::{
    intent_code, ClientIntent, CompressionLevel, CompressionThreshold, ConnectionProtocol, Packet,
    RawPacket, MAX_PACKET_SIZE,
};

verus! {

/// What a call against the connection can fail with.
#[derive(Clone, Copy, PartialEq, Eq, Structural, Debug)]
pub enum ClientError {
    /// The host could not be resolved.
    InvalidHost,
    /// The server ended the session.
    Disconnect,
    /// An unclassified fault.
    Unknown,
    /// The intent was already declared once.
    IntentAlreadySet,
    /// The declared intent has no supported handshake.
    IntentUnsupported,
    /// No intent has been declared yet.
    IntentUnset,
    /// The declared intent does not allow this call.
    WrongIntent,
    /// A packet's payload did not parse.
    MalformedPacket,
    /// The server's key was unusable or sealing under it failed.
    CryptoFailure,
    /// The outbound frame could not be built.
    EncodeFailure,
}

/// What the owner must do after a frame was handled: write these bytes to
/// the socket, fire the login notification, log a disconnect.
#[derive(Debug)]
pub struct HandleEffect {
    /// Bytes to put on the wire now, already encrypted as needed.
    pub to_send: Vec<u8>,
    /// The login phase completed; waiters on it must wake.
    pub login_finished: bool,
    /// The server said goodbye with this reason; the connection is closed.
    pub disconnect_reason: Option<String>,
}

/// The handshake the client opens with: protocol 768 towards the
/// connection's own endpoint, carrying the declared intent.
pub open spec fn handshake_payload(host: Seq<char>, port: u16, intent: ClientIntent) -> Seq<u8> {
    varint_bytes(768) + string_bytes(host) + be_bytes(port as int, 2) + varint_bytes(
        intent_code(intent),
    )
}

/// The login request's payload for a name and a profile identity.
pub open spec fn hello_payload(name: Seq<char>, profile_id: u128) -> Seq<u8> {
    string_bytes(name) + be_bytes(profile_id as int, 16)
}

/// The key exchange's payload for the two RSA-sealed blocks.
pub open spec fn key_payload(ek: Seq<u8>, ec: Seq<u8>) -> Seq<u8> {
    prefixed_bytes(ek) + prefixed_bytes(ec)
}

/// The frame the encoder builds for (id, payload) under compression mode
/// `c`, assuming it fits.
pub open spec fn frame_for(
    c: Option<(CompressionThreshold, CompressionLevel)>,
    id: i32,
    payload: Seq<u8>,
) -> Seq<u8> {
    match c {
        None => frame_plain(id, payload),
        Some((t, lvl)) => {
            if varint_size(id) + payload.len() <= t.0 {
                frame_stored(id, payload)
            } else {
                frame_deflated(
                    id,
                    payload,
                    zlib_deflate_of(inner_bytes(id, payload), lvl.0 as int),
                )
            }
        },
    }
}

/// Whether the frame for (id, payload) under mode `c` stays within the
/// announced-length cap.
pub open spec fn frame_fits(
    c: Option<(CompressionThreshold, CompressionLevel)>,
    id: i32,
    payload: Seq<u8>,
) -> bool {
    let dl = varint_size(id) + payload.len();
    match c {
        None => dl < MAX_PACKET_SIZE,
        Some((t, lvl)) => {
            if dl <= t.0 {
                1 + dl < MAX_PACKET_SIZE
            } else {
                varint_size(dl as i32) + zlib_deflate_of(
                    inner_bytes(id, payload),
                    lvl.0 as int,
                ).len() < MAX_PACKET_SIZE
            }
        },
    }
}

/// One client-side connection: the two codec halves, the phase machine,
/// and the queue of frames awaiting a consumer.
pub struct Connection {
    pub encoder: PacketEncoder,
    pub decoder: PacketDecoder,
    pub host: String,
    pub port: u16,
    pub protocol: ConnectionProtocol,
    pub intent: Option<ClientIntent>,
    pub id: Option<Uuid>,
    pub queue: VecDeque<RawPacket>,
    pub closed: bool,
}

/// How a framing call relates the connection before and after it: the
/// modes stay, a frame that fits is framed and one that does not is
/// refused with the pending buffer untouched, and success drains the
/// buffer into the returned bytes behind the new frame, encrypted when a
/// cipher is on.
pub open spec fn sent_frame(
    pre: &Connection,
    post: &Connection,
    id: i32,
    pl: Seq<u8>,
    r: Result<Vec<u8>, ClientError>,
) -> bool {
    let c = pre.encoder.compression();
    let dl = varint_size(id) + pl.len();
    &&& post.encoder.compression() == c
    &&& post.encoder.encrypted() == pre.encoder.encrypted()
    &&& post.encoder.cipher_key() == pre.encoder.cipher_key()
    &&& r is Ok <==> frame_fits(c, id, pl)
    &&& r matches Err(e) ==> e == ClientError::EncodeFailure && post.encoder.pending()
        == pre.encoder.pending() && post.encoder.cipher_fed() == pre.encoder.cipher_fed()
    &&& r matches Ok(bytes) ==> ({
        let full = pre.encoder.pending() + frame_for(c, id, pl);
        &&& frame_fits(c, id, pl)
        &&& post.encoder.pending() == Seq::<u8>::empty()
        &&& (if pre.encoder.encrypted() {
            let k = pre.encoder.cipher_key();
            let f0 = pre.encoder.cipher_fed();
            let f1 = f0 + full;
            &&& post.encoder.cipher_fed() == f1
            &&& cfb8_encrypt_of(k, f1).len() == f1.len()
            &&& cfb8_encrypt_of(k, f1).take(f0.len() as int) == cfb8_encrypt_of(k, f0)
            &&& bytes@ == cfb8_encrypt_of(k, f1).subrange(f0.len() as int, f1.len() as int)
            &&& cfb8_decrypt_of(k, cfb8_encrypt_of(k, f1)) == f1
        } else {
            bytes@ == full && post.encoder.cipher_fed() == pre.encoder.cipher_fed()
        })
        &&& (match c {
            Some((t, lvl)) => dl > t.0 ==> zlib_inflate_of(
                zlib_deflate_of(inner_bytes(id, pl), lvl.0 as int),
            ) == Some(inner_bytes(id, pl)),
            None => true,
        })
    })
}

/// Both codecs and the whole machine state are exactly as they were.
pub open spec fn codecs_untouched(pre: &Connection, post: &Connection) -> bool {
    &&& post.encoder.pending() == pre.encoder.pending()
    &&& post.encoder.compression() == pre.encoder.compression()
    &&& post.encoder.encrypted() == pre.encoder.encrypted()
    &&& post.encoder.cipher_key() == pre.encoder.cipher_key()
    &&& post.encoder.cipher_fed() == pre.encoder.cipher_fed()
    &&& post.decoder.buffered() == pre.decoder.buffered()
    &&& post.decoder.compression() == pre.decoder.compression()
    &&& post.decoder.encrypted() == pre.decoder.encrypted()
    &&& post.decoder.cipher_key() == pre.decoder.cipher_key()
    &&& post.decoder.cipher_fed() == pre.decoder.cipher_fed()
}

/// The endpoint never changes after construction.
pub open spec fn endpoint_kept(pre: &Connection, post: &Connection) -> bool {
    post.host@ == pre.host@ && post.port == pre.port
}

/// Everything but the inbound queue is exactly as it was.
pub open spec fn untouched_but_queue(pre: &Connection, post: &Connection) -> bool {
    &&& endpoint_kept(pre, post)
    &&& post.protocol == pre.protocol
    &&& post.intent == pre.intent
    &&& post.id == pre.id
    &&& post.closed == pre.closed
    &&& codecs_untouched(pre, post)
}

impl Connection {
    /// Well-formedness: the encoder is sound, and before an intent is
    /// declared the connection is still a bare handshake-phase transport.
    pub open spec fn wf(&self) -> bool {
        &&& self.encoder.wf()
        &&& vstd::utf8::encode_utf8(self.host@).len() <= 255
        &&& self.intent is None ==> {
            &&& self.protocol == ConnectionProtocol::HandShake
            &&& self.encoder.compression() is None
            &&& !self.encoder.encrypted()
        }
    }

    pub fn new(host: String, port: u16) -> (r: Self)
        requires
            vstd::utf8::encode_utf8(host@).len() <= 255,
        ensures
            r.wf(),
            r.host@ == host@,
            r.port == port,
            r.protocol == ConnectionProtocol::HandShake,
            r.intent is None,
            r.id is None,
            !r.closed,
            r.queue@ == Seq::<RawPacket>::empty(),
            r.encoder.pending() == Seq::<u8>::empty(),
            r.encoder.compression() is None,
            !r.encoder.encrypted(),
            r.decoder.buffered() == Seq::<u8>::empty(),
            !r.decoder.compression(),
            !r.decoder.encrypted(),
    {
        Connection {
            encoder: PacketEncoder::new(),
            decoder: PacketDecoder::new(),
            host,
            port,
            protocol: ConnectionProtocol::HandShake,
            intent: None,
            id: None,
            queue: VecDeque::new(),
            closed: false,
        }
    }

    /// The current phase, as executable code.
    pub fn protocol(&self) -> (r: ConnectionProtocol)
        ensures
            r == self.protocol,
    {
        self.protocol
    }

    /// Whether the connection has closed, as executable code.
    pub fn is_closed(&self) -> (r: bool)
        ensures
            r == self.closed,
    {
        self.closed
    }

    /// The granted identity, as executable code.
    pub fn profile_id(&self) -> (r: Option<Uuid>)
        ensures
            r == self.id,
    {
        self.id
    }

    /// How many frames await a consumer.
    pub fn queue_len(&self) -> (r: usize)
        ensures
            r == self.queue@.len(),
    {
        self.queue.len()
    }

    /// Frames one packet and drains the encoder for the socket: what the
    /// write half sends for this packet, in order behind anything already
    /// pending.
    pub fn send_packet<P: Packet>(&mut self, packet: &P) -> (r: Result<Vec<u8>, ClientError>)
        requires
            old(self).wf(),
            packet.wf(),
            packet.payload_bytes().len() + 5 <= i32::MAX,
        ensures
            final(self).wf(),
            endpoint_kept(old(self), final(self)),
            final(self).protocol == old(self).protocol,
            final(self).intent == old(self).intent,
            final(self).id == old(self).id,
            final(self).closed == old(self).closed,
            final(self).queue@ == old(self).queue@,
            final(self).decoder.buffered() == old(self).decoder.buffered(),
            final(self).decoder.compression() == old(self).decoder.compression(),
            final(self).decoder.encrypted() == old(self).decoder.encrypted(),
            final(self).decoder.cipher_key() == old(self).decoder.cipher_key(),
            final(self).decoder.cipher_fed() == old(self).decoder.cipher_fed(),
            sent_frame(old(self), final(self), packet.wire_id(), packet.payload_bytes(), r),
    {
        match self.encoder.append_packet(packet) {
            Ok(()) => {},
            Err(_) => {
                return Err(ClientError::EncodeFailure);
            },
        }
        Ok(self.encoder.take())
    }

    /// Declares the intent, once: sends the handshake and enters the
    /// matching phase. A second declaration and the unsupported transfer
    /// intent are refused without any effect.
    pub fn set_intent(&mut self, intent: ClientIntent) -> (r: Result<Vec<u8>, ClientError>)
        requires
            old(self).wf(),
        ensures
            final(self).wf(),
            endpoint_kept(old(self), final(self)),
            final(self).id == old(self).id,
            final(self).closed == old(self).closed,
            final(self).queue@ == old(self).queue@,
            final(self).decoder.buffered() == old(self).decoder.buffered(),
            final(self).decoder.compression() == old(self).decoder.compression(),
            final(self).decoder.encrypted() == old(self).decoder.encrypted(),
            final(self).decoder.cipher_key() == old(self).decoder.cipher_key(),
            final(self).decoder.cipher_fed() == old(self).decoder.cipher_fed(),
            ({
                if old(self).intent is Some {
                    &&& r matches Err(e) && e == ClientError::IntentAlreadySet
                    &&& untouched_but_queue(old(self), final(self))
                } else if intent == ClientIntent::Transfer {
                    &&& r matches Err(e) && e == ClientError::IntentUnsupported
                    &&& untouched_but_queue(old(self), final(self))
                } else {
                    &&& r matches Ok(bytes) && bytes@ == old(self).encoder.pending() + frame_plain(
                        0,
                        handshake_payload(old(self).host@, old(self).port, intent),
                    )
                    &&& final(self).intent == Some(intent)
                    &&& final(self).protocol == (if intent == ClientIntent::Status {
                        ConnectionProtocol::Status
                    } else {
                        ConnectionProtocol::Login
                    })
                    &&& final(self).encoder.pending() == Seq::<u8>::empty()
                    &&& final(self).encoder.compression() is None
                    &&& !final(self).encoder.encrypted()
                }
            }),
    {
        if self.intent.is_some() {
            return Err(ClientError::IntentAlreadySet);
        }
        match intent {
            ClientIntent::Transfer => Err(ClientError::IntentUnsupported),
            _ => {
                let hs = HandShake::new(768, self.host.clone(), self.port, intent);
                proof {
                    lemma_handshake_payload_fits(self.host@, self.port, intent);
                }
                let bytes = match self.send_packet(&hs) {
                    Ok(b) => b,
                    Err(_) => {
                        proof {
                            assert(false);
                        }
                        return Err(ClientError::Unknown);
                    },
                };
                self.intent = Some(intent);
                self.protocol = match intent {
                    ClientIntent::Status => ConnectionProtocol::Status,
                    _ => ConnectionProtocol::Login,
                };
                Ok(bytes)
            },
        }
    }

    /// Sends the login request under a caller-chosen profile identity.
    /// Valid only once the intent was declared as login.
    pub fn attempt_login_with(&mut self, name: &str, profile_id: Uuid) -> (r: Result<
        Vec<u8>,
        ClientError,
    >)
        requires
            old(self).wf(),
            vstd::utf8::encode_utf8(name@).len() <= 16,
        ensures
            final(self).wf(),
            endpoint_kept(old(self), final(self)),
            final(self).protocol == old(self).protocol,
            final(self).intent == old(self).intent,
            final(self).id == old(self).id,
            final(self).closed == old(self).closed,
            final(self).queue@ == old(self).queue@,
            final(self).decoder.buffered() == old(self).decoder.buffered(),
            final(self).decoder.compression() == old(self).decoder.compression(),
            final(self).decoder.encrypted() == old(self).decoder.encrypted(),
            final(self).decoder.cipher_key() == old(self).decoder.cipher_key(),
            final(self).decoder.cipher_fed() == old(self).decoder.cipher_fed(),
            ({
                match old(self).intent {
                    None => r matches Err(e) && e == ClientError::IntentUnset
                        && untouched_but_queue(old(self), final(self)),
                    Some(ClientIntent::Login) => sent_frame(
                        old(self),
                        final(self),
                        0,
                        hello_payload(name@, profile_id.0),
                        r,
                    ),
                    Some(_) => r matches Err(e) && e == ClientError::WrongIntent
                        && untouched_but_queue(old(self), final(self)),
                }
            }),
    {
        match self.intent {
            None => Err(ClientError::IntentUnset),
            Some(ClientIntent::Login) => {
                let hello = Hello::new(name.to_owned(), profile_id);
                proof {
                    crate::var_int::lemma_varint_bytes_u_len(
                        (vstd::utf8::encode_utf8(name@).len() as i32) as u32,
                    );
                    crate::bytebuf::lemma_be_bytes_len(profile_id.0 as int, 16);
                }
                self.send_packet(&hello)
            },
            Some(_) => Err(ClientError::WrongIntent),
        }
    }

    /// Sends the login request under a freshly drawn random identity that
    /// carries the version nibble 4 in its seventh byte and the variant
    /// bits in its ninth.
    pub fn attempt_login(&mut self, name: &str) -> (r: Result<Vec<u8>, ClientError>)
        requires
            old(self).wf(),
            vstd::utf8::encode_utf8(name@).len() <= 16,
        ensures
            final(self).wf(),
            endpoint_kept(old(self), final(self)),
            final(self).protocol == old(self).protocol,
            final(self).intent == old(self).intent,
            final(self).id == old(self).id,
            final(self).closed == old(self).closed,
            final(self).queue@ == old(self).queue@,
            final(self).decoder.buffered() == old(self).decoder.buffered(),
            final(self).decoder.compression() == old(self).decoder.compression(),
            final(self).decoder.encrypted() == old(self).decoder.encrypted(),
            final(self).decoder.cipher_key() == old(self).decoder.cipher_key(),
            final(self).decoder.cipher_fed() == old(self).decoder.cipher_fed(),
            ({
                match old(self).intent {
                    None => r matches Err(e) && e == ClientError::IntentUnset
                        && untouched_but_queue(old(self), final(self)),
                    Some(ClientIntent::Login) => exists|u: u128|
                        {
                            &&& be_bytes(u as int, 16).len() == 16
                            &&& be_bytes(u as int, 16)[6] / 16 == 4
                            &&& be_bytes(u as int, 16)[8] / 64 == 2
                            &&& sent_frame(
                                old(self),
                                final(self),
                                0,
                                #[trigger] hello_payload(name@, u),
                                r,
                            )
                        },
                    Some(_) => r matches Err(e) && e == ClientError::WrongIntent
                        && untouched_but_queue(old(self), final(self)),
                }
            }),
    {
        let seed = random_key_16();
        let profile_id = v4_uuid_from(&seed);
        self.attempt_login_with(name, Uuid(profile_id))
    }

    /// Records the close; nothing else moves, and a second call changes
    /// nothing at all. The runtime wakes the close waiters after each call.
    pub fn close(&mut self)
        ensures
            endpoint_kept(old(self), final(self)),
            final(self).closed,
            final(self).protocol == old(self).protocol,
            final(self).intent == old(self).intent,
            final(self).id == old(self).id,
            final(self).queue@ == old(self).queue@,
            codecs_untouched(old(self), final(self)),
            old(self).closed ==> *final(self) == *old(self),
    {
        if !self.closed {
            self.closed = true;
        }
    }

    /// Hands out the oldest queued frame, if any.
    pub fn peek_packet(&mut self) -> (r: Option<RawPacket>)
        ensures
            endpoint_kept(old(self), final(self)),
            final(self).protocol == old(self).protocol,
            final(self).intent == old(self).intent,
            final(self).id == old(self).id,
            final(self).closed == old(self).closed,
            codecs_untouched(old(self), final(self)),
            old(self).queue@.len() == 0 ==> r is None && final(self).queue@ == old(self).queue@,
            old(self).queue@.len() > 0 ==> (r matches Some(p) && p == old(self).queue@.first()
                && final(self).queue@ == old(self).queue@.drop_first()),
    {
        self.queue.pop_front()
    }

    /// Applies one decoded frame to the state machine.
    ///
    /// Whatever the frame, it joins the back of the queue for consumers.
    /// During login: an encryption request installs matching ciphers on
    /// both halves around the sealed key exchange it answers; a compression
    /// order switches both halves to the compressed layout at the given
    /// threshold; a login success records the identity, answers with the
    /// acknowledgement, and moves to the configuration phase; a disconnect
    /// closes. Unknown ids and quiet phases change nothing further.
    pub fn handle_packet(&mut self, packet: &RawPacket) -> (r: Result<HandleEffect, ClientError>)
        requires
            old(self).wf(),
        ensures
            final(self).wf(),
            endpoint_kept(old(self), final(self)),
            final(self).intent == old(self).intent,
            final(self).decoder.buffered() == old(self).decoder.buffered(),
            final(self).queue@.len() == old(self).queue@.len() + 1,
            final(self).queue@.take(old(self).queue@.len() as int) == old(self).queue@,
            final(self).queue@.last().id.0 == packet.id.0,
            final(self).queue@.last().bytebuf@ == packet.bytebuf@,
            ({
                let body = packet.bytebuf@;
                let pre = old(self);
                if pre.protocol == ConnectionProtocol::Login && packet.id.0 == 1 {
                    match parse_client_hello(body) {
                        Some(parts) => {
                            if !rsa_der_key_accepted(parts.1) {
                                &&& r matches Err(e) && e == ClientError::CryptoFailure
                                &&& final(self).closed
                                &&& final(self).protocol == pre.protocol
                                &&& final(self).id == pre.id
                                &&& codecs_untouched(pre, final(self))
                            } else if pre.encoder.encrypted() || pre.decoder.encrypted() {
                                &&& r matches Err(e) && e == ClientError::Unknown
                                &&& untouched_but_queue(pre, final(self))
                            } else {
                                let size = rsa_der_key_size(parts.1);
                                let sealable = 27 <= size && parts.2.len() + 11 <= size;
                                &&& r matches Err(e) ==> e == ClientError::CryptoFailure || e
                                    == ClientError::EncodeFailure
                                &&& (r == Result::<HandleEffect, ClientError>::Err(ClientError::CryptoFailure))
                                    <==> !sealable
                                &&& !sealable ==> ({
                                    &&& final(self).closed
                                    &&& final(self).protocol == pre.protocol
                                    &&& final(self).id == pre.id
                                    &&& final(self).decoder.encrypted()
                                    &&& !final(self).encoder.encrypted()
                                    &&& final(self).encoder.pending() == pre.encoder.pending()
                                })
                                &&& sealable && pre.encoder.compression() is None ==> r is Ok
                                &&& r matches Err(e) ==> (e == ClientError::EncodeFailure ==> ({
                                    &&& final(self).closed == pre.closed
                                    &&& final(self).encoder.pending() == pre.encoder.pending()
                                    &&& !final(self).encoder.encrypted()
                                    &&& final(self).decoder.encrypted()
                                }))
                                &&& r matches Ok(eff) ==> ({
                                    &&& !eff.login_finished
                                    &&& eff.disconnect_reason is None
                                    &&& final(self).protocol == pre.protocol
                                    &&& final(self).closed == pre.closed
                                    &&& final(self).id == pre.id
                                    &&& final(self).decoder.buffered() == pre.decoder.buffered()
                                    &&& final(self).decoder.compression() == pre.decoder.compression()
                                    &&& final(self).encoder.compression() == pre.encoder.compression()
                                    &&& final(self).decoder.encrypted()
                                    &&& final(self).encoder.encrypted()
                                    &&& final(self).encoder.cipher_key() == final(self).decoder.cipher_key()
                                    &&& final(self).decoder.cipher_key().len() == 16
                                    &&& final(self).decoder.cipher_fed() == Seq::<u8>::empty()
                                    &&& final(self).encoder.cipher_fed() == Seq::<u8>::empty()
                                    &&& final(self).encoder.pending() == Seq::<u8>::empty()
                                    &&& exists|ek: Seq<u8>, ec: Seq<u8>| {
                                        &&& ek.len() == size
                                        &&& ec.len() == size
                                        &&& eff.to_send@ == pre.encoder.pending() + frame_for(
                                            pre.encoder.compression(),
                                            1,
                                            #[trigger] key_payload(ek, ec),
                                        )
                                    }
                                })
                            }
                        },
                        None => r matches Err(e) && e == ClientError::MalformedPacket
                            && untouched_but_queue(pre, final(self)),
                    }
                } else if pre.protocol == ConnectionProtocol::Login && packet.id.0 == 3 {
                    match parse_varint(body) {
                        Some((t, n)) => {
                            &&& r matches Ok(eff) && !eff.login_finished && eff.disconnect_reason
                                is None && eff.to_send@ == Seq::<u8>::empty()
                            &&& final(self).decoder.compression() == true
                            &&& final(self).encoder.compression() == Some(
                                (CompressionThreshold(t as u32), CompressionLevel(6)),
                            )
                            &&& final(self).protocol == pre.protocol
                            &&& final(self).id == pre.id
                            &&& final(self).closed == pre.closed
                            &&& final(self).encoder.pending() == pre.encoder.pending()
                            &&& final(self).encoder.encrypted() == pre.encoder.encrypted()
                            &&& final(self).encoder.cipher_key() == pre.encoder.cipher_key()
                            &&& final(self).encoder.cipher_fed() == pre.encoder.cipher_fed()
                            &&& final(self).decoder.encrypted() == pre.decoder.encrypted()
                            &&& final(self).decoder.cipher_key() == pre.decoder.cipher_key()
                            &&& final(self).decoder.cipher_fed() == pre.decoder.cipher_fed()
                        },
                        None => r matches Err(e) && e == ClientError::MalformedPacket
                            && untouched_but_queue(pre, final(self)),
                    }
                } else if pre.protocol == ConnectionProtocol::Login && packet.id.0 == 2 {
                    match parse_login_finished(body) {
                        Some((uuid, name, ps)) => {
                            &&& final(self).id == Some(Uuid(uuid))
                            &&& final(self).closed == pre.closed
                            &&& final(self).decoder.compression() == pre.decoder.compression()
                            &&& final(self).decoder.encrypted() == pre.decoder.encrypted()
                            &&& final(self).decoder.cipher_key() == pre.decoder.cipher_key()
                            &&& final(self).decoder.cipher_fed() == pre.decoder.cipher_fed()
                            &&& sent_frame(
                                pre,
                                final(self),
                                3,
                                Seq::<u8>::empty(),
                                match r {
                                    Ok(eff) => Ok(eff.to_send),
                                    Err(e) => Err(e),
                                },
                            )
                            &&& r matches Ok(eff) ==> ({
                                &&& eff.login_finished
                                &&& eff.disconnect_reason is None
                                &&& final(self).protocol == ConnectionProtocol::Config
                            })
                            &&& r matches Err(e) ==> e == ClientError::EncodeFailure && final(self).protocol == pre.protocol
                        },
                        None => r matches Err(e) && e == ClientError::MalformedPacket
                            && untouched_but_queue(pre, final(self)),
                    }
                } else if pre.protocol == ConnectionProtocol::Login && packet.id.0 == 0 {
                    match parse_string(body) {
                        Some((reason, n)) => {
                            &&& r matches Ok(eff) && !eff.login_finished && eff.to_send@
                                == Seq::<u8>::empty() && (eff.disconnect_reason matches Some(m)
                                && m@ == reason)
                            &&& final(self).closed
                            &&& final(self).protocol == pre.protocol
                            &&& final(self).id == pre.id
                            &&& codecs_untouched(pre, final(self))
                        },
                        None => r matches Err(e) && e == ClientError::MalformedPacket
                            && untouched_but_queue(pre, final(self)),
                    }
                } else {
                    &&& r matches Ok(eff) && !eff.login_finished && eff.disconnect_reason is None
                        && eff.to_send@ == Seq::<u8>::empty()
                    &&& untouched_but_queue(pre, final(self))
                }
            }),
    {
        let dup = packet.duplicate();
        self.queue.push_back(dup);
        proof {
            assert(self.queue@.take(old(self).queue@.len() as int) =~= old(self).queue@);
        }
        match self.protocol {
            ConnectionProtocol::Login => {
                let pid = packet.id.0;
                if pid == 1 {
                    self.on_encryption_request(packet)
                } else if pid == 3 {
                    self.on_login_compression(packet)
                } else if pid == 2 {
                    self.on_login_finished(packet)
                } else if pid == 0 {
                    self.on_login_disconnect(packet)
                } else {
                    Ok(no_effect())
                }
            },
            _ => Ok(no_effect()),
        }
    }
}

/// An effect that asks nothing of the runtime.
fn no_effect() -> (r: HandleEffect)
    ensures
        r.to_send@ == Seq::<u8>::empty(),
        !r.login_finished,
        r.disconnect_reason is None,
{
    HandleEffect { to_send: Vec::new(), login_finished: false, disconnect_reason: None }
}

/// A handshake towards any host of at most 255 UTF-8 bytes fits an
/// uncompressed frame.
proof fn lemma_handshake_payload_fits(host: Seq<char>, port: u16, intent: ClientIntent)
    requires
        vstd::utf8::encode_utf8(host).len() <= 255,
    ensures
        varint_size(0) + handshake_payload(host, port, intent).len() < MAX_PACKET_SIZE,
{
    crate::var_int::lemma_varint_bytes_u_len(0);
    crate::var_int::lemma_varint_bytes_u_len(768);
    crate::var_int::lemma_varint_bytes_u_len(
        (vstd::utf8::encode_utf8(host).len() as i32) as u32,
    );
    crate::var_int::lemma_varint_bytes_u_len(intent_code(intent) as u32);
    crate::bytebuf::lemma_be_bytes_len(port as int, 2);
}

/// Builds a version-4 identity from sixteen random bytes: the seventh
/// byte's high nibble becomes 4 and the ninth's high bits become the
/// variant, the rest pass through.
fn v4_uuid_from(seed: &[u8; 16]) -> (r: u128)
    ensures
        be_bytes(r as int, 16).len() == 16,
        be_bytes(r as int, 16)[6] / 16 == 4,
        be_bytes(r as int, 16)[8] / 64 == 2,
{
    let mut v: Vec<u8> = Vec::new();
    let mut i: usize = 0;
    while i < 16
        invariant
            i <= 16,
            v@.len() == i,
            i > 6 ==> v@[6] / 16 == 4,
            i > 8 ==> v@[8] / 64 == 2,
        decreases 16 - i,
    {
        let b = seed[i];
        let b = if i == 6 {
            b % 16 + 64
        } else if i == 8 {
            b % 64 + 128
        } else {
            b
        };
        v.push(b);
        i = i + 1;
    }
    let r = crate::bytebuf::read_be_bytes(&v, 0, 16);
    proof {
        assert(v@.subrange(0, 16) =~= v@);
    }
    #[verifier::truncate]
    let r = r as u128;
    r
}

impl Connection {
    /// The login-phase encryption request: parse it, seal a fresh key and
    /// the echoed challenge under the server's public key, answer, and
    /// only then turn the outbound cipher on; sealing fails exactly when
    /// the modulus cannot carry the key or the challenge.
    fn on_encryption_request(&mut self, packet: &RawPacket) -> (r: Result<
        HandleEffect,
        ClientError,
    >)
        requires
            old(self).wf(),
            old(self).protocol == ConnectionProtocol::Login,
        ensures
            final(self).wf(),
            endpoint_kept(old(self), final(self)),
            final(self).intent == old(self).intent,
            final(self).queue@ == old(self).queue@,
            final(self).decoder.buffered() == old(self).decoder.buffered(),
            ({
                let body = packet.bytebuf@;
                let pre = old(self);
                match parse_client_hello(body) {
                    Some(parts) => {
                        if !rsa_der_key_accepted(parts.1) {
                            &&& r matches Err(e) && e == ClientError::CryptoFailure
                            &&& final(self).closed
                            &&& final(self).protocol == pre.protocol
                            &&& final(self).id == pre.id
                            &&& codecs_untouched(pre, final(self))
                        } else if pre.encoder.encrypted() || pre.decoder.encrypted() {
                            &&& r matches Err(e) && e == ClientError::Unknown
                            &&& untouched_but_queue(pre, final(self))
                        } else {
                            let size = rsa_der_key_size(parts.1);
                            let sealable = 27 <= size && parts.2.len() + 11 <= size;
                            &&& r matches Err(e) ==> e == ClientError::CryptoFailure || e
                                == ClientError::EncodeFailure
                            &&& (r == Result::<HandleEffect, ClientError>::Err(ClientError::CryptoFailure))
                                <==> !sealable
                            &&& !sealable ==> ({
                                &&& final(self).closed
                                &&& final(self).protocol == pre.protocol
                                &&& final(self).id == pre.id
                                &&& final(self).decoder.encrypted()
                                &&& !final(self).encoder.encrypted()
                                &&& final(self).encoder.pending() == pre.encoder.pending()
                            })
                            &&& sealable && pre.encoder.compression() is None ==> r is Ok
                            &&& r matches Err(e) ==> (e == ClientError::EncodeFailure ==> ({
                                &&& final(self).closed == pre.closed
                                &&& final(self).encoder.pending() == pre.encoder.pending()
                                &&& !final(self).encoder.encrypted()
                                &&& final(self).decoder.encrypted()
                            }))
                            &&& r matches Ok(eff) ==> ({
                                &&& !eff.login_finished
                                &&& eff.disconnect_reason is None
                                &&& final(self).protocol == pre.protocol
                                &&& final(self).closed == pre.closed
                                &&& final(self).id == pre.id
                                &&& final(self).decoder.buffered() == pre.decoder.buffered()
                                &&& final(self).decoder.compression() == pre.decoder.compression()
                                &&& final(self).encoder.compression() == pre.encoder.compression()
                                &&& final(self).decoder.encrypted()
                                &&& final(self).encoder.encrypted()
                                &&& final(self).encoder.cipher_key() == final(self).decoder.cipher_key()
                                &&& final(self).decoder.cipher_key().len() == 16
                                &&& final(self).decoder.cipher_fed() == Seq::<u8>::empty()
                                &&& final(self).encoder.cipher_fed() == Seq::<u8>::empty()
                                &&& final(self).encoder.pending() == Seq::<u8>::empty()
                                &&& exists|ek: Seq<u8>, ec: Seq<u8>| {
                                    &&& ek.len() == size
                                    &&& ec.len() == size
                                    &&& eff.to_send@ == pre.encoder.pending() + frame_for(
                                        pre.encoder.compression(),
                                        1,
                                        #[trigger] key_payload(ek, ec),
                                    )
                                }
                            })
                        }
                    },
                    None => r matches Err(e) && e == ClientError::MalformedPacket
                        && untouched_but_queue(pre, final(self)),
                }
            }),
    {
        let hello = match ClientHello::read(&packet.bytebuf) {
            Ok(h) => h,
            Err(_) => {
                return Err(ClientError::MalformedPacket);
            },
        };
        let public_key = match ServerPublicKey::from_der(&hello.public_key.inner) {
            Some(k) => k,
            None => {
                self.closed = true;
                return Err(ClientError::CryptoFailure);
            },
        };
        if self.encoder.is_encrypted() || self.decoder.is_encrypted() {
            return Err(ClientError::Unknown);
        }
        let symmetric_key = random_key_16();
        self.decoder.set_encryption(Some(&symmetric_key));
        let mut key_vec: Vec<u8> = Vec::new();
        let mut i: usize = 0;
        while i < 16
            invariant
                i <= 16,
                key_vec@.len() == i,
            decreases 16 - i,
        {
            key_vec.push(symmetric_key[i]);
            i = i + 1;
        }
        let encrypted_key = match public_key.encrypt(&key_vec) {
            Some(b) => b,
            None => {
                self.closed = true;
                return Err(ClientError::CryptoFailure);
            },
        };
        let encrypted_challenge = match public_key.encrypt(&hello.challenge.inner) {
            Some(b) => b,
            None => {
                self.closed = true;
                return Err(ClientError::CryptoFailure);
            },
        };
        let ghost ek = encrypted_key@;
        let ghost ec = encrypted_challenge@;
        proof {
            crate::var_int::lemma_varint_bytes_u_len((ek.len() as i32) as u32);
            crate::var_int::lemma_varint_bytes_u_len((ec.len() as i32) as u32);
            crate::var_int::lemma_varint_bytes_u_len(1);
        }
        let key_packet = Key::new(encrypted_key, encrypted_challenge);
        let bytes = match self.send_packet(&key_packet) {
            Ok(b) => b,
            Err(_) => {
                return Err(ClientError::EncodeFailure);
            },
        };
        self.encoder.set_encryption(Some(&symmetric_key));
        proof {
            assert(bytes@ == old(self).encoder.pending() + frame_for(
                old(self).encoder.compression(),
                1,
                key_payload(ek, ec),
            ));
        }
        Ok(HandleEffect { to_send: bytes, login_finished: false, disconnect_reason: None })
    }

    /// The login-phase compression order: switch both halves over.
    fn on_login_compression(&mut self, packet: &RawPacket) -> (r: Result<
        HandleEffect,
        ClientError,
    >)
        requires
            old(self).wf(),
            old(self).protocol == ConnectionProtocol::Login,
        ensures
            final(self).wf(),
            endpoint_kept(old(self), final(self)),
            final(self).intent == old(self).intent,
            final(self).queue@ == old(self).queue@,
            final(self).decoder.buffered() == old(self).decoder.buffered(),
            ({
                let pre = old(self);
                match parse_varint(packet.bytebuf@) {
                    Some((t, n)) => {
                        &&& r matches Ok(eff) && !eff.login_finished && eff.disconnect_reason
                            is None && eff.to_send@ == Seq::<u8>::empty()
                        &&& final(self).decoder.compression() == true
                        &&& final(self).encoder.compression() == Some(
                            (CompressionThreshold(t as u32), CompressionLevel(6)),
                        )
                        &&& final(self).protocol == pre.protocol
                        &&& final(self).id == pre.id
                        &&& final(self).closed == pre.closed
                        &&& final(self).encoder.pending() == pre.encoder.pending()
                        &&& final(self).encoder.encrypted() == pre.encoder.encrypted()
                        &&& final(self).encoder.cipher_key() == pre.encoder.cipher_key()
                        &&& final(self).encoder.cipher_fed() == pre.encoder.cipher_fed()
                        &&& final(self).decoder.encrypted() == pre.decoder.encrypted()
                        &&& final(self).decoder.cipher_key() == pre.decoder.cipher_key()
                        &&& final(self).decoder.cipher_fed() == pre.decoder.cipher_fed()
                    },
                    None => r matches Err(e) && e == ClientError::MalformedPacket
                        && untouched_but_queue(pre, final(self)),
                }
            }),
    {
        let order = match LoginCompression::read(&packet.bytebuf) {
            Ok(p) => p,
            Err(_) => {
                return Err(ClientError::MalformedPacket);
            },
        };
        self.decoder.set_compression(true);
        #[verifier::truncate]
        let threshold = order.compression_threshold.0 as u32;
        match self.encoder.set_compression(
            Some((CompressionThreshold(threshold), CompressionLevel(6))),
        ) {
            Ok(()) => Ok(no_effect()),
            Err(_) => {
                proof {
                    assert(false);
                }
                Err(ClientError::Unknown)
            },
        }
    }

    /// The login success: record the identity, acknowledge, and enter the
    /// configuration phase.
    fn on_login_finished(&mut self, packet: &RawPacket) -> (r: Result<HandleEffect, ClientError>)
        requires
            old(self).wf(),
            old(self).protocol == ConnectionProtocol::Login,
        ensures
            final(self).wf(),
            endpoint_kept(old(self), final(self)),
            final(self).intent == old(self).intent,
            final(self).queue@ == old(self).queue@,
            final(self).decoder.buffered() == old(self).decoder.buffered(),
            ({
                let pre = old(self);
                match parse_login_finished(packet.bytebuf@) {
                    Some((uuid, name, ps)) => {
                        &&& final(self).id == Some(Uuid(uuid))
                        &&& final(self).closed == pre.closed
                        &&& final(self).decoder.compression() == pre.decoder.compression()
                        &&& final(self).decoder.encrypted() == pre.decoder.encrypted()
                        &&& final(self).decoder.cipher_key() == pre.decoder.cipher_key()
                        &&& final(self).decoder.cipher_fed() == pre.decoder.cipher_fed()
                        &&& sent_frame(
                            pre,
                            final(self),
                            3,
                            Seq::<u8>::empty(),
                            match r {
                                Ok(eff) => Ok(eff.to_send),
                                Err(e) => Err(e),
                            },
                        )
                        &&& r matches Ok(eff) ==> ({
                            &&& eff.login_finished
                            &&& eff.disconnect_reason is None
                            &&& final(self).protocol == ConnectionProtocol::Config
                        })
                        &&& r matches Err(e) ==> e == ClientError::EncodeFailure && final(self).protocol == pre.protocol
                    },
                    None => r matches Err(e) && e == ClientError::MalformedPacket
                        && untouched_but_queue(pre, final(self)),
                }
            }),
    {
        let finished = match LoginFinished::read(&packet.bytebuf) {
            Ok(p) => p,
            Err(_) => {
                return Err(ClientError::MalformedPacket);
            },
        };
        self.id = Some(finished.id);
        let ack = LoginAcknowledged::new();
        let bytes = match self.send_packet(&ack) {
            Ok(b) => b,
            Err(_) => {
                return Err(ClientError::EncodeFailure);
            },
        };
        self.protocol = ConnectionProtocol::Config;
        Ok(HandleEffect { to_send: bytes, login_finished: true, disconnect_reason: None })
    }

    /// The server's goodbye: close and surface the reason.
    fn on_login_disconnect(&mut self, packet: &RawPacket) -> (r: Result<HandleEffect, ClientError>)
        requires
            old(self).wf(),
            old(self).protocol == ConnectionProtocol::Login,
        ensures
            final(self).wf(),
            endpoint_kept(old(self), final(self)),
            final(self).intent == old(self).intent,
            final(self).queue@ == old(self).queue@,
            final(self).decoder.buffered() == old(self).decoder.buffered(),
            ({
                let pre = old(self);
                match parse_string(packet.bytebuf@) {
                    Some((reason, n)) => {
                        &&& r matches Ok(eff) && !eff.login_finished && eff.to_send@
                            == Seq::<u8>::empty() && (eff.disconnect_reason matches Some(m) && m@
                            == reason)
                        &&& final(self).closed
                        &&& final(self).protocol == pre.protocol
                        &&& final(self).id == pre.id
                        &&& codecs_untouched(pre, final(self))
                    },
                    None => r matches Err(e) && e == ClientError::MalformedPacket
                        && untouched_but_queue(pre, final(self)),
                }
            }),
    {
        let goodbye = match LoginDisconnect::read(&packet.bytebuf) {
            Ok(p) => p,
            Err(_) => {
                return Err(ClientError::MalformedPacket);
            },
        };
        self.closed = true;
        Ok(
            HandleEffect {
                to_send: Vec::new(),
                login_finished: false,
                disconnect_reason: Some(goodbye.reason),
            },
        )
    }
}

} // verus!
