use vstd::prelude::*;

pub mod bytebuf;
pub mod compress;
pub mod connection;
pub mod crypt;
pub mod frame;
pub mod packet_decoder;
pub mod packet_encoder;
pub mod protocol;
pub mod types;
pub mod var_int;

pub use var_int::VarInt;

verus! {

/// Frames on the wire may not announce a length of 2^21 or more;
/// the largest legal frame is exactly 2^21 - 1 bytes behind its prefix.
pub const MAX_PACKET_SIZE: usize = 2097152;

/// The purpose a client declares once, in its first packet.
#[derive(Clone, Copy, PartialEq, Eq, Structural, Debug)]
pub enum ClientIntent {
    Status,
    Login,
    Transfer,
}

/// The conversational phase of a connection.
#[derive(Clone, Copy, PartialEq, Eq, Structural, Debug)]
pub enum ConnectionProtocol {
    HandShake,
    Status,
    Login,
    Config,
    Play,
}

/// The inclusive payload size up to which compressed-mode frames stay
/// stored rather than deflated.
#[derive(Clone, Copy, PartialEq, Eq, Structural, Debug)]
pub struct CompressionThreshold(pub u32);

/// A zlib compression level.
#[derive(Clone, Copy, PartialEq, Eq, Structural, Debug)]
pub struct CompressionLevel(pub i32);

/// The wire code of an intent: Status 1, Login 2, Transfer 3.
pub open spec fn intent_code(intent: ClientIntent) -> i32 {
    match intent {
        ClientIntent::Status => 1,
        ClientIntent::Login => 2,
        ClientIntent::Transfer => 3,
    }
}

impl ClientIntent {
    /// The wire code, as executable code.
    pub fn code(&self) -> (r: i32)
        ensures
            r == intent_code(*self),
    {
        match self {
            ClientIntent::Status => 1,
            ClientIntent::Login => 2,
            ClientIntent::Transfer => 3,
        }
    }
}

/// A packet that can be framed: it knows its phase-scoped id and how its
/// payload lies on the wire.
pub trait Packet: Sized {
    /// The packet's wire id within its phase.
    spec fn wire_id(&self) -> i32;

    /// The payload bytes that follow the id inside a frame.
    spec fn payload_bytes(&self) -> Seq<u8>;

    /// Whether every field fits its wire form.
    spec fn wf(&self) -> bool;

    /// The id, as executable code.
    fn packet_id(&self) -> (r: i32)
        ensures
            r == self.wire_id(),
    ;

    /// Appends exactly the payload bytes to `buf`.
    fn write(&self, buf: &mut Vec<u8>)
        requires
            self.wf(),
        ensures
            final(buf)@ == old(buf)@ + self.payload_bytes(),
    ;
}

/// A frame as pulled off the wire: its id and its undecoded payload.
#[derive(Debug)]
pub struct RawPacket {
    pub id: VarInt,
    pub bytebuf: Vec<u8>,
}

impl RawPacket {
    pub fn new(id: i32, bytebuf: Vec<u8>) -> (r: Self)
        ensures
            r.id.0 == id,
            r.bytebuf@ == bytebuf@,
    {
        RawPacket { id: VarInt(id), bytebuf }
    }

    /// A fresh copy with the same id and the same payload bytes.
    pub fn duplicate(&self) -> (r: Self)
        ensures
            r.id.0 == self.id.0,
            r.bytebuf@ == self.bytebuf@,
    {
        let bytebuf = bytebuf::copy_range(&self.bytebuf, 0, self.bytebuf.len());
        assert(bytebuf@ =~= self.bytebuf@);
        RawPacket { id: VarInt(self.id.0), bytebuf }
    }
}

impl Packet for RawPacket {
    open spec fn wire_id(&self) -> i32 {
        self.id.0
    }

    open spec fn payload_bytes(&self) -> Seq<u8> {
        self.bytebuf@
    }

    open spec fn wf(&self) -> bool {
        true
    }

    fn packet_id(&self) -> (r: i32) {
        self.id.0
    }

    fn write(&self, buf: &mut Vec<u8>) {
        let mut tail = bytebuf::copy_range(&self.bytebuf, 0, self.bytebuf.len());
        assert(tail@ =~= self.bytebuf@);
        buf.append(&mut tail);
        assert(buf@ =~= old(buf)@ + self.payload_bytes());
    }
}

} // verus!
