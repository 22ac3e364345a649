//! The protocol's variable-width integer: a signed 32-bit value carried in
//! one to five bytes, least-significant group first, with the high bit of
//! each byte marking a continuation.
use vstd::prelude::*;

verus! {

/// A signed 32-bit integer with the protocol's base-128 wire encoding.
#[derive(Clone, Copy, PartialEq, Eq, Structural, Debug)]
pub struct VarInt(pub i32);

/// 128 raised to the `k`-th power.
pub open spec fn pow128(k: int) -> int
    decreases k,
{
    if k <= 0 {
        1
    } else {
        128 * pow128(k - 1)
    }
}

/// The wire bytes of the two's-complement value `n`: groups of seven bits,
/// least significant first, the high bit set on every byte but the last.
pub open spec fn varint_bytes_u(n: u32) -> Seq<u8>
    decreases n,
{
    if n < 128 {
        seq![n as u8]
    } else {
        seq![(n % 128 + 128) as u8] + varint_bytes_u(n / 128)
    }
}

/// The wire bytes of a signed value: those of its two's-complement image.
pub open spec fn varint_bytes(v: i32) -> Seq<u8> {
    varint_bytes_u(v as u32)
}

/// How many bytes the encoding of `v` occupies.
pub open spec fn varint_size(v: i32) -> int {
    varint_bytes(v).len() as int
}

/// Scans for the first byte with a clear high bit, spending one unit of
/// `fuel` per byte. Returns the number of bytes the encoding occupies,
/// `0` if the sequence ran out first (incomplete), or `-1` if the fuel
/// ran out first (the encoding would be too long).
pub open spec fn varint_scan(s: Seq<u8>, fuel: int) -> int
    decreases fuel,
{
    if fuel <= 0 {
        -1
    } else if s.len() == 0 {
        0
    } else if s[0] < 128 {
        1
    } else {
        let r = varint_scan(s.drop_first(), fuel - 1);
        if r > 0 {
            r + 1
        } else {
            r
        }
    }
}

/// Outcome of parsing a VarInt at the front of `s`: the byte count if an
/// encoding is complete, `0` if more bytes are needed, `-1` if a sixth
/// continuation byte would be required.
pub open spec fn varint_parse_len(s: Seq<u8>) -> int {
    varint_scan(s, 5)
}

pub open spec fn varint_parse_ok(s: Seq<u8>) -> bool {
    varint_parse_len(s) >= 1
}

pub open spec fn varint_incomplete(s: Seq<u8>) -> bool {
    varint_parse_len(s) == 0
}

pub open spec fn varint_too_large(s: Seq<u8>) -> bool {
    varint_parse_len(s) == -1
}

/// The unbounded value carried by the first `len` bytes of `s`:
/// each byte contributes its low seven bits at the next position.
pub open spec fn varint_value_rec(s: Seq<u8>, len: int) -> int
    decreases len,
{
    if len <= 0 {
        0
    } else {
        (s[0] % 128) + 128 * varint_value_rec(s.drop_first(), len - 1)
    }
}

/// The decoded value: the carried value truncated to 32 bits and read as
/// a two's-complement signed integer.
pub open spec fn varint_parsed_value(s: Seq<u8>) -> i32 {
    ((varint_value_rec(s, varint_parse_len(s)) as u32) as i32)
}

/// Why a VarInt could not be decoded.
#[derive(Clone, Copy, PartialEq, Eq, Structural, Debug)]
pub enum VarIntError {
    /// The buffer ended before a byte with a clear high bit.
    Incomplete,
    /// A sixth continuation byte appeared.
    TooLarge,
}

/// The first few powers of 128, spelled out for the solver.
proof fn lemma_pow128_values()
    ensures
        pow128(0) == 1,
        pow128(1) == 128,
        pow128(2) == 0x4000,
        pow128(3) == 0x20_0000,
        pow128(4) == 0x1000_0000,
        pow128(5) == 0x8_0000_0000,
{
    assert(pow128(0) == 1);
    assert(pow128(1) == 128);
    assert(pow128(2) == 0x4000);
    assert(pow128(3) == 0x20_0000);
    assert(pow128(4) == 0x1000_0000);
    assert(pow128(5) == 0x8_0000_0000);
}

/// The encoding of a value below `pow128(k)` takes at most `k` bytes.
proof fn lemma_varint_bytes_u_len_bounded(n: u32, k: int)
    requires
        1 <= k,
        n < pow128(k),
    ensures
        varint_bytes_u(n).len() <= k,
    decreases k,
{
    if n >= 128 {
        assert(n / 128 < pow128(k - 1)) by {
            assert(pow128(k) == 128 * pow128(k - 1));
            assert(n < 128 * pow128(k - 1));
        }
        lemma_varint_bytes_u_len_bounded(n / 128, k - 1);
    }
}

/// The encoding never exceeds five bytes and never vanishes.
pub proof fn lemma_varint_bytes_u_len(n: u32)
    ensures
        1 <= varint_bytes_u(n).len() <= 5,
    decreases n,
{
    lemma_pow128_values();
    lemma_varint_bytes_u_len_bounded(n, 5);
    if n >= 128 {
        lemma_varint_bytes_u_len(n / 128);
    }
}

/// The carried value of `len` bytes stays below `pow128(len)`.
proof fn lemma_varint_value_rec_bounded(s: Seq<u8>, len: int)
    ensures
        0 <= varint_value_rec(s, len) < pow128(len),
    decreases len,
{
    if len > 0 {
        lemma_varint_value_rec_bounded(s.drop_first(), len - 1);
    }
}

impl VarInt {
    /// How many bytes `self` occupies on the wire.
    pub fn written_size(&self) -> (r: usize)
        ensures
            r == varint_size(self.0),
    {
        proof {
            lemma_varint_bytes_u_len(self.0 as u32);
        }
        let mut n: u32 = self.0 as u32;
        let mut size: usize = 1;
        while n >= 128
            invariant
                size + varint_bytes_u(n).len() == 1 + varint_bytes_u(self.0 as u32).len(),
                varint_bytes_u(self.0 as u32).len() <= 5,
                1 <= varint_bytes_u(n).len(),
            decreases n,
        {
            proof {
                lemma_varint_bytes_u_len(n / 128);
            }
            n = n / 128;
            size = size + 1;
        }
        size
    }
}

/// Appends the encoding of the unsigned image `n` to `buf`.
fn encode_varint_u(n: u32, buf: &mut Vec<u8>)
    ensures
        final(buf)@ == old(buf)@ + varint_bytes_u(n),
    decreases n,
{
    if n < 128 {
        buf.push(n as u8);
        assert(buf@ =~= old(buf)@ + varint_bytes_u(n));
    } else {
        buf.push((n % 128 + 128) as u8);
        encode_varint_u(n / 128, buf);
        assert(buf@ =~= old(buf)@ + varint_bytes_u(n));
    }
}

/// Appends the one- to five-byte encoding of `v` to `buf`.
pub fn encode_varint(v: i32, buf: &mut Vec<u8>)
    ensures
        final(buf)@ == old(buf)@ + varint_bytes(v),
        1 <= varint_bytes(v).len() <= 5,
{
    proof {
        lemma_varint_bytes_u_len(v as u32);
    }
    encode_varint_u(v as u32, buf);
}

proof fn lemma_varint_round_trip_u(n: u32, rest: Seq<u8>, fuel: int)
    requires
        varint_bytes_u(n).len() <= fuel <= 5,
    ensures
        varint_scan(varint_bytes_u(n) + rest, fuel) == varint_bytes_u(n).len(),
        varint_value_rec(varint_bytes_u(n) + rest, varint_bytes_u(n).len() as int) == n,
    decreases n,
{
    let s = varint_bytes_u(n) + rest;
    if n < 128 {
        assert(s[0] == n as u8);
        assert(varint_value_rec(s.drop_first(), 0) == 0);
        assert(varint_value_rec(s, 1) == n as u8 % 128);
    } else {
        let tail = varint_bytes_u(n / 128);
        assert(s[0] == (n % 128 + 128) as u8);
        assert(s.drop_first() =~= tail + rest);
        lemma_varint_bytes_u_len(n / 128);
        lemma_varint_round_trip_u(n / 128, rest, fuel - 1);
        assert(varint_scan(s, fuel) == tail.len() + 1);
        assert(varint_value_rec(s, tail.len() as int + 1) == (n % 128 + 128) as u8 % 128 + 128
            * varint_value_rec(s.drop_first(), tail.len() as int));
        assert((n % 128 + 128) as u8 % 128 == n % 128);
    }
}

proof fn lemma_i32_u32_round_trip(v: i32)
    ensures
        ((v as u32) as i32) == v,
{
    assert(((v as u32) as i32) == v) by (bit_vector);
}

/// Round trip: with any suffix behind it, the encoding of `v` parses back
/// to `v` and occupies exactly `varint_size(v)` bytes, between one and five.
pub proof fn lemma_varint_round_trip(v: i32, rest: Seq<u8>)
    ensures
        varint_parse_len(varint_bytes(v) + rest) == varint_size(v),
        1 <= varint_size(v) <= 5,
        varint_parsed_value(varint_bytes(v) + rest) == v,
{
    lemma_varint_bytes_u_len(v as u32);
    lemma_varint_round_trip_u(v as u32, rest, 5);
    lemma_i32_u32_round_trip(v);
}

/// Reads the value starting at `buf[pos]` with `fuel` bytes of budget left,
/// mirroring `varint_scan` and `varint_value_rec`.
fn decode_varint_rec(buf: &Vec<u8>, pos: usize, fuel: usize) -> (r: Result<
    (u64, usize),
    VarIntError,
>)
    requires
        pos <= buf@.len(),
        fuel <= 5,
    ensures
        ({
            let s = buf@.skip(pos as int);
            let scan = varint_scan(s, fuel as int);
            match r {
                Ok((value, len)) => {
                    &&& scan == len
                    &&& 1 <= len <= fuel
                    &&& pos + len <= buf@.len()
                    &&& value == varint_value_rec(s, len as int)
                },
                Err(VarIntError::Incomplete) => scan == 0,
                Err(VarIntError::TooLarge) => scan == -1,
            }
        }),
    decreases fuel,
{
    let ghost s = buf@.skip(pos as int);
    if fuel == 0 {
        return Err(VarIntError::TooLarge);
    }
    if pos >= buf.len() {
        assert(s.len() == 0);
        return Err(VarIntError::Incomplete);
    }
    let b = buf[pos];
    assert(s[0] == b);
    if b < 128 {
        assert(varint_value_rec(s.drop_first(), 0) == 0);
        assert(varint_value_rec(s, 1) == b % 128);
        Ok((b as u64, 1))
    } else {
        assert(s.drop_first() =~= buf@.skip(pos + 1));
        match decode_varint_rec(buf, pos + 1, fuel - 1) {
            Ok((value, len)) => {
                proof {
                    lemma_varint_value_rec_bounded(s.drop_first(), len as int);
                    lemma_pow128_values();
                }
                let total: u64 = (b % 128) as u64 + 128 * value;
                Ok((total, len + 1))
            },
            Err(e) => Err(e),
        }
    }
}

/// Decodes one VarInt starting at `buf[pos]`. On success the result pairs
/// the value with the number of bytes it occupied.
pub fn decode_varint(buf: &Vec<u8>, pos: usize) -> (r: Result<(i32, usize), VarIntError>)
    requires
        pos <= buf@.len(),
    ensures
        ({
            let s = buf@.skip(pos as int);
            match r {
                Ok((value, len)) => {
                    &&& varint_parse_ok(s)
                    &&& len == varint_parse_len(s)
                    &&& 1 <= len <= 5
                    &&& pos + len <= buf@.len()
                    &&& value == varint_parsed_value(s)
                },
                Err(VarIntError::Incomplete) => varint_incomplete(s),
                Err(VarIntError::TooLarge) => varint_too_large(s),
            }
        }),
{
    match decode_varint_rec(buf, pos, 5) {
        Ok((value, len)) => {
            #[verifier::truncate]
            let v: i32 = (value as u32) as i32;
            Ok((v, len))
        },
        Err(e) => Err(e),
    }
}

} // verus!
