//! Byte-level primitives shared by every packet: big-endian integers,
//! booleans, length-prefixed strings and byte blocks.
use vstd::prelude::*;

use crate::var_int::{
    decode_varint, encode_varint, varint_bytes, varint_parse_len, varint_parse_ok,
    varint_parsed_value, VarIntError,
};

verus! {

/// 256 raised to the `k`-th power.
pub open spec fn pow256(k: int) -> int
    decreases k,
{
    if k <= 0 {
        1
    } else {
        256 * pow256(k - 1)
    }
}

/// The value `x`, assumed non-negative and below `pow256(n)`, written as
/// `n` bytes, most significant first.
pub open spec fn be_bytes(x: int, n: int) -> Seq<u8>
    decreases n,
{
    if n <= 0 {
        Seq::empty()
    } else {
        be_bytes(x / 256, n - 1) + seq![(x % 256) as u8]
    }
}

pub proof fn lemma_be_bytes_len(x: int, n: int)
    requires
        n >= 0,
    ensures
        be_bytes(x, n).len() == n,
    decreases n,
{
    if n > 0 {
        lemma_be_bytes_len(x / 256, n - 1);
    }
}

/// A truthy byte; the protocol writes `1` for true and `0` for false.
pub open spec fn bool_byte(b: bool) -> u8 {
    if b {
        1
    } else {
        0
    }
}

/// A length-prefixed UTF-8 string: the byte length as a VarInt, then the bytes.
pub open spec fn string_bytes(s: Seq<char>) -> Seq<u8>
    recommends
        vstd::utf8::encode_utf8(s).len() <= i32::MAX,
{
    varint_bytes(vstd::utf8::encode_utf8(s).len() as i32) + vstd::utf8::encode_utf8(s)
}

/// A length-prefixed byte block: the count as a VarInt, then the bytes.
pub open spec fn prefixed_bytes(b: Seq<u8>) -> Seq<u8>
    recommends
        b.len() <= i32::MAX,
{
    varint_bytes(b.len() as i32) + b
}

/// Appends `x` as `n` big-endian bytes.
pub fn write_be_bytes(buf: &mut Vec<u8>, x: u128, n: usize)
    requires
        n <= 16,
    ensures
        final(buf)@ == old(buf)@ + be_bytes(x as int, n as int),
    decreases n,
{
    if n > 0 {
        write_be_bytes(buf, x / 256, n - 1);
        buf.push((x % 256) as u8);
        assert(buf@ =~= old(buf)@ + be_bytes(x as int, n as int));
    } else {
        assert(buf@ =~= old(buf)@ + be_bytes(x as int, 0));
    }
}

proof fn lemma_pow256_values()
    ensures
        pow256(0) == 1,
        pow256(1) == 0x100,
        pow256(2) == 0x1_0000,
        pow256(8) == 0x1_0000_0000_0000_0000,
        pow256(16) == 0x1_0000_0000_0000_0000_0000_0000_0000_0000,
{
    assert(pow256(0) == 1);
    assert(pow256(1) == 0x100);
    assert(pow256(2) == 0x1_0000);
    assert(pow256(3) == 0x100_0000);
    assert(pow256(4) == 0x1_0000_0000);
    assert(pow256(5) == 0x100_0000_0000);
    assert(pow256(6) == 0x1_0000_0000_0000);
    assert(pow256(7) == 0x100_0000_0000_0000);
    assert(pow256(8) == 0x1_0000_0000_0000_0000);
    assert(pow256(9) == 0x100_0000_0000_0000_0000);
    assert(pow256(10) == 0x1_0000_0000_0000_0000_0000);
    assert(pow256(11) == 0x100_0000_0000_0000_0000_0000);
    assert(pow256(12) == 0x1_0000_0000_0000_0000_0000_0000);
    assert(pow256(13) == 0x100_0000_0000_0000_0000_0000_0000);
    assert(pow256(14) == 0x1_0000_0000_0000_0000_0000_0000_0000);
    assert(pow256(15) == 0x100_0000_0000_0000_0000_0000_0000_0000);
    assert(pow256(16) == 0x1_0000_0000_0000_0000_0000_0000_0000_0000);
}

/// Reads `n` big-endian bytes starting at `pos` as one value. The result
/// is the unique value those bytes spell.
pub fn read_be_bytes(buf: &Vec<u8>, pos: usize, n: usize) -> (r: u128)
    requires
        pos + n <= buf@.len(),
        n <= 16,
    ensures
        r < pow256(n as int),
        be_bytes(r as int, n as int) == buf@.subrange(pos as int, pos + n),
    decreases n,
{
    proof {
        lemma_pow256_values();
    }
    let blen = buf.len();
    if n == 0 {
        assert(be_bytes(0, 0) =~= buf@.subrange(pos as int, pos as int));
        0
    } else {
        let hi = read_be_bytes(buf, pos, n - 1);
        let b = buf[pos + (n - 1)];
        proof {
            lemma_pow256_step(hi as int, n as int);
            lemma_pow256_mono(n as int, 16);
        }
        let r: u128 = hi * 256 + b as u128;
        proof {
            assert(r as int / 256 == hi as int && r as int % 256 == b as int) by (nonlinear_arith)
                requires
                    r == hi * 256 + b,
                    0 <= b < 256,
                    hi >= 0,
            ;
            assert(be_bytes(r as int, n as int) =~= buf@.subrange(pos as int, pos + n));
        }
        r
    }
}

proof fn lemma_pow256_step(hi: int, n: int)
    requires
        n >= 1,
        0 <= hi < pow256(n - 1),
    ensures
        256 * hi + 256 <= 256 * pow256(n - 1) == pow256(n),
{
}

proof fn lemma_pow256_pos(k: int)
    ensures
        pow256(k) >= 1,
    decreases k,
{
    if k > 0 {
        lemma_pow256_pos(k - 1);
    }
}

proof fn lemma_pow256_mono(a: int, b: int)
    requires
        0 <= a <= b,
    ensures
        pow256(a) <= pow256(b),
    decreases b - a,
{
    if a < b {
        lemma_pow256_mono(a, b - 1);
        lemma_pow256_pos(b - 1);
        assert(pow256(b) == 256 * pow256(b - 1));
    }
}

/// The value that `s` spells in big-endian.
pub open spec fn be_value(s: Seq<u8>) -> int
    decreases s.len(),
{
    if s.len() == 0 {
        0
    } else {
        be_value(s.drop_last()) * 256 + s.last()
    }
}

/// A big-endian reading always stays below `pow256` of its width.
pub proof fn lemma_be_value_bound(s: Seq<u8>)
    ensures
        0 <= be_value(s) < pow256(s.len() as int),
    decreases s.len(),
{
    if s.len() > 0 {
        lemma_be_value_bound(s.drop_last());
    }
}

/// Reading back the bytes that `x` was written as yields `x`.
pub proof fn lemma_be_value_of_bytes(x: int, n: int)
    requires
        n >= 0,
        0 <= x < pow256(n),
    ensures
        be_value(be_bytes(x, n)) == x,
    decreases n,
{
    if n > 0 {
        assert(x / 256 < pow256(n - 1)) by {
            assert(pow256(n) == 256 * pow256(n - 1));
        }
        lemma_be_value_of_bytes(x / 256, n - 1);
        lemma_be_bytes_len(x / 256, n - 1);
        assert((be_bytes(x / 256, n - 1) + seq![(x % 256) as u8]).drop_last() =~= be_bytes(
            x / 256,
            n - 1,
        ));
    }
}

/// Appends one byte for a boolean.
pub fn write_bool(buf: &mut Vec<u8>, b: bool)
    ensures
        final(buf)@ == old(buf)@ + seq![bool_byte(b)],
{
    if b {
        buf.push(1);
    } else {
        buf.push(0);
    }
    assert(buf@ =~= old(buf)@ + seq![bool_byte(b)]);
}

/// Appends the UTF-8 bytes of `s` behind their VarInt byte count.
pub fn write_string(buf: &mut Vec<u8>, s: &str)
    requires
        vstd::utf8::encode_utf8(s@).len() <= i32::MAX,
    ensures
        final(buf)@ == old(buf)@ + string_bytes(s@),
{
    let mut b = s.as_bytes_vec();
    encode_varint(b.len() as i32, buf);
    buf.append(&mut b);
    assert(buf@ =~= old(buf)@ + string_bytes(s@));
}

/// Appends the bytes of `b` behind their VarInt count.
pub fn write_prefixed_bytes(buf: &mut Vec<u8>, b: &Vec<u8>)
    requires
        b@.len() <= i32::MAX,
    ensures
        final(buf)@ == old(buf)@ + prefixed_bytes(b@),
{
    encode_varint(b.len() as i32, buf);
    let mut tail = copy_range(b, 0, b.len());
    assert(tail@ =~= b@);
    buf.append(&mut tail);
    assert(buf@ =~= old(buf)@ + prefixed_bytes(b@));
}

/// Copies `buf[pos .. pos + n]` into a fresh vector.
pub fn copy_range(buf: &Vec<u8>, pos: usize, n: usize) -> (r: Vec<u8>)
    requires
        pos + n <= buf@.len(),
    ensures
        r@ == buf@.subrange(pos as int, pos + n),
{
    let blen = buf.len();
    let mut r: Vec<u8> = Vec::new();
    let mut i: usize = 0;
    while i < n
        invariant
            pos + n <= blen == buf@.len(),
            i <= n,
            r@ =~= buf@.subrange(pos as int, pos + i),
        decreases n - i,
    {
        r.push(buf[pos + i]);
        i = i + 1;
        assert(r@ =~= buf@.subrange(pos as int, pos + i));
    }
    r
}

/// How a read can fail: the payload ended early or a field is malformed.
#[derive(Clone, Copy, PartialEq, Eq, Structural, Debug)]
pub enum ReadError {
    /// The buffer ended inside a field.
    Incomplete,
    /// A field's bytes do not form a legal value.
    Malformed,
}

/// A VarInt at `s[0..]`, as the value and the bytes consumed.
pub open spec fn parse_varint(s: Seq<u8>) -> Option<(i32, int)> {
    if varint_parse_ok(s) {
        Some((varint_parsed_value(s), varint_parse_len(s)))
    } else {
        None
    }
}

/// A length-prefixed UTF-8 string at `s[0..]`, as its characters and the
/// bytes consumed; `None` when the prefix, the length or the bytes are bad.
pub open spec fn parse_string(s: Seq<u8>) -> Option<(Seq<char>, int)> {
    match parse_varint(s) {
        Some((l, n)) => {
            if l >= 0 && n + l <= s.len() && vstd::utf8::valid_utf8(s.subrange(n, n + l)) {
                Some((vstd::utf8::decode_utf8(s.subrange(n, n + l)), n + l))
            } else {
                None
            }
        },
        None => None,
    }
}

/// A length-prefixed byte block at `s[0..]`, as its bytes and the bytes
/// consumed.
pub open spec fn parse_prefixed_bytes(s: Seq<u8>) -> Option<(Seq<u8>, int)> {
    match parse_varint(s) {
        Some((l, n)) => {
            if l >= 0 && n + l <= s.len() {
                Some((s.subrange(n, n + l), n + l))
            } else {
                None
            }
        },
        None => None,
    }
}

/// Reads a VarInt at `buf[pos]`; any failure counts as `Malformed` or
/// `Incomplete` exactly as `parse_varint` distinguishes them.
pub fn read_varint(buf: &Vec<u8>, pos: usize) -> (r: Result<(i32, usize), ReadError>)
    requires
        pos <= buf@.len(),
    ensures
        ({
            let s = buf@.skip(pos as int);
            match r {
                Ok((v, n)) => parse_varint(s) == Some((v, n as int)) && pos + n <= buf@.len() && 1
                    <= n <= 5,
                Err(_) => parse_varint(s) is None,
            }
        }),
{
    match decode_varint(buf, pos) {
        Ok((v, n)) => Ok((v, n)),
        Err(VarIntError::Incomplete) => Err(ReadError::Incomplete),
        Err(VarIntError::TooLarge) => Err(ReadError::Malformed),
    }
}

/// Relies on String::from_utf8: it succeeds exactly on valid UTF-8 and
/// yields the string whose bytes are the input.
#[verifier::external_body]
fn string_from_utf8(b: Vec<u8>) -> (r: Option<String>)
    ensures
        r is Some <==> vstd::utf8::valid_utf8(b@),
        r matches Some(s) ==> vstd::utf8::encode_utf8(s@) == b@,
{
    String::from_utf8(b).ok()
}

/// Turns bytes into the string they spell, when they are valid UTF-8.
pub fn bytes_to_string(b: Vec<u8>) -> (r: Option<String>)
    ensures
        r is Some <==> vstd::utf8::valid_utf8(b@),
        r matches Some(s) ==> s@ == vstd::utf8::decode_utf8(b@) && vstd::utf8::encode_utf8(s@)
            == b@,
{
    match string_from_utf8(b) {
        Some(s) => {
            proof {
                vstd::utf8::encode_utf8_decode_utf8(s@);
            }
            Some(s)
        },
        None => None,
    }
}

/// Reads a length-prefixed UTF-8 string at `buf[pos]`.
pub fn read_string(buf: &Vec<u8>, pos: usize) -> (r: Result<(String, usize), ReadError>)
    requires
        pos <= buf@.len(),
    ensures
        ({
            let s = buf@.skip(pos as int);
            match r {
                Ok((v, n)) => {
                    &&& parse_string(s) matches Some((chars, consumed))
                    &&& v@ == chars
                    &&& n == consumed
                    &&& pos + n <= buf@.len()
                },
                Err(_) => parse_string(s) is None,
            }
        }),
{
    let ghost s = buf@.skip(pos as int);
    let (l, n) = match read_varint(buf, pos) {
        Ok(x) => x,
        Err(e) => {
            return Err(e);
        },
    };
    if l < 0 {
        return Err(ReadError::Malformed);
    }
    let l = l as usize;
    if l > buf.len() - (pos + n) {
        return Err(ReadError::Incomplete);
    }
    let bytes = copy_range(buf, pos + n, l);
    assert(bytes@ =~= s.subrange(n as int, n + l));
    match string_from_utf8(bytes) {
        Some(v) => {
            proof {
                vstd::utf8::encode_utf8_decode_utf8(v@);
            }
            assert(v@ == vstd::utf8::decode_utf8(s.subrange(n as int, n + l)));
            Ok((v, n + l))
        },
        None => Err(ReadError::Malformed),
    }
}

/// Reads a length-prefixed byte block at `buf[pos]`.
pub fn read_prefixed_bytes(buf: &Vec<u8>, pos: usize) -> (r: Result<(Vec<u8>, usize), ReadError>)
    requires
        pos <= buf@.len(),
    ensures
        ({
            let s = buf@.skip(pos as int);
            match r {
                Ok((v, n)) => {
                    &&& parse_prefixed_bytes(s) matches Some((bytes, consumed))
                    &&& v@ == bytes
                    &&& n == consumed
                    &&& pos + n <= buf@.len()
                },
                Err(_) => parse_prefixed_bytes(s) is None,
            }
        }),
{
    let ghost s = buf@.skip(pos as int);
    let (l, n) = match read_varint(buf, pos) {
        Ok(x) => x,
        Err(e) => {
            return Err(e);
        },
    };
    if l < 0 {
        return Err(ReadError::Malformed);
    }
    let l = l as usize;
    if l > buf.len() - (pos + n) {
        return Err(ReadError::Incomplete);
    }
    let bytes = copy_range(buf, pos + n, l);
    assert(bytes@ =~= s.subrange(n as int, n + l));
    Ok((bytes, n + l))
}

/// Reads one boolean byte at `buf[pos]`; any nonzero byte is true.
pub fn read_bool(buf: &Vec<u8>, pos: usize) -> (r: Result<(bool, usize), ReadError>)
    requires
        pos <= buf@.len(),
    ensures
        ({
            let s = buf@.skip(pos as int);
            match r {
                Ok((v, n)) => s.len() >= 1 && v == (s[0] != 0) && n == 1,
                Err(_) => s.len() == 0,
            }
        }),
{
    if pos >= buf.len() {
        return Err(ReadError::Incomplete);
    }
    let b = buf[pos];
    Ok((b != 0, 1))
}

} // verus!
