//! Wire-level value types shared by several packets.
use vstd::prelude::*;

use crate::bytebuf::{
    parse_prefixed_bytes, prefixed_bytes, read_prefixed_bytes, write_prefixed_bytes, ReadError,
};

verus! {

/// A length-prefixed block of bytes.
#[derive(Debug)]
pub struct Binary {
    pub inner: Vec<u8>,
}

impl Binary {
    pub fn new(v: Vec<u8>) -> (r: Self)
        ensures
            r.inner@ == v@,
    {
        Binary { inner: v }
    }
}

/// A 128-bit identity, carried on the wire as sixteen big-endian bytes.
#[derive(Clone, Copy, PartialEq, Eq, Structural, Debug)]
pub struct Uuid(pub u128);

/// One entry of a profile's property list; the value and signature are
/// base64 text as far as this layer cares.
#[derive(Debug)]
pub struct Property {
    pub name: String,
    pub value: String,
    pub signature: Option<String>,
}

/// A profile's property list, counted on the wire by a VarInt.
#[derive(Debug)]
pub struct PropertyMap {
    inner: Vec<Property>,
}

impl PropertyMap {
    pub fn new(inner: Vec<Property>) -> (r: Self)
        ensures
            r.properties() == inner@,
    {
        PropertyMap { inner }
    }

    /// The entries, in wire order.
    pub closed spec fn properties(&self) -> Seq<Property> {
        self.inner@
    }

    /// The entry at `i`.
    pub fn get(&self, i: usize) -> (r: &Property)
        requires
            i < self.properties().len(),
        ensures
            *r == self.properties()[i as int],
    {
        &self.inner[i]
    }

    /// How many entries the list holds.
    pub fn len(&self) -> (r: usize)
        ensures
            r == self.properties().len(),
    {
        self.inner.len()
    }
}

/// A namespaced resource name, written on the wire as one string with a
/// colon between its parts.
#[derive(Debug)]
pub struct Identifier {
    pub namespace: String,
    pub path: String,
}

/// An identifier's wire bytes: one length-prefixed string holding the
/// namespace, a colon, and the path.
pub open spec fn identifier_bytes(namespace: Seq<char>, path: Seq<char>) -> Seq<u8> {
    prefixed_bytes(
        vstd::utf8::encode_utf8(namespace) + seq![58u8] + vstd::utf8::encode_utf8(path),
    )
}

/// The position of the first colon in `b`, or `-1` when there is none.
pub open spec fn first_colon(b: Seq<u8>) -> int
    decreases b.len(),
{
    if b.len() == 0 {
        -1
    } else if b[0] == 58 {
        0
    } else {
        let r = first_colon(b.drop_first());
        if r < 0 {
            -1
        } else {
            r + 1
        }
    }
}

/// The position of the first colon byte, if any.
fn find_colon(b: &Vec<u8>) -> (r: Option<usize>)
    ensures
        match r {
            Some(i) => i < b@.len() && b@[i as int] == 58 && forall|k: int|
                0 <= k < i ==> b@[k] != 58,
            None => forall|k: int| 0 <= k < b@.len() ==> b@[k] != 58,
        },
{
    let mut i: usize = 0;
    let n = b.len();
    while i < n
        invariant
            i <= n == b@.len(),
            forall|k: int| 0 <= k < i ==> b@[k] != 58,
        decreases n - i,
    {
        if b[i] == 58 {
            return Some(i);
        }
        i = i + 1;
    }
    None
}

/// The first colon stands exactly where a colon stands behind none.
proof fn lemma_first_colon_at(b: Seq<u8>, i: int)
    requires
        0 <= i < b.len(),
        b[i] == 58,
        forall|k: int| 0 <= k < i ==> b[k] != 58,
    ensures
        first_colon(b) == i,
    decreases i,
{
    if i > 0 {
        lemma_first_colon_at(b.drop_first(), i - 1);
    }
}

/// Without any colon there is no first one.
proof fn lemma_first_colon_none(b: Seq<u8>)
    requires
        forall|k: int| 0 <= k < b.len() ==> b[k] != 58,
    ensures
        first_colon(b) == -1,
    decreases b.len(),
{
    if b.len() > 0 {
        lemma_first_colon_none(b.drop_first());
    }
}

/// An identifier at `s[0..]`: the prefixed string split at its first
/// colon, both halves read as UTF-8.
pub open spec fn parse_identifier(s: Seq<u8>) -> Option<((Seq<char>, Seq<char>), int)> {
    match parse_prefixed_bytes(s) {
        Some((b, n)) => {
            let i = first_colon(b);
            if i < 0 {
                None
            } else {
                let ns = b.subrange(0, i);
                let path = b.subrange(i + 1, b.len() as int);
                if vstd::utf8::valid_utf8(ns) && vstd::utf8::valid_utf8(path) {
                    Some(((vstd::utf8::decode_utf8(ns), vstd::utf8::decode_utf8(path)), n))
                } else {
                    None
                }
            }
        },
        None => None,
    }
}

impl Identifier {
    pub fn new(namespace: String, path: String) -> (r: Self)
        ensures
            r.namespace@ == namespace@,
            r.path@ == path@,
    {
        Identifier { namespace, path }
    }

    /// Appends the identifier as one prefixed `namespace:path` string.
    pub fn write(&self, buf: &mut Vec<u8>)
        requires
            vstd::utf8::encode_utf8(self.namespace@).len() + 1 + vstd::utf8::encode_utf8(
                self.path@,
            ).len() <= i32::MAX,
        ensures
            final(buf)@ == old(buf)@ + identifier_bytes(self.namespace@, self.path@),
    {
        let mut joined = self.namespace.as_str().as_bytes_vec();
        joined.push(58);
        let mut tail = self.path.as_str().as_bytes_vec();
        joined.append(&mut tail);
        assert(joined@ =~= vstd::utf8::encode_utf8(self.namespace@) + seq![58u8]
            + vstd::utf8::encode_utf8(self.path@));
        write_prefixed_bytes(buf, &joined);
    }

    /// Reads an identifier at `buf[pos]`; a missing colon or broken UTF-8
    /// is malformed.
    pub fn read(buf: &Vec<u8>, pos: usize) -> (r: Result<(Self, usize), ReadError>)
        requires
            pos <= buf@.len(),
        ensures
            ({
                let s = buf@.skip(pos as int);
                match r {
                    Ok((ident, n)) => parse_identifier(s) matches Some((parts, used))
                        && ident.namespace@ == parts.0 && ident.path@ == parts.1 && n == used
                        && pos + n <= buf@.len(),
                    Err(_) => parse_identifier(s) is None,
                }
            }),
    {
        let (joined, n) = match read_prefixed_bytes(buf, pos) {
            Ok(x) => x,
            Err(e) => {
                return Err(e);
            },
        };
        let jlen = joined.len();
        let i = match find_colon(&joined) {
            Some(i) => i,
            None => {
                proof {
                    lemma_first_colon_none(joined@);
                }
                return Err(ReadError::Malformed);
            },
        };
        proof {
            lemma_first_colon_at(joined@, i as int);
        }
        let ns_bytes = crate::bytebuf::copy_range(&joined, 0, i);
        let path_bytes = crate::bytebuf::copy_range(&joined, i + 1, jlen - (i + 1));
        let namespace = match crate::bytebuf::bytes_to_string(ns_bytes) {
            Some(x) => x,
            None => {
                return Err(ReadError::Malformed);
            },
        };
        let path = match crate::bytebuf::bytes_to_string(path_bytes) {
            Some(x) => x,
            None => {
                return Err(ReadError::Malformed);
            },
        };
        Ok((Identifier { namespace, path }, n))
    }
}

} // verus!
