//! Clientbound login packets and their parsers.
use vstd::prelude::*;

use crate::bytebuf::{
    be_bytes, be_value, bool_byte, lemma_be_value_bound, lemma_be_value_of_bytes, parse_prefixed_bytes,
    parse_string, parse_varint, prefixed_bytes, read_be_bytes, read_bool,
    read_prefixed_bytes, read_string, read_varint, string_bytes, write_be_bytes, write_bool,
    write_prefixed_bytes, write_string, ReadError,
};
use crate::types::{Binary, Identifier, Property, PropertyMap, Uuid};
use crate::var_int::{varint_bytes, VarInt};
use crate::Packet;

verus! {

/// The server's encryption request: its id, its RSA public key in DER,
/// a challenge to echo, and whether the session must be authenticated.
#[derive(Debug)]
pub struct Hello {
    pub server_id: String,
    pub public_key: Binary,
    pub challenge: Binary,
    pub should_authenticate: bool,
}

/// The encryption request's payload at `s[0..]`: server id, public key,
/// challenge, then one boolean byte.
pub open spec fn parse_client_hello(s: Seq<u8>) -> Option<
    (Seq<char>, Seq<u8>, Seq<u8>, bool, int),
> {
    match parse_string(s) {
        Some((sid, n1)) => match parse_prefixed_bytes(s.skip(n1)) {
            Some((pk, n2)) => match parse_prefixed_bytes(s.skip(n1 + n2)) {
                Some((ch, n3)) => {
                    if s.len() <= n1 + n2 + n3 {
                        None
                    } else {
                        Some((sid, pk, ch, s[n1 + n2 + n3] != 0, n1 + n2 + n3 + 1))
                    }
                },
                None => None,
            },
            None => None,
        },
        None => None,
    }
}

impl Hello {
    pub fn new(server_id: String, public_key: Binary, challenge: Binary, should_authenticate: bool)
        -> (r: Self)
        ensures
            r.server_id@ == server_id@,
            r.public_key.inner@ == public_key.inner@,
            r.challenge.inner@ == challenge.inner@,
            r.should_authenticate == should_authenticate,
    {
        Hello { server_id, public_key, challenge, should_authenticate }
    }

    /// Parses an encryption request's payload.
    pub fn read(buf: &Vec<u8>) -> (r: Result<Self, ReadError>)
        ensures
            ({
                match r {
                    Ok(p) => parse_client_hello(buf@) matches Some((sid, pk, ch, sa, n))
                        && p.server_id@ == sid && p.public_key.inner@ == pk && p.challenge.inner@
                        == ch && p.should_authenticate == sa,
                    Err(_) => parse_client_hello(buf@) is None,
                }
            }),
    {
        let blen = buf.len();
        let ghost s = buf@;
        assert(s.skip(0) =~= s);
        let (server_id, n1) = match read_string(buf, 0) {
            Ok(x) => x,
            Err(e) => {
                return Err(e);
            },
        };
        let (pk, n2) = match read_prefixed_bytes(buf, n1) {
            Ok(x) => x,
            Err(e) => {
                return Err(e);
            },
        };
        let (ch, n3) = match read_prefixed_bytes(buf, n1 + n2) {
            Ok(x) => x,
            Err(e) => {
                return Err(e);
            },
        };
        let pos = n1 + n2 + n3;
        let (sa, _) = match read_bool(buf, pos) {
            Ok(x) => x,
            Err(e) => {
                return Err(e);
            },
        };
        Ok(
            Hello {
                server_id,
                public_key: Binary::new(pk),
                challenge: Binary::new(ch),
                should_authenticate: sa,
            },
        )
    }
}

impl Packet for Hello {
    open spec fn wire_id(&self) -> i32 {
        1
    }

    open spec fn payload_bytes(&self) -> Seq<u8> {
        string_bytes(self.server_id@) + prefixed_bytes(self.public_key.inner@) + prefixed_bytes(
            self.challenge.inner@,
        ) + seq![bool_byte(self.should_authenticate)]
    }

    open spec fn wf(&self) -> bool {
        vstd::utf8::encode_utf8(self.server_id@).len() <= 20 && self.public_key.inner@.len()
            <= i32::MAX && self.challenge.inner@.len() <= i32::MAX
    }

    fn packet_id(&self) -> (r: i32) {
        1
    }

    fn write(&self, buf: &mut Vec<u8>) {
        write_string(buf, self.server_id.as_str());
        write_prefixed_bytes(buf, &self.public_key.inner);
        write_prefixed_bytes(buf, &self.challenge.inner);
        write_bool(buf, self.should_authenticate);
        assert(buf@ =~= old(buf)@ + self.payload_bytes());
    }
}

/// The server's order to switch the stream to the compressed layout.
#[derive(Debug)]
pub struct LoginCompression {
    pub compression_threshold: VarInt,
}

impl LoginCompression {
    pub fn new(compression_threshold: VarInt) -> (r: Self)
        ensures
            r.compression_threshold == compression_threshold,
    {
        LoginCompression { compression_threshold }
    }

    /// Parses a compression order's payload: one VarInt threshold.
    pub fn read(buf: &Vec<u8>) -> (r: Result<Self, ReadError>)
        ensures
            ({
                match r {
                    Ok(p) => parse_varint(buf@) matches Some((v, n)) && p.compression_threshold.0
                        == v,
                    Err(_) => parse_varint(buf@) is None,
                }
            }),
    {
        let ghost s = buf@;
        assert(s.skip(0) =~= s);
        match read_varint(buf, 0) {
            Ok((v, _)) => Ok(LoginCompression { compression_threshold: VarInt(v) }),
            Err(e) => Err(e),
        }
    }
}

impl Packet for LoginCompression {
    open spec fn wire_id(&self) -> i32 {
        3
    }

    open spec fn payload_bytes(&self) -> Seq<u8> {
        varint_bytes(self.compression_threshold.0)
    }

    open spec fn wf(&self) -> bool {
        true
    }

    fn packet_id(&self) -> (r: i32) {
        3
    }

    fn write(&self, buf: &mut Vec<u8>) {
        crate::var_int::encode_varint(self.compression_threshold.0, buf);
    }
}

/// The server's refusal, carried as one JSON string.
#[derive(Debug)]
pub struct LoginDisconnect {
    pub reason: String,
}

impl LoginDisconnect {
    pub fn new(reason: String) -> (r: Self)
        ensures
            r.reason@ == reason@,
    {
        LoginDisconnect { reason }
    }

    /// Parses a disconnect's payload: one string.
    pub fn read(buf: &Vec<u8>) -> (r: Result<Self, ReadError>)
        ensures
            ({
                match r {
                    Ok(p) => parse_string(buf@) matches Some((reason, n)) && p.reason@ == reason,
                    Err(_) => parse_string(buf@) is None,
                }
            }),
    {
        let ghost s = buf@;
        assert(s.skip(0) =~= s);
        match read_string(buf, 0) {
            Ok((reason, _)) => Ok(LoginDisconnect { reason }),
            Err(e) => Err(e),
        }
    }
}

impl Packet for LoginDisconnect {
    open spec fn wire_id(&self) -> i32 {
        0
    }

    open spec fn payload_bytes(&self) -> Seq<u8> {
        string_bytes(self.reason@)
    }

    open spec fn wf(&self) -> bool {
        vstd::utf8::encode_utf8(self.reason@).len() <= i32::MAX
    }

    fn packet_id(&self) -> (r: i32) {
        0
    }

    fn write(&self, buf: &mut Vec<u8>) {
        write_string(buf, self.reason.as_str());
    }
}

/// A property's views: name, value, and the optional signature.
pub open spec fn property_view(p: Property) -> (Seq<char>, Seq<char>, Option<Seq<char>>) {
    (
        p.name@,
        p.value@,
        match p.signature {
            Some(sig) => Some(sig@),
            None => None,
        },
    )
}

/// One property at `s[0..]`: name, value, then a flagged optional
/// signature.
pub open spec fn parse_property(s: Seq<u8>) -> Option<
    ((Seq<char>, Seq<char>, Option<Seq<char>>), int),
> {
    match parse_string(s) {
        Some((name, n1)) => match parse_string(s.skip(n1)) {
            Some((value, n2)) => {
                if s.len() <= n1 + n2 {
                    None
                } else if s[n1 + n2] != 0 {
                    match parse_string(s.skip(n1 + n2 + 1)) {
                        Some((sig, n3)) => Some(((name, value, Some(sig)), n1 + n2 + 1 + n3)),
                        None => None,
                    }
                } else {
                    Some(((name, value, None), n1 + n2 + 1))
                }
            },
            None => None,
        },
        None => None,
    }
}

/// `count` properties in a row at `s[0..]`.
pub open spec fn parse_properties(s: Seq<u8>, count: int) -> Option<
    (Seq<(Seq<char>, Seq<char>, Option<Seq<char>>)>, int),
>
    decreases count,
{
    if count <= 0 {
        Some((Seq::empty(), 0))
    } else {
        match parse_property(s) {
            Some((p, n)) => match parse_properties(s.skip(n), count - 1) {
                Some((ps, m)) => Some((seq![p] + ps, n + m)),
                None => None,
            },
            None => None,
        }
    }
}

/// The login success payload at `s[0..]`: sixteen identity bytes, the
/// name, then a counted property list.
pub open spec fn parse_login_finished(s: Seq<u8>) -> Option<
    (u128, Seq<char>, Seq<(Seq<char>, Seq<char>, Option<Seq<char>>)>),
> {
    if s.len() < 16 {
        None
    } else {
        let uuid = be_value(s.subrange(0, 16)) as u128;
        match parse_string(s.skip(16)) {
            Some((name, n1)) => match parse_varint(s.skip(16 + n1)) {
                Some((count, n2)) => {
                    if count < 0 {
                        None
                    } else {
                        match parse_properties(s.skip(16 + n1 + n2), count as int) {
                            Some((ps, m)) => Some((uuid, name, ps)),
                            None => None,
                        }
                    }
                },
                None => None,
            },
            None => None,
        }
    }
}

/// The server's login success: the granted identity, the confirmed name,
/// and the profile's properties.
#[derive(Debug)]
pub struct LoginFinished {
    pub id: Uuid,
    pub name: String,
    pub properties: PropertyMap,
}

impl LoginFinished {
    pub fn new(id: Uuid, name: String, properties: PropertyMap) -> (r: Self)
        ensures
            r.id == id,
            r.name@ == name@,
            r.properties.properties() == properties.properties(),
    {
        LoginFinished { id, name, properties }
    }

    /// Parses a login success payload.
    pub fn read(buf: &Vec<u8>) -> (r: Result<Self, ReadError>)
        ensures
            ({
                match r {
                    Ok(p) => parse_login_finished(buf@) matches Some((uuid, name, ps)) && p.id.0
                        == uuid && p.name@ == name && p.properties.properties().map_values(
                        |q: Property| property_view(q),
                    ) == ps,
                    Err(_) => parse_login_finished(buf@) is None,
                }
            }),
    {
        let blen = buf.len();
        let ghost s = buf@;
        assert(s.skip(0) =~= s);
        if blen < 16 {
            return Err(ReadError::Incomplete);
        }
        let uuid = read_be_bytes(buf, 0, 16);
        proof {
            lemma_be_value_bound(s.subrange(0, 16));
            lemma_be_value_of_bytes(uuid as int, 16);
        }
        let uuid = uuid as u128;
        let (name, n1) = match read_string(buf, 16) {
            Ok(x) => x,
            Err(e) => {
                return Err(e);
            },
        };
        let (count, n2) = match read_varint(buf, 16 + n1) {
            Ok(x) => x,
            Err(e) => {
                return Err(e);
            },
        };
        if count < 0 {
            return Err(ReadError::Malformed);
        }
        let props = match read_properties(buf, 16 + n1 + n2, count as usize) {
            Ok(x) => x,
            Err(e) => {
                return Err(e);
            },
        };
        Ok(LoginFinished { id: Uuid(uuid), name, properties: PropertyMap::new(props) })
    }
}

impl Packet for LoginFinished {
    open spec fn wire_id(&self) -> i32 {
        2
    }

    open spec fn payload_bytes(&self) -> Seq<u8> {
        be_bytes(self.id.0 as int, 16) + string_bytes(self.name@) + varint_bytes(
            self.properties.properties().len() as i32,
        ) + properties_bytes(self.properties.properties())
    }

    open spec fn wf(&self) -> bool {
        &&& vstd::utf8::encode_utf8(self.name@).len() <= 16
        &&& self.properties.properties().len() <= i32::MAX
        &&& forall|i: int|
            0 <= i < self.properties.properties().len() ==> property_wf(
                #[trigger] self.properties.properties()[i],
            )
    }

    fn packet_id(&self) -> (r: i32) {
        2
    }

    fn write(&self, buf: &mut Vec<u8>) {
        write_be_bytes(buf, self.id.0, 16);
        write_string(buf, self.name.as_str());
        let count = self.properties.len();
        crate::var_int::encode_varint(count as i32, buf);
        write_properties(buf, &self.properties);
        assert(buf@ =~= old(buf)@ + self.payload_bytes());
    }
}

/// When a property's strings fit their wire forms.
pub open spec fn property_wf(p: Property) -> bool {
    &&& vstd::utf8::encode_utf8(p.name@).len() <= i32::MAX
    &&& vstd::utf8::encode_utf8(p.value@).len() <= i32::MAX
    &&& match p.signature {
        Some(sig) => vstd::utf8::encode_utf8(sig@).len() <= i32::MAX,
        None => true,
    }
}

/// One property's wire bytes: name, value, flagged optional signature.
pub open spec fn property_bytes(p: Property) -> Seq<u8> {
    string_bytes(p.name@) + string_bytes(p.value@) + (match p.signature {
        Some(sig) => seq![bool_byte(true)] + string_bytes(sig@),
        None => seq![bool_byte(false)],
    })
}

/// A property list's wire bytes, in order, without the leading count.
pub open spec fn properties_bytes(ps: Seq<Property>) -> Seq<u8>
    decreases ps.len(),
{
    if ps.len() == 0 {
        Seq::empty()
    } else {
        property_bytes(ps[0]) + properties_bytes(ps.drop_first())
    }
}

/// Appends every property of `ps` in order.
#[verifier::rlimit(50)]
fn write_properties(buf: &mut Vec<u8>, ps: &PropertyMap)
    requires
        forall|i: int|
            0 <= i < ps.properties().len() ==> property_wf(#[trigger] ps.properties()[i]),
    ensures
        final(buf)@ == old(buf)@ + properties_bytes(ps.properties()),
{
    let mut i: usize = 0;
    let n = ps.len();
    while i < n
        invariant
            n == ps.properties().len(),
            i <= n,
            forall|k: int|
                0 <= k < ps.properties().len() ==> property_wf(#[trigger] ps.properties()[k]),
            buf@ == old(buf)@ + properties_bytes(ps.properties().take(i as int)),
        decreases n - i,
    {
        let ghost buf0 = buf@;
        let p = ps.get(i);
        write_string(buf, p.name.as_str());
        write_string(buf, p.value.as_str());
        match &p.signature {
            Some(sig) => {
                write_bool(buf, true);
                write_string(buf, sig.as_str());
            },
            None => {
                write_bool(buf, false);
            },
        }
        proof {
            assert(buf@ =~= buf0 + property_bytes(ps.properties()[i as int]));
        }
        i = i + 1;
        proof {
            lemma_properties_bytes_take(ps.properties(), i as int);
            assert(buf@ =~= old(buf)@ + properties_bytes(ps.properties().take(i as int)));
        }
    }
    proof {
        assert(ps.properties().take(n as int) =~= ps.properties());
    }
}

/// Splitting the last property off a prefix of the list splits its bytes.
proof fn lemma_properties_bytes_take(ps: Seq<Property>, i: int)
    requires
        1 <= i <= ps.len(),
    ensures
        properties_bytes(ps.take(i)) == properties_bytes(ps.take(i - 1)) + property_bytes(
            ps[i - 1],
        ),
    decreases i,
{
    if i == 1 {
        assert(ps.take(1).drop_first() =~= Seq::<Property>::empty());
        assert(ps.take(0) =~= Seq::<Property>::empty());
        assert(properties_bytes(ps.take(1)) =~= property_bytes(ps[0]) + Seq::<u8>::empty());
        assert(property_bytes(ps[0]) + Seq::<u8>::empty() =~= property_bytes(ps[0]));
        assert(Seq::<u8>::empty() + property_bytes(ps[0]) =~= property_bytes(ps[0]));
    } else {
        lemma_properties_bytes_take(ps.drop_first(), i - 1);
        assert(ps.take(i).drop_first() =~= ps.drop_first().take(i - 1));
        assert(ps.take(i - 1).drop_first() =~= ps.drop_first().take(i - 2));
        assert(ps.take(i)[0] == ps[0] && ps.take(i - 1)[0] == ps[0]);
        assert(properties_bytes(ps.take(i)) == property_bytes(ps[0]) + properties_bytes(
            ps.drop_first().take(i - 1),
        ));
        assert(properties_bytes(ps.take(i - 1)) == property_bytes(ps[0]) + properties_bytes(
            ps.drop_first().take(i - 2),
        ));
        assert((property_bytes(ps[0]) + properties_bytes(ps.drop_first().take(i - 2)))
            + property_bytes(ps.drop_first()[i - 2]) =~= property_bytes(ps[0]) + (properties_bytes(
            ps.drop_first().take(i - 2),
        ) + property_bytes(ps.drop_first()[i - 2])));
    }
}

/// Reads one property starting at `buf[pos]`.
fn read_property(buf: &Vec<u8>, pos: usize) -> (r: Result<(Property, usize), ReadError>)
    requires
        pos <= buf@.len(),
    ensures
        ({
            let s = buf@.skip(pos as int);
            match r {
                Ok((p, used)) => parse_property(s) == Some((property_view(p), used as int)) && pos
                    + used <= buf@.len(),
                Err(_) => parse_property(s) is None,
            }
        }),
{
    let blen = buf.len();
    let ghost s = buf@.skip(pos as int);
    proof {
        assert(s.skip(0) =~= s);
    }
    let (name, n1) = match read_string(buf, pos) {
        Ok(x) => x,
        Err(e) => {
            return Err(e);
        },
    };
    proof {
        assert(buf@.skip(pos + n1) =~= s.skip(n1 as int));
    }
    let (value, n2) = match read_string(buf, pos + n1) {
        Ok(x) => x,
        Err(e) => {
            return Err(e);
        },
    };
    proof {
        assert(buf@.skip(pos + n1 + n2) =~= s.skip(n1 + n2));
    }
    let (has_sig, _) = match read_bool(buf, pos + n1 + n2) {
        Ok(x) => x,
        Err(e) => {
            return Err(e);
        },
    };
    if has_sig {
        proof {
            assert(buf@.skip(pos + n1 + n2 + 1) =~= s.skip(n1 + n2 + 1));
        }
        let (sig, n3) = match read_string(buf, pos + n1 + n2 + 1) {
            Ok(x) => x,
            Err(e) => {
                return Err(e);
            },
        };
        Ok((Property { name, value, signature: Some(sig) }, n1 + n2 + 1 + n3))
    } else {
        Ok((Property { name, value, signature: None }, n1 + n2 + 1))
    }
}

/// Reads `count` properties starting at `buf[pos]`.
#[verifier::loop_isolation(false)]
#[verifier::rlimit(50)]
fn read_properties(buf: &Vec<u8>, pos: usize, count: usize) -> (r: Result<Vec<Property>, ReadError>)
    requires
        pos <= buf@.len(),
    ensures
        ({
            let parsed = parse_properties(buf@.skip(pos as int), count as int);
            match r {
                Ok(ps) => parsed matches Some((views, m)) && ps@.map_values(
                    |q: Property| property_view(q),
                ) == views,
                Err(_) => parsed is None,
            }
        }),
{
    let blen = buf.len();
    let ghost f = |q: Property| property_view(q);
    let mut out: Vec<Property> = Vec::new();
    let mut i: usize = 0;
    let mut cur: usize = pos;
    proof {
        match parse_properties(buf@.skip(pos as int), count as int) {
            Some((ps2, m2)) => {
                assert(out@.map_values(f) + ps2 =~= ps2);
            },
            None => {},
        }
    }
    while i < count
        invariant
            pos <= cur <= buf@.len(),
            i <= count,
            out@.len() == i,
            ({
                let total = parse_properties(buf@.skip(pos as int), count as int);
                let rest = parse_properties(buf@.skip(cur as int), count - i);
                match rest {
                    Some((ps2, m2)) => total matches Some((views, m)) && views == out@.map_values(
                        f,
                    ) + ps2,
                    None => total is None,
                }
            }),
        decreases count - i,
    {
        let ghost out_old = out@;
        let (p, used) = match read_property(buf, cur) {
            Ok(x) => x,
            Err(e) => {
                return Err(e);
            },
        };
        proof {
            assert(buf@.skip(cur as int).skip(used as int) =~= buf@.skip(cur + used));
        }
        out.push(p);
        i = i + 1;
        cur = cur + used;
        proof {
            assert(out@.map_values(f) =~= out_old.map_values(f).push(property_view(p)));
            match parse_properties(buf@.skip(cur as int), count - i) {
                Some((ps3, m3)) => {
                    assert(out_old.map_values(f) + (seq![property_view(p)] + ps3) =~= out@
                        .map_values(f) + ps3);
                },
                None => {},
            }
        }
    }
    proof {
        assert(out@.map_values(f) + Seq::<(Seq<char>, Seq<char>, Option<Seq<char>>)>::empty()
            =~= out@.map_values(f));
    }
    Ok(out)
}

/// A request that the client run a named plugin exchange; carried through
/// untouched at this layer.
#[derive(Debug)]
pub struct CLoginPluginRequest<'a> {
    pub message_id: VarInt,
    pub channel: &'a str,
    pub data: &'a [u8],
}

impl<'a> CLoginPluginRequest<'a> {
    pub fn new(message_id: VarInt, channel: &'a str, data: &'a [u8]) -> (r: Self)
        ensures
            r.message_id == message_id,
            r.channel@ == channel@,
            r.data@ == data@,
    {
        CLoginPluginRequest { message_id, channel, data }
    }
}

/// A request for a cookie stored under a key.
#[derive(Debug)]
pub struct CLoginCookieRequest<'a> {
    pub key: &'a Identifier,
}

impl<'a> CLoginCookieRequest<'a> {
    pub fn new(key: &'a Identifier) -> (r: Self)
        ensures
            r.key.namespace@ == key.namespace@,
            r.key.path@ == key.path@,
    {
        CLoginCookieRequest { key }
    }
}

} // verus!
