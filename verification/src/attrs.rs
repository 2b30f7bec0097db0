//! Typed TURN attributes over the raw TLV layer: XOR-mapped peer
//! addresses, channel numbers, lifetimes, error codes, and first-match
//! lookup of an attribute in a decoded message.

use vstd::prelude::*;

use crate::addr::PeerAddr;
use crate::stun::{attr_wf, RawAttr, StunMessage, ATTR_CHANNEL_NUMBER, ATTR_ERROR_CODE,
    ATTR_LIFETIME, ATTR_XOR_PEER_ADDRESS, MAGIC_COOKIE};
use crate::stun::{enc_attr, enc_attrs};
use crate::wire::{be16, be32, bytes_of, pad_len, push_u16, push_u32, read_u16, read_u32, u16_of,
    u32_of};
use crate::wire::{lemma_be16_roundtrip, lemma_xor16_involution, lemma_xor32_involution};

verus! {

/// The top 16 bits of the magic cookie, XORed into ports.
pub const COOKIE_HIGH: u16 = 0x2112;

/// The value bytes of an IPv4 XOR-mapped address: zero byte, family 0x01,
/// the port XORed with the cookie's top bits, the IP XORed with the cookie.
pub open spec fn xor_addr_value(a: PeerAddr) -> Seq<u8> {
    seq![0u8, 1u8] + be16(a.port ^ COOKIE_HIGH) + be32(a.ip ^ MAGIC_COOKIE)
}

/// Whether `v` has the shape of an IPv4 XOR-mapped address value.
pub open spec fn is_xor_addr_value(v: Seq<u8>) -> bool {
    v.len() == 8 && v[0] == 0 && v[1] == 1
}

/// Builds an XOR-mapped address attribute of the given attribute type.
pub fn make_xor_addr_attr(typ: u16, a: PeerAddr) -> (r: RawAttr)
    ensures
        r.typ == typ,
        r.value@ == xor_addr_value(a),
        attr_wf(r),
{
    let mut v: Vec<u8> = Vec::new();
    v.push(0u8);
    v.push(1u8);
    push_u16(&mut v, a.port ^ COOKIE_HIGH);
    push_u32(&mut v, a.ip ^ MAGIC_COOKIE);
    proof {
        assert(v@ =~= xor_addr_value(a));
    }
    RawAttr { typ, value: v }
}

/// Parses an IPv4 XOR-mapped address value; accepts exactly the values
/// `make_xor_addr_attr` produces.
pub fn parse_xor_addr(v: &Vec<u8>) -> (r: Option<PeerAddr>)
    ensures
        r is Some <==> is_xor_addr_value(v@),
        r matches Some(a) ==> v@ == xor_addr_value(a),
{
    if v.len() != 8 {
        return None;
    }
    if v[0] != 0 || v[1] != 1 {
        return None;
    }
    let port = read_u16(v.as_slice(), 2) ^ COOKIE_HIGH;
    let ip = read_u32(v.as_slice(), 4) ^ MAGIC_COOKIE;
    let a = PeerAddr { ip, port };
    proof {
        lemma_xor16_involution(u16_of(v@[2], v@[3]), COOKIE_HIGH);
        lemma_xor32_involution(u32_of(v@[4], v@[5], v@[6], v@[7]), MAGIC_COOKIE);
        crate::wire::lemma_u16_of_inverse(v@[2], v@[3]);
        crate::wire::lemma_u32_of_inverse(v@[4], v@[5], v@[6], v@[7]);
        assert(v@ =~= xor_addr_value(a));
    }
    Some(a)
}

/// The value bytes of a CHANNEL-NUMBER attribute: the number and two
/// reserved zero bytes.
pub open spec fn channel_number_value(num: u16) -> Seq<u8> {
    be16(num) + seq![0u8, 0u8]
}

/// Builds a CHANNEL-NUMBER attribute.
pub fn make_channel_number_attr(num: u16) -> (r: RawAttr)
    ensures
        r.typ == ATTR_CHANNEL_NUMBER,
        r.value@ == channel_number_value(num),
        attr_wf(r),
{
    let mut v: Vec<u8> = Vec::new();
    push_u16(&mut v, num);
    v.push(0u8);
    v.push(0u8);
    proof {
        assert(v@ =~= channel_number_value(num));
    }
    RawAttr { typ: ATTR_CHANNEL_NUMBER, value: v }
}

/// Builds an attribute whose value is a big-endian 32-bit number, such as
/// LIFETIME.
pub fn make_u32_attr(typ: u16, x: u32) -> (r: RawAttr)
    ensures
        r.typ == typ,
        r.value@ == be32(x),
        attr_wf(r),
{
    let mut v: Vec<u8> = Vec::new();
    push_u32(&mut v, x);
    proof {
        assert(v@ =~= be32(x));
    }
    RawAttr { typ, value: v }
}

/// Builds an attribute carrying opaque bytes, such as USERNAME, REALM,
/// NONCE or DATA.
pub fn make_bytes_attr(typ: u16, value: &[u8]) -> (r: RawAttr)
    requires
        value@.len() <= 0xFFFF,
    ensures
        r.typ == typ,
        r.value@ == value@,
        attr_wf(r),
{
    RawAttr { typ, value: bytes_of(value) }
}

/// The value of the first attribute of type `typ`, if any.
pub open spec fn spec_find_attr(attrs: Seq<RawAttr>, typ: u16) -> Option<Seq<u8>>
    decreases attrs.len(),
{
    if attrs.len() == 0 {
        None
    } else if attrs[0].typ == typ {
        Some(attrs[0].value@)
    } else {
        spec_find_attr(attrs.drop_first(), typ)
    }
}

/// The value of the first attribute of type `typ`, read straight from a
/// well-formed attribute byte region: the byte-level view of
/// `spec_find_attr`.
pub open spec fn find_attr_bytes(b: Seq<u8>, typ: u16) -> Option<Seq<u8>>
    decreases b.len(),
{
    if b.len() < 4 {
        None
    } else {
        let t = u16_of(b[0], b[1]);
        let vlen = u16_of(b[2], b[3]) as int;
        let total = 4 + vlen + pad_len(vlen);
        if t == typ {
            Some(b.subrange(4, 4 + vlen))
        } else if b.len() <= total {
            None
        } else {
            find_attr_bytes(b.skip(total), typ)
        }
    }
}

/// On encoded attribute lists, the byte-level search agrees with the
/// record-level one.
pub proof fn lemma_find_attr_bytes(s: Seq<RawAttr>, typ: u16)
    requires
        forall|i: int| 0 <= i < s.len() ==> crate::stun::attr_wf(#[trigger] s[i]),
    ensures
        find_attr_bytes(enc_attrs(s), typ) == spec_find_attr(s, typ),
    decreases s.len(),
{
    if s.len() == 0 {
        assert(enc_attrs(s).len() == 0);
    } else {
        let b = enc_attrs(s);
        let e = enc_attr(s[0]);
        let rest = enc_attrs(s.drop_first());
        let vlen = s[0].value@.len() as int;
        let total = 4 + vlen + pad_len(vlen);
        assert(e.len() == total);
        lemma_be16_roundtrip(s[0].typ);
        lemma_be16_roundtrip(vlen as u16);
        assert(b[0] == be16(s[0].typ)[0] && b[1] == be16(s[0].typ)[1]);
        assert(b[2] == be16(vlen as u16)[0] && b[3] == be16(vlen as u16)[1]);
        assert(u16_of(b[0], b[1]) == s[0].typ);
        assert(u16_of(b[2], b[3]) == vlen);
        if s[0].typ == typ {
            assert(b.subrange(4, 4 + vlen) =~= s[0].value@);
        } else if b.len() <= total {
            // the remainder is empty, so no further attribute exists
            assert(rest.len() == 0);
            if s.drop_first().len() > 0 {
                let d = s.drop_first();
                assert(rest == enc_attr(d[0]) + enc_attrs(d.drop_first()));
                assert(enc_attr(d[0]).len() >= 4);
            }
            assert(s.drop_first().len() == 0);
            assert(spec_find_attr(s.drop_first(), typ) is None);
            assert(spec_find_attr(s, typ) is None);
        } else {
            assert(forall|i: int|
                0 <= i < s.drop_first().len() ==> crate::stun::attr_wf(
                    #[trigger] s.drop_first()[i]));
            lemma_find_attr_bytes(s.drop_first(), typ);
            assert(b.skip(total) =~= rest);
        }
    }
}

/// Returns a copy of the first attribute of type `typ`.
pub fn get_attr(m: &StunMessage, typ: u16) -> (r: Option<Vec<u8>>)
    ensures
        r matches Some(v) ==> spec_find_attr(m.attrs@, typ) == Some(v@),
        r is None ==> spec_find_attr(m.attrs@, typ) is None,
{
    let n = m.attrs.len();
    proof {
        assert(m.attrs@.skip(0) =~= m.attrs@);
    }
    for i in 0..n
        invariant
            n == m.attrs@.len(),
            spec_find_attr(m.attrs@, typ) == spec_find_attr(m.attrs@.skip(i as int), typ),
    {
        proof {
            assert(m.attrs@.skip(i as int)[0] == m.attrs@[i as int]);
            assert(m.attrs@.skip(i as int).drop_first() =~= m.attrs@.skip(i + 1));
        }
        if m.attrs[i].typ == typ {
            return Some(bytes_of(m.attrs[i].value.as_slice()));
        }
    }
    proof {
        assert(m.attrs@.skip(n as int) =~= Seq::<RawAttr>::empty());
    }
    None
}

/// The XOR-mapped peer address carried by `m`, if present and well-formed.
pub fn get_xor_peer_address(m: &StunMessage) -> (r: Option<PeerAddr>)
    ensures
        match spec_find_attr(m.attrs@, ATTR_XOR_PEER_ADDRESS) {
            Option::None => r is None,
            Option::Some(v) => if is_xor_addr_value(v) {
                r matches Some(a) && v == xor_addr_value(a)
            } else {
                r is None
            },
        },
{
    match get_attr(m, ATTR_XOR_PEER_ADDRESS) {
        Option::Some(v) => parse_xor_addr(&v),
        Option::None => None,
    }
}

/// The numeric code carried by a 4-byte-or-longer ERROR-CODE value: the
/// low three bits of the class byte times one hundred, plus the number.
pub open spec fn error_code_of(v: Seq<u8>) -> u16 {
    (((v[2] & 0x07) as u16) * 100 + (v[3] as u16)) as u16
}

/// The error code of an error response, if its ERROR-CODE attribute is
/// present and long enough.
pub fn get_error_code(m: &StunMessage) -> (r: Option<u16>)
    ensures
        match spec_find_attr(m.attrs@, ATTR_ERROR_CODE) {
            Option::None => r is None,
            Option::Some(v) => if v.len() >= 4 {
                r == Some(error_code_of(v))
            } else {
                r is None
            },
        },
{
    match get_attr(m, ATTR_ERROR_CODE) {
        Option::Some(v) => {
            if v.len() >= 4 {
                let b2 = v[2];
                let class = b2 & 0x07;
                proof {
                    assert(b2 & 0x07 < 8) by (bit_vector);
                }
                Some((class as u16) * 100 + (v[3] as u16))
            } else {
                None
            }
        },
        Option::None => None,
    }
}

/// The LIFETIME carried by `m` in seconds, if present and well-formed.
pub fn get_lifetime(m: &StunMessage) -> (r: Option<u32>)
    ensures
        match spec_find_attr(m.attrs@, ATTR_LIFETIME) {
            Option::None => r is None,
            Option::Some(v) => if v.len() == 4 {
                r == Some(u32_of(v[0], v[1], v[2], v[3]))
            } else {
                r is None
            },
        },
{
    match get_attr(m, ATTR_LIFETIME) {
        Option::Some(v) => {
            if v.len() == 4 {
                Some(read_u32(v.as_slice(), 0))
            } else {
                None
            }
        },
        Option::None => None,
    }
}

} // verus!
