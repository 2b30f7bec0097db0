//! STUN message codec.
//!
//! A STUN message is a 20-byte header (16-bit type with two zero high bits,
//! 16-bit attribute length, the magic cookie, a 96-bit transaction id)
//! followed by attributes in type-length-value form, each padded with zero
//! bytes to a 4-byte boundary.  Encoding keeps attributes in insertion
//! order; decoding validates the header, the declared length and the
//! padding, and accepts exactly the buffers its own encoder produces.

use vstd::prelude::*;

use crate::errors::TurnError;
use crate::wire::{be16, be32, pad_len, push_bytes, push_u16, push_u32, push_zeros, read_u16, read_u32,
    subrange_of, u16_of, u32_of, zeros};
use crate::wire::{lemma_be16_roundtrip, lemma_u16_of_inverse, lemma_u32_of_inverse};

verus! {

/// The STUN magic cookie.
pub const MAGIC_COOKIE: u32 = 0x2112A442;

pub const METHOD_REFRESH: u16 = 0x004;
pub const METHOD_SEND: u16 = 0x006;
pub const METHOD_DATA: u16 = 0x007;
pub const METHOD_CREATE_PERMISSION: u16 = 0x008;
pub const METHOD_CHANNEL_BIND: u16 = 0x009;

pub const CLASS_REQUEST: u16 = 0x0;
pub const CLASS_INDICATION: u16 = 0x1;
pub const CLASS_SUCCESS_RESPONSE: u16 = 0x2;
pub const CLASS_ERROR_RESPONSE: u16 = 0x3;

pub const ATTR_USERNAME: u16 = 0x0006;
pub const ATTR_MESSAGE_INTEGRITY: u16 = 0x0008;
pub const ATTR_ERROR_CODE: u16 = 0x0009;
pub const ATTR_CHANNEL_NUMBER: u16 = 0x000C;
pub const ATTR_LIFETIME: u16 = 0x000D;
pub const ATTR_XOR_PEER_ADDRESS: u16 = 0x0012;
pub const ATTR_DATA: u16 = 0x0013;
pub const ATTR_REALM: u16 = 0x0014;
pub const ATTR_NONCE: u16 = 0x0015;
pub const ATTR_XOR_RELAYED_ADDRESS: u16 = 0x0016;
pub const ATTR_FINGERPRINT: u16 = 0x8028;

/// The error code carried by a STALE_NONCE error response.
pub const CODE_STALE_NONCE: u16 = 438;

/// The 16-bit message type built from a method and a class, with the two
/// class bits interleaved into the method bits.
pub open spec fn spec_msg_type(method: u16, class: u16) -> u16 {
    ((method & 0x0F80) << 2) | ((method & 0x0070) << 1) | (method & 0x000F) | ((class & 0x2) << 7)
        | ((class & 0x1) << 4)
}

/// The class bits of a message type.
pub open spec fn class_of(typ: u16) -> u16 {
    ((typ >> 7) & 0x2) | ((typ >> 4) & 0x1)
}

/// The method bits of a message type.
pub open spec fn method_of(typ: u16) -> u16 {
    ((typ >> 2) & 0x0F80) | ((typ >> 1) & 0x0070) | (typ & 0x000F)
}

/// A message type decomposes back into the method and class it was built
/// from, and always has its two high bits clear.
pub proof fn lemma_msg_type_parts(method: u16, class: u16)
    requires
        method < 0x1000,
        class < 4,
    ensures
        class_of(spec_msg_type(method, class)) == class,
        method_of(spec_msg_type(method, class)) == method,
        spec_msg_type(method, class) < 0x4000,
{
    let t = spec_msg_type(method, class);
    assert((((((method & 0x0F80) << 2) | ((method & 0x0070) << 1) | (method & 0x000F) | ((class
        & 0x2) << 7) | ((class & 0x1) << 4)) >> 7) & 0x2) | (((((method & 0x0F80) << 2) | ((method
        & 0x0070) << 1) | (method & 0x000F) | ((class & 0x2) << 7) | ((class & 0x1) << 4)) >> 4)
        & 0x1) == class && (((((method & 0x0F80) << 2) | ((method & 0x0070) << 1) | (method
        & 0x000F) | ((class & 0x2) << 7) | ((class & 0x1) << 4)) >> 2) & 0x0F80) | (((((method
        & 0x0F80) << 2) | ((method & 0x0070) << 1) | (method & 0x000F) | ((class & 0x2) << 7)
        | ((class & 0x1) << 4)) >> 1) & 0x0070) | ((((method & 0x0F80) << 2) | ((method & 0x0070)
        << 1) | (method & 0x000F) | ((class & 0x2) << 7) | ((class & 0x1) << 4)) & 0x000F)
        == method && (((method & 0x0F80) << 2) | ((method & 0x0070) << 1) | (method & 0x000F)
        | ((class & 0x2) << 7) | ((class & 0x1) << 4)) < 0x4000) by (bit_vector)
        requires
            method < 0x1000,
            class < 4,
    ;
}

/// Builds a message type from a method and a class.
pub fn msg_type(method: u16, class: u16) -> (r: u16)
    requires
        method < 0x1000,
        class < 4,
    ensures
        r == spec_msg_type(method, class),
        r < 0x4000,
        class_of(r) == class,
        method_of(r) == method,
{
    proof {
        lemma_msg_type_parts(method, class);
    }
    ((method & 0x0F80) << 2) | ((method & 0x0070) << 1) | (method & 0x000F) | ((class & 0x2) << 7)
        | ((class & 0x1) << 4)
}

/// Extracts the class bits of a message type.
pub fn msg_class(typ: u16) -> (r: u16)
    ensures
        r == class_of(typ),
{
    ((typ >> 7) & 0x2) | ((typ >> 4) & 0x1)
}

/// Extracts the method bits of a message type.
pub fn msg_method(typ: u16) -> (r: u16)
    ensures
        r == method_of(typ),
{
    ((typ >> 2) & 0x0F80) | ((typ >> 1) & 0x0070) | (typ & 0x000F)
}

/// One attribute in type-length-value form.
#[derive(Clone, Debug)]
pub struct RawAttr {
    pub typ: u16,
    pub value: Vec<u8>,
}

/// A decoded STUN message: type, transaction id, attributes in order.
#[derive(Clone, Debug)]
pub struct StunMessage {
    pub typ: u16,
    pub tid: Vec<u8>,
    pub attrs: Vec<RawAttr>,
}

/// The bytes of one attribute: type, value length, value, zero padding.
pub open spec fn attr_bytes(typ: u16, value: Seq<u8>) -> Seq<u8> {
    be16(typ) + be16(value.len() as u16) + value + zeros(pad_len(value.len() as int))
}

/// The bytes of one attribute record.
pub open spec fn enc_attr(a: RawAttr) -> Seq<u8> {
    attr_bytes(a.typ, a.value@)
}

/// The bytes of a list of attributes, in order.
pub open spec fn enc_attrs(s: Seq<RawAttr>) -> Seq<u8>
    decreases s.len(),
{
    if s.len() == 0 {
        Seq::empty()
    } else {
        enc_attr(s[0]) + enc_attrs(s.drop_first())
    }
}

/// Appending one attribute appends its bytes.
pub proof fn lemma_enc_attrs_snoc(s: Seq<RawAttr>, a: RawAttr)
    ensures
        enc_attrs(s.push(a)) == enc_attrs(s) + enc_attr(a),
    decreases s.len(),
{
    if s.len() == 0 {
        assert(s.push(a)[0] == a);
        assert(s.push(a).drop_first() =~= Seq::<RawAttr>::empty());
        assert(enc_attrs(Seq::<RawAttr>::empty()) == Seq::<u8>::empty());
        assert(enc_attrs(s.push(a)) == enc_attr(a) + Seq::<u8>::empty());
        assert(enc_attrs(s.push(a)) =~= enc_attrs(s) + enc_attr(a));
    } else {
        lemma_enc_attrs_snoc(s.drop_first(), a);
        assert(s.push(a).drop_first() =~= s.drop_first().push(a));
        assert(s.push(a)[0] == s[0]);
        assert(enc_attrs(s.push(a)) =~= enc_attrs(s) + enc_attr(a));
    }
}

/// An attribute value must fit its 16-bit length field.
pub open spec fn attr_wf(a: RawAttr) -> bool {
    a.value@.len() <= 0xFFFF
}

/// A message that can be encoded: STUN type, 12-byte transaction id,
/// attribute values and total attribute bytes within 16-bit lengths.
pub open spec fn msg_wf(m: StunMessage) -> bool {
    &&& m.typ < 0x4000
    &&& m.tid@.len() == 12
    &&& forall|i: int| 0 <= i < m.attrs@.len() ==> attr_wf(#[trigger] m.attrs@[i])
    &&& enc_attrs(m.attrs@).len() <= 0xFFFF
}

/// A STUN header with the given declared length, followed by `body`.
pub open spec fn enc_msg_with_len(typ: u16, length: u16, tid: Seq<u8>, body: Seq<u8>) -> Seq<u8> {
    be16(typ) + be16(length) + be32(MAGIC_COOKIE) + tid + body
}

/// The canonical serialization of a message: the declared length is the
/// actual length of the attribute bytes.
pub open spec fn enc_msg(m: StunMessage) -> Seq<u8> {
    enc_msg_with_len(m.typ, enc_attrs(m.attrs@).len() as u16, m.tid@, enc_attrs(m.attrs@))
}

/// Encodes a list of attributes.
pub fn encode_attrs(attrs: &Vec<RawAttr>) -> (r: Vec<u8>)
    requires
        forall|i: int| 0 <= i < attrs@.len() ==> attr_wf(#[trigger] attrs@[i]),
    ensures
        r@ == enc_attrs(attrs@),
{
    let mut r: Vec<u8> = Vec::new();
    let n = attrs.len();
    for idx in 0..n
        invariant
            n == attrs@.len(),
            forall|i: int| 0 <= i < attrs@.len() ==> attr_wf(#[trigger] attrs@[i]),
            r@ == enc_attrs(attrs@.take(idx as int)),
    {
        let a = &attrs[idx];
        push_u16(&mut r, a.typ);
        push_u16(&mut r, a.value.len() as u16);
        push_bytes(&mut r, a.value.as_slice());
        let vlen = a.value.len();
        let pad: usize = if vlen % 4 == 0 {
            0
        } else {
            4 - vlen % 4
        };
        push_zeros(&mut r, pad);
        proof {
            assert(attrs@.take(idx + 1) =~= attrs@.take(idx as int).push(attrs@[idx as int]));
            lemma_enc_attrs_snoc(attrs@.take(idx as int), attrs@[idx as int]);
            assert(r@ =~= enc_attrs(attrs@.take(idx + 1)));
        }
    }
    assert(attrs@.take(n as int) =~= attrs@);
    r
}

/// Lays out a header with an explicit declared length over `body`.
pub fn assemble_message(typ: u16, length: u16, tid: &Vec<u8>, body: &Vec<u8>) -> (r: Vec<u8>)
    requires
        tid@.len() == 12,
    ensures
        r@ == enc_msg_with_len(typ, length, tid@, body@),
{
    let mut r: Vec<u8> = Vec::new();
    push_u16(&mut r, typ);
    push_u16(&mut r, length);
    push_u32(&mut r, MAGIC_COOKIE);
    push_bytes(&mut r, tid.as_slice());
    push_bytes(&mut r, body.as_slice());
    assert(r@ =~= enc_msg_with_len(typ, length, tid@, body@));
    r
}

/// Encodes a message canonically.
pub fn encode_message(m: &StunMessage) -> (r: Vec<u8>)
    requires
        msg_wf(*m),
    ensures
        r@ == enc_msg(*m),
{
    let body = encode_attrs(&m.attrs);
    assemble_message(m.typ, body.len() as u16, &m.tid, &body)
}

/// The bytes of a well-formed attribute list are themselves well-formed.
pub proof fn lemma_enc_attrs_wf(s: Seq<RawAttr>)
    requires
        forall|i: int| 0 <= i < s.len() ==> attr_wf(#[trigger] s[i]),
    ensures
        attrs_bytes_wf(enc_attrs(s)),
    decreases s.len(),
{
    if s.len() > 0 {
        let b = enc_attrs(s);
        let e = enc_attr(s[0]);
        let vlen = s[0].value@.len() as int;
        let pad = pad_len(vlen);
        let total = 4 + vlen + pad;
        lemma_u16_of_inverse(e[2], e[3]);
        lemma_be16_roundtrip((vlen as u16));
        assert(e[2] == be16(vlen as u16)[0] && e[3] == be16(vlen as u16)[1]);
        assert(b[2] == e[2] && b[3] == e[3]);
        assert(u16_of(b[2], b[3]) == vlen);
        assert(e.len() == total);
        assert forall|j: int| 4 + vlen <= j < total implies b[j] == 0 by {
            assert(e[j] == zeros(pad)[j - 4 - vlen]);
        }
        assert(forall|i: int| 0 <= i < s.drop_first().len() ==> attr_wf(
            #[trigger] s.drop_first()[i]));
        lemma_enc_attrs_wf(s.drop_first());
        assert(b.skip(total) =~= enc_attrs(s.drop_first()));
    }
}

/// The encoder's output is always accepted: a message within the wire
/// format's limits serializes to a well-formed buffer, which (by
/// `decode_message`'s contract) the decoder takes back to a message that
/// re-encodes to the same bytes.  Together these are the round trip.
pub proof fn lemma_encode_well_formed(m: StunMessage)
    requires
        msg_wf(m),
    ensures
        stun_bytes_wf(enc_msg(m)),
{
    let b = enc_msg(m);
    let body = enc_attrs(m.attrs@);
    lemma_be16_roundtrip(m.typ);
    lemma_be16_roundtrip(body.len() as u16);
    crate::wire::lemma_be32_roundtrip(MAGIC_COOKIE);
    assert(b[0] == be16(m.typ)[0] && b[1] == be16(m.typ)[1]);
    assert(b[2] == be16(body.len() as u16)[0] && b[3] == be16(body.len() as u16)[1]);
    assert(b[4] == be32(MAGIC_COOKIE)[0] && b[5] == be32(MAGIC_COOKIE)[1] && b[6] == be32(
        MAGIC_COOKIE)[2] && b[7] == be32(MAGIC_COOKIE)[3]);
    assert(b.len() == 20 + body.len());
    lemma_enc_attrs_wf(m.attrs@);
    assert(b.skip(20) =~= body);
}

/// Whether `b` holds a well-formed attribute list: each record announces a
/// length that fits, its padding bytes are zero, and the records tile `b`
/// exactly.
pub open spec fn attrs_bytes_wf(b: Seq<u8>) -> bool
    decreases b.len(),
{
    if b.len() == 0 {
        true
    } else if b.len() < 4 {
        false
    } else {
        let vlen = u16_of(b[2], b[3]) as int;
        let total = 4 + vlen + pad_len(vlen);
        &&& b.len() >= total
        &&& (forall|j: int| 4 + vlen <= j < total ==> b[j] == 0)
        &&& attrs_bytes_wf(b.skip(total))
    }
}

/// Whether `b` is a well-formed STUN message: long enough, two zero high
/// bits, declared length matching the buffer, magic cookie, and a
/// well-formed attribute list.
pub open spec fn stun_bytes_wf(b: Seq<u8>) -> bool {
    &&& b.len() >= 20
    &&& u16_of(b[0], b[1]) < 0x4000
    &&& u16_of(b[2], b[3]) as int == b.len() - 20
    &&& u32_of(b[4], b[5], b[6], b[7]) == MAGIC_COOKIE
    &&& attrs_bytes_wf(b.skip(20))
}

/// Decodes a STUN message.  Succeeds exactly on well-formed buffers, and
/// whatever it accepts re-encodes to the same bytes.
#[verifier::rlimit(60)]
pub fn decode_message(buf: &[u8]) -> (r: Result<StunMessage, TurnError>)
    ensures
        r is Ok <==> stun_bytes_wf(buf@),
        r matches Ok(m) ==> msg_wf(m) && enc_msg(m) == buf@,
        r matches Err(e) ==> e == TurnError::Format,
{
    let n = buf.len();
    if n < 20 {
        return Err(TurnError::Format);
    }
    let typ = read_u16(buf, 0);
    if typ >= 0x4000 {
        return Err(TurnError::Format);
    }
    let length = read_u16(buf, 2) as usize;
    if length + 20 != n {
        return Err(TurnError::Format);
    }
    let cookie = read_u32(buf, 4);
    if cookie != MAGIC_COOKIE {
        return Err(TurnError::Format);
    }
    let mut attrs: Vec<RawAttr> = Vec::new();
    let mut i: usize = 20;
    while i < n
        invariant
            20 <= i <= n,
            n == buf@.len(),
            forall|k: int| 0 <= k < attrs@.len() ==> attr_wf(#[trigger] attrs@[k]),
            enc_attrs(attrs@) == buf@.subrange(20, i as int),
            attrs_bytes_wf(buf@.skip(20)) <==> attrs_bytes_wf(buf@.skip(i as int)),
        decreases n - i,
    {
        if n - i < 4 {
            proof {
                assert(!attrs_bytes_wf(buf@.skip(i as int)));
            }
            return Err(TurnError::Format);
        }
        let atyp = read_u16(buf, i);
        let alen = read_u16(buf, i + 2) as usize;
        let rem = n - i - 4;
        let pad: usize = if alen % 4 == 0 {
            0
        } else {
            4 - alen % 4
        };
        proof {
            assert(buf@.skip(i as int)[2] == buf@[i + 2]);
            assert(buf@.skip(i as int)[3] == buf@[i + 3]);
        }
        if alen > rem || rem - alen < pad {
            proof {
                assert(!attrs_bytes_wf(buf@.skip(i as int)));
            }
            return Err(TurnError::Format);
        }
        let vend = i + 4 + alen;
        let aend = vend + pad;
        let mut j = vend;
        while j < aend
            invariant
                vend <= j <= aend <= n,
                n == buf@.len(),
                vend == i + 4 + alen,
                aend == vend + pad,
                20 <= i,
                alen == u16_of(buf@[i + 2], buf@[i + 3]) as int,
                pad == pad_len(alen as int),
                forall|k: int| vend <= k < j ==> buf@[k] == 0,
                attrs_bytes_wf(buf@.skip(20)) <==> attrs_bytes_wf(buf@.skip(i as int)),
            decreases aend - j,
        {
            if buf[j] != 0 {
                proof {
                    assert(buf@.skip(i as int).len() == n - i);
                    assert(buf@.skip(i as int)[2] == buf@[i + 2]);
                    assert(buf@.skip(i as int)[3] == buf@[i + 3]);
                    assert(buf@.skip(i as int)[j - i] == buf@[j as int]);
                    assert(!attrs_bytes_wf(buf@.skip(i as int)));
                }
                return Err(TurnError::Format);
            }
            j += 1;
        }
        let value = subrange_of(buf, i + 4, vend);
        let ghost pre = attrs@;
        attrs.push(RawAttr { typ: atyp, value });
        proof {
            let a = attrs@[attrs@.len() - 1];
            lemma_enc_attrs_snoc(pre, a);
            lemma_u16_of_inverse(buf@[i as int], buf@[i + 1]);
            lemma_u16_of_inverse(buf@[i + 2], buf@[i + 3]);
            assert(enc_attr(a) =~= buf@.subrange(i as int, aend as int));
            assert(enc_attrs(attrs@) =~= buf@.subrange(20, aend as int));
            // one well-formed record was consumed, so well-formedness of the
            // rest is unchanged
            assert(buf@.skip(i as int).skip(4 + alen as int + pad as int) =~= buf@.skip(
                aend as int));
            assert(forall|k: int| 4 + alen <= k < 4 + alen + pad ==> buf@.skip(i as int)[k] == 0);
            assert(attrs_bytes_wf(buf@.skip(i as int)) <==> attrs_bytes_wf(buf@.skip(aend as int)));
        }
        i = aend;
    }
    let tid = subrange_of(buf, 8, 20);
    let m = StunMessage { typ, tid, attrs };
    proof {
        assert(buf@.skip(n as int) =~= Seq::<u8>::empty());
        assert(attrs_bytes_wf(buf@.skip(n as int)));
        assert(stun_bytes_wf(buf@));
        assert(enc_attrs(m.attrs@) == buf@.subrange(20, n as int));
        assert(enc_attrs(m.attrs@).len() == n - 20);
        lemma_u16_of_inverse(buf@[0], buf@[1]);
        lemma_u16_of_inverse(buf@[2], buf@[3]);
        lemma_u32_of_inverse(buf@[4], buf@[5], buf@[6], buf@[7]);
        assert(enc_msg(m) =~= buf@);
    }
    Ok(m)
}

} // verus!
