//! MESSAGE-INTEGRITY and FINGERPRINT.
//!
//! MESSAGE-INTEGRITY is an HMAC-SHA1 over the message up to (and not
//! including) the integrity attribute, computed with the 16-bit length
//! field temporarily set to count the integrity attribute as well.
//! FINGERPRINT is the CRC-32 of the message before the fingerprint
//! attribute (whose declared length counts it), XORed with a fixed
//! constant.  The digests themselves come from outside crates and are
//! named, not restated.

use vstd::prelude::*;

use hmac::{Hmac, KeyInit, Mac};
use sha1::Sha1;

use crate::stun::{attr_bytes, attr_wf, enc_attrs, enc_msg_with_len, encode_attrs,
    assemble_message, RawAttr, ATTR_FINGERPRINT, ATTR_MESSAGE_INTEGRITY};
use crate::wire::{be16, be32, bytes_eq, push_bytes, push_u16, push_u32, read_u16, read_u32,
    subrange_of, u16_of, u32_of};
use crate::wire::{lemma_be16_pair, lemma_be16_roundtrip, lemma_u16_of_inverse};

verus! {

/// XORed into the CRC-32 to form the FINGERPRINT value.
pub const FINGERPRINT_XOR: u32 = 0x5354554E;

/// The HMAC-SHA1 digest of `data` under `key`.
pub uninterp spec fn hmac_sha1(key: Seq<u8>, data: Seq<u8>) -> Seq<u8>;

/// The IEEE CRC-32 checksum of `data`.
pub uninterp spec fn crc32_ieee(data: Seq<u8>) -> u32;

/// Relies on hmac's `Hmac<Sha1>` (with sha1): the digest depends on the key
/// and the data alone, and is 20 bytes long, SHA-1's output size.
/// `new_from_slice` accepts a key of any length for an HMAC, so the
/// `expect` can never fire.
#[verifier::external_body]
fn hmac_sha1_digest(key: &[u8], data: &[u8]) -> (r: Vec<u8>)
    ensures
        r@ == hmac_sha1(key@, data@),
        r@.len() == 20,
{
    let mut mac = <Hmac<Sha1>>::new_from_slice(key).expect("HMAC accepts keys of any length");
    mac.update(data);
    mac.finalize().into_bytes().to_vec()
}

/// Relies on crc32fast::hash: the IEEE CRC-32 of the input bytes.
#[verifier::external_body]
fn crc32_of(data: &[u8]) -> (r: u32)
    ensures
        r == crc32_ieee(data@),
{
    crc32fast::hash(data)
}

/// The value carried by a FINGERPRINT attribute covering `data`.
pub fn fingerprint_value(data: &[u8]) -> (r: u32)
    ensures
        r == crc32_ieee(data@) ^ FINGERPRINT_XOR,
{
    crc32_of(data) ^ FINGERPRINT_XOR
}

/// What the MESSAGE-INTEGRITY digest is computed over: the message with
/// `body` as its attributes and the declared length counting the 24-byte
/// integrity attribute about to be appended.
pub open spec fn integrity_input(typ: u16, tid: Seq<u8>, body: Seq<u8>) -> Seq<u8> {
    enc_msg_with_len(typ, (body.len() + 24) as u16, tid, body)
}

/// `body` extended with its MESSAGE-INTEGRITY attribute under `key`.
pub open spec fn body_with_integrity(typ: u16, tid: Seq<u8>, body: Seq<u8>, key: Seq<u8>) -> Seq<
    u8,
> {
    body + attr_bytes(ATTR_MESSAGE_INTEGRITY, hmac_sha1(key, integrity_input(typ, tid, body)))
}

/// What the FINGERPRINT checksum is computed over: the message with `body`
/// as its attributes and the declared length counting the 8-byte
/// fingerprint attribute about to be appended.
pub open spec fn fingerprint_input(typ: u16, tid: Seq<u8>, body: Seq<u8>) -> Seq<u8> {
    enc_msg_with_len(typ, (body.len() + 8) as u16, tid, body)
}

/// `body` extended with its FINGERPRINT attribute.
pub open spec fn body_with_fingerprint(typ: u16, tid: Seq<u8>, body: Seq<u8>) -> Seq<u8> {
    body + attr_bytes(ATTR_FINGERPRINT, be32(crc32_ieee(fingerprint_input(typ, tid, body))
        ^ FINGERPRINT_XOR))
}

/// The wire form of an authenticated request: the attribute bytes, then
/// MESSAGE-INTEGRITY, then FINGERPRINT, in that order, as the last two
/// attributes.
pub open spec fn authenticated_msg(typ: u16, tid: Seq<u8>, body: Seq<u8>, key: Seq<u8>) -> Seq<
    u8,
> {
    let b2 = body_with_integrity(typ, tid, body, key);
    let b3 = body_with_fingerprint(typ, tid, b2);
    enc_msg_with_len(typ, b3.len() as u16, tid, b3)
}

/// The wire form of an indication: the attribute bytes, then FINGERPRINT
/// as the last attribute, without integrity.
pub open spec fn fingerprinted_msg(typ: u16, tid: Seq<u8>, body: Seq<u8>) -> Seq<u8> {
    let b2 = body_with_fingerprint(typ, tid, body);
    enc_msg_with_len(typ, b2.len() as u16, tid, b2)
}

/// Encodes a message closed by MESSAGE-INTEGRITY and FINGERPRINT.
pub fn encode_with_auth(typ: u16, tid: &Vec<u8>, attrs: &Vec<RawAttr>, key: &[u8]) -> (r: Vec<u8>)
    requires
        tid@.len() == 12,
        forall|i: int| 0 <= i < attrs@.len() ==> attr_wf(#[trigger] attrs@[i]),
        enc_attrs(attrs@).len() + 32 <= 0xFFFF,
    ensures
        r@ == authenticated_msg(typ, tid@, enc_attrs(attrs@), key@),
{
    let mut body = encode_attrs(attrs);
    let ghost body0 = body@;
    let mi_input = assemble_message(typ, (body.len() + 24) as u16, tid, &body);
    let digest = hmac_sha1_digest(key, mi_input.as_slice());
    push_u16(&mut body, ATTR_MESSAGE_INTEGRITY);
    push_u16(&mut body, 20);
    push_bytes(&mut body, digest.as_slice());
    proof {
        assert(body@ =~= body_with_integrity(typ, tid@, body0, key@));
    }
    let ghost body2 = body@;
    let fp_input = assemble_message(typ, (body.len() + 8) as u16, tid, &body);
    let fp = fingerprint_value(fp_input.as_slice());
    push_u16(&mut body, ATTR_FINGERPRINT);
    push_u16(&mut body, 4);
    push_u32(&mut body, fp);
    proof {
        assert(body@ =~= body_with_fingerprint(typ, tid@, body2));
    }
    assemble_message(typ, body.len() as u16, tid, &body)
}

/// Encodes an indication closed by FINGERPRINT only.
pub fn encode_with_fingerprint(typ: u16, tid: &Vec<u8>, attrs: &Vec<RawAttr>) -> (r: Vec<u8>)
    requires
        tid@.len() == 12,
        forall|i: int| 0 <= i < attrs@.len() ==> attr_wf(#[trigger] attrs@[i]),
        enc_attrs(attrs@).len() + 8 <= 0xFFFF,
    ensures
        r@ == fingerprinted_msg(typ, tid@, enc_attrs(attrs@)),
{
    let mut body = encode_attrs(attrs);
    let ghost body0 = body@;
    let fp_input = assemble_message(typ, (body.len() + 8) as u16, tid, &body);
    let fp = fingerprint_value(fp_input.as_slice());
    push_u16(&mut body, ATTR_FINGERPRINT);
    push_u16(&mut body, 4);
    push_u32(&mut body, fp);
    proof {
        assert(body@ =~= body_with_fingerprint(typ, tid@, body0));
    }
    assemble_message(typ, body.len() as u16, tid, &body)
}

/// Whether `b` ends in a FINGERPRINT attribute whose value matches the
/// CRC-32 of everything before that attribute.
pub open spec fn has_valid_fingerprint(b: Seq<u8>) -> bool {
    &&& b.len() >= 28
    &&& b.subrange(b.len() - 8, b.len() - 4) == be16(ATTR_FINGERPRINT) + be16(4)
    &&& u32_of(b[b.len() - 4], b[b.len() - 3], b[b.len() - 2], b[b.len() - 1]) == crc32_ieee(
        b.take(b.len() - 8)) ^ FINGERPRINT_XOR
}

/// Validates the trailing FINGERPRINT attribute of a datagram.
pub fn check_fingerprint(buf: &[u8]) -> (r: bool)
    ensures
        r == has_valid_fingerprint(buf@),
{
    if buf.len() < 28 {
        return false;
    }
    let fstart = buf.len() - 8;
    let t = read_u16(buf, fstart);
    let l = read_u16(buf, fstart + 2);
    proof {
        lemma_u16_of_inverse(buf@[fstart as int], buf@[fstart + 1]);
        lemma_u16_of_inverse(buf@[fstart + 2], buf@[fstart + 3]);
        lemma_be16_roundtrip(ATTR_FINGERPRINT);
        lemma_be16_roundtrip(4);
        lemma_be16_pair(ATTR_FINGERPRINT, 4);
        assert((buf@.subrange(fstart as int, fstart + 4) == be16(ATTR_FINGERPRINT) + be16(4))
            <==> (t == ATTR_FINGERPRINT && l == 4)) by {
            lemma_u16_of_inverse(buf@[fstart as int], buf@[fstart + 1]);
            lemma_u16_of_inverse(buf@[fstart + 2], buf@[fstart + 3]);
            lemma_be16_roundtrip(ATTR_FINGERPRINT);
            lemma_be16_roundtrip(4);
            lemma_be16_pair(ATTR_FINGERPRINT, 4);
            let s = buf@.subrange(fstart as int, fstart + 4);
            assert(s[0] == buf@[fstart as int] && s[1] == buf@[fstart + 1] && s[2] == buf@[fstart
                + 2] && s[3] == buf@[fstart + 3]);
            if s == be16(ATTR_FINGERPRINT) + be16(4) {
                assert(s[2] == be16(4u16)[0] && s[3] == be16(4u16)[1]);
                assert(l == u16_of(be16(4u16)[0], be16(4u16)[1]));
            } else {
                if t == ATTR_FINGERPRINT && l == 4 {
                    assert(s =~= be16(ATTR_FINGERPRINT) + be16(4));
                }
            }
        }
    }
    if t != ATTR_FINGERPRINT || l != 4 {
        return false;
    }
    let covered = subrange_of(buf, 0, fstart);
    let expected = fingerprint_value(covered.as_slice());
    let val = read_u32(buf, fstart + 4);
    proof {
        assert(buf@.take(fstart as int) =~= buf@.subrange(0, fstart as int));
    }
    val == expected
}

/// Where a MESSAGE-INTEGRITY attribute must sit: last, or just before a
/// trailing FINGERPRINT attribute.
pub open spec fn mi_pos(b: Seq<u8>) -> int {
    if fingerprint_tail(b) {
        b.len() - 32
    } else {
        b.len() - 24
    }
}

/// Whether the last 8 bytes of `b` look like a FINGERPRINT attribute.
pub open spec fn fingerprint_tail(b: Seq<u8>) -> bool {
    b.len() >= 8 && b.subrange(b.len() - 8, b.len() - 4) == be16(ATTR_FINGERPRINT) + be16(4)
}

/// Whether `b` carries at `mi_start` a MESSAGE-INTEGRITY attribute valid
/// under `key`: its digest covers everything before the attribute, with
/// the declared length set to end at the attribute.
pub open spec fn valid_integrity_at(b: Seq<u8>, mi_start: int, key: Seq<u8>) -> bool {
    &&& 20 <= mi_start
    &&& mi_start + 24 <= b.len()
    &&& b.subrange(mi_start, mi_start + 4) == be16(ATTR_MESSAGE_INTEGRITY) + be16(20)
    &&& b.subrange(mi_start + 4, mi_start + 24) == hmac_sha1(key, b.take(2) + be16((mi_start
        + 4) as u16) + b.subrange(4, mi_start))
}

/// Whether the last 8 bytes of `buf` carry a FINGERPRINT attribute
/// header, whatever its value.
pub fn has_fingerprint_attr(buf: &[u8]) -> (r: bool)
    ensures
        r == fingerprint_tail(buf@),
{
    let n = buf.len();
    if n < 8 {
        return false;
    }
    let t = read_u16(buf, n - 8);
    let l = read_u16(buf, n - 6);
    proof {
        lemma_u16_of_inverse(buf@[n - 8], buf@[n - 7]);
        lemma_u16_of_inverse(buf@[n - 6], buf@[n - 5]);
        lemma_be16_roundtrip(ATTR_FINGERPRINT);
        lemma_be16_roundtrip(4);
        lemma_be16_pair(ATTR_FINGERPRINT, 4);
        let s = buf@.subrange(n - 8, n - 4);
        assert(s[0] == buf@[n - 8] && s[1] == buf@[n - 7] && s[2] == buf@[n - 6] && s[3]
            == buf@[n - 5]);
        if t == ATTR_FINGERPRINT && l == 4 {
            assert(s =~= be16(ATTR_FINGERPRINT) + be16(4));
        } else {
            if fingerprint_tail(buf@) {
                assert(s[2] == be16(4u16)[0] && s[3] == be16(4u16)[1]);
                assert(l == u16_of(be16(4u16)[0], be16(4u16)[1]));
            }
        }
    }
    t == ATTR_FINGERPRINT && l == 4
}

/// Whether `buf` carries a MESSAGE-INTEGRITY attribute header where one
/// must sit (last, or just before a trailing FINGERPRINT), whatever its
/// digest.
pub open spec fn mi_header_present(b: Seq<u8>) -> bool {
    &&& 20 <= mi_pos(b)
    &&& mi_pos(b) + 24 <= b.len()
    &&& b.subrange(mi_pos(b), mi_pos(b) + 4) == be16(ATTR_MESSAGE_INTEGRITY) + be16(20)
}

/// Looks for a MESSAGE-INTEGRITY attribute header at its place.
pub fn has_integrity_attr(buf: &[u8]) -> (r: bool)
    ensures
        r == mi_header_present(buf@),
{
    let n = buf.len();
    let has_fp = has_fingerprint_attr(buf);
    let mi_end = if has_fp {
        n - 8
    } else {
        n
    };
    if mi_end < 44 {
        return false;
    }
    let mi_start = mi_end - 24;
    let t = read_u16(buf, mi_start);
    let l = read_u16(buf, mi_start + 2);
    proof {
        lemma_u16_of_inverse(buf@[mi_start as int], buf@[mi_start + 1]);
        lemma_u16_of_inverse(buf@[mi_start + 2], buf@[mi_start + 3]);
        lemma_be16_roundtrip(ATTR_MESSAGE_INTEGRITY);
        lemma_be16_roundtrip(20);
        lemma_be16_pair(ATTR_MESSAGE_INTEGRITY, 20);
        let s = buf@.subrange(mi_start as int, mi_start + 4);
        assert(s[0] == buf@[mi_start as int] && s[1] == buf@[mi_start + 1] && s[2] == buf@[mi_start
            + 2] && s[3] == buf@[mi_start + 3]);
        if t == ATTR_MESSAGE_INTEGRITY && l == 20 {
            assert(s =~= be16(ATTR_MESSAGE_INTEGRITY) + be16(20));
        } else {
            if s == be16(ATTR_MESSAGE_INTEGRITY) + be16(20) {
                assert(s[2] == be16(20u16)[0] && s[3] == be16(20u16)[1]);
                assert(l == u16_of(be16(20u16)[0], be16(20u16)[1]));
            }
        }
    }
    t == ATTR_MESSAGE_INTEGRITY && l == 20
}

/// Validates the MESSAGE-INTEGRITY attribute of a datagram under `key`,
/// looking for it at the end or just before a trailing FINGERPRINT.
pub fn check_integrity(buf: &[u8], key: &[u8]) -> (r: bool)
    ensures
        r == valid_integrity_at(buf@, mi_pos(buf@), key@),
{
    if !has_integrity_attr(buf) {
        return false;
    }
    let n = buf.len();
    let has_fp = has_fingerprint_attr(buf);
    let mi_end = if has_fp {
        n - 8
    } else {
        n
    };
    let mi_start = mi_end - 24;
    let mut input: Vec<u8> = Vec::new();
    input.push(buf[0]);
    input.push(buf[1]);
    push_u16(&mut input, (mi_start + 4) as u16);
    let middle = subrange_of(buf, 4, mi_start);
    push_bytes(&mut input, middle.as_slice());
    proof {
        assert(input@ =~= buf@.take(2) + be16((mi_start + 4) as u16) + buf@.subrange(4,
            mi_start as int));
    }
    let digest = hmac_sha1_digest(key, input.as_slice());
    let carried = subrange_of(buf, mi_start + 4, mi_start + 24);
    bytes_eq(digest.as_slice(), carried.as_slice())
}

/// Decodes a STUN message and validates its closing attributes: a
/// malformed buffer or a wrong FINGERPRINT is rejected as `Format`, and,
/// when a key is given, a wrong MESSAGE-INTEGRITY digest as `Integrity`.
/// Attributes that are absent are not demanded.
pub fn validate_message(buf: &[u8], key: Option<&[u8]>) -> (r: Result<
    crate::stun::StunMessage, crate::errors::TurnError>)
    ensures
        !crate::stun::stun_bytes_wf(buf@) ==> r == Err::<crate::stun::StunMessage,
            crate::errors::TurnError>(crate::errors::TurnError::Format),
        crate::stun::stun_bytes_wf(buf@) && fingerprint_tail(buf@) && !has_valid_fingerprint(
            buf@) ==> r == Err::<crate::stun::StunMessage, crate::errors::TurnError>(
            crate::errors::TurnError::Format),
        crate::stun::stun_bytes_wf(buf@) && (fingerprint_tail(buf@) ==> has_valid_fingerprint(
            buf@)) ==> match key {
            Option::Some(k) => if mi_header_present(buf@) && !valid_integrity_at(buf@, mi_pos(
                buf@), k@) {
                r == Err::<crate::stun::StunMessage, crate::errors::TurnError>(
                    crate::errors::TurnError::Integrity)
            } else {
                r matches Ok(m) && crate::stun::msg_wf(m) && crate::stun::enc_msg(m) == buf@
            },
            Option::None => r matches Ok(m) && crate::stun::msg_wf(m) && crate::stun::enc_msg(m)
                == buf@,
        },
{
    let msg = match crate::stun::decode_message(buf) {
        Result::Ok(m) => m,
        Result::Err(e) => {
            return Err(e);
        },
    };
    if has_fingerprint_attr(buf) && !check_fingerprint(buf) {
        return Err(crate::errors::TurnError::Format);
    }
    match key {
        Option::Some(k) => {
            if has_integrity_attr(buf) && !check_integrity(buf, k) {
                return Err(crate::errors::TurnError::Integrity);
            }
        },
        Option::None => {},
    }
    Ok(msg)
}

} // verus!
