//! Builders for the outbound TURN messages: CreatePermission, ChannelBind
//! and Refresh requests (authenticated and fingerprinted) and the Send
//! indication (fingerprinted only).  Each builder's bytes are pinned down
//! by a spec-level description.

use vstd::prelude::*;

use crate::addr::PeerAddr;
use crate::attrs::{channel_number_value, make_bytes_attr, make_channel_number_attr,
    make_u32_attr, make_xor_addr_attr, xor_addr_value};
use crate::auth::{authenticated_msg, encode_with_auth, encode_with_fingerprint,
    fingerprinted_msg};
use crate::stun::{attr_bytes, enc_attrs, lemma_enc_attrs_snoc, msg_type, spec_msg_type, RawAttr,
    ATTR_CHANNEL_NUMBER, ATTR_DATA, ATTR_LIFETIME, ATTR_NONCE, ATTR_REALM, ATTR_USERNAME,
    ATTR_XOR_PEER_ADDRESS, CLASS_INDICATION, CLASS_REQUEST, METHOD_CHANNEL_BIND,
    METHOD_CREATE_PERMISSION, METHOD_REFRESH, METHOD_SEND};
use crate::wire::be32;

verus! {

/// The longest credential (username, realm or nonce) a request carries.
pub const MAX_CREDENTIAL_LEN: usize = 512;

/// The most peer addresses one CreatePermission request may carry: at
/// twelve bytes per XOR-PEER-ADDRESS, this fills the 16-bit message
/// length alongside maximal credentials and the closing attributes.
pub const MAX_PERMISSION_ADDRS: usize = 5000;

/// The most application bytes one Send indication or ChannelData frame may
/// carry.
pub const MAX_PAYLOAD_LEN: usize = 65000;

/// The XOR-PEER-ADDRESS attributes for a list of peers, in order.
pub open spec fn xor_peer_attrs(addrs: Seq<PeerAddr>) -> Seq<u8>
    decreases addrs.len(),
{
    if addrs.len() == 0 {
        Seq::empty()
    } else {
        attr_bytes(ATTR_XOR_PEER_ADDRESS, xor_addr_value(addrs[0])) + xor_peer_attrs(
            addrs.drop_first())
    }
}

/// The USERNAME, REALM and NONCE attributes every authenticated request
/// carries, in order.
pub open spec fn credential_attrs(username: Seq<u8>, realm: Seq<u8>, nonce: Seq<u8>) -> Seq<u8> {
    attr_bytes(ATTR_USERNAME, username) + attr_bytes(ATTR_REALM, realm) + attr_bytes(ATTR_NONCE,
        nonce)
}

/// The bytes of a CreatePermission request for `addrs`.
pub open spec fn create_permission_request(addrs: Seq<PeerAddr>, username: Seq<u8>, realm: Seq<
    u8>, nonce: Seq<u8>, key: Seq<u8>, tid: Seq<u8>) -> Seq<u8> {
    authenticated_msg(spec_msg_type(METHOD_CREATE_PERMISSION, CLASS_REQUEST), tid, xor_peer_attrs(
        addrs) + credential_attrs(username, realm, nonce), key)
}

/// The bytes of a ChannelBind request binding `addr` to channel `num`.
pub open spec fn channel_bind_request(addr: PeerAddr, num: u16, username: Seq<u8>, realm: Seq<
    u8>, nonce: Seq<u8>, key: Seq<u8>, tid: Seq<u8>) -> Seq<u8> {
    authenticated_msg(spec_msg_type(METHOD_CHANNEL_BIND, CLASS_REQUEST), tid, attr_bytes(
        ATTR_XOR_PEER_ADDRESS, xor_addr_value(addr)) + attr_bytes(ATTR_CHANNEL_NUMBER,
        channel_number_value(num)) + credential_attrs(username, realm, nonce), key)
}

/// The bytes of a Refresh request asking for `lifetime_secs`.
pub open spec fn refresh_request(lifetime_secs: u32, username: Seq<u8>, realm: Seq<u8>, nonce: Seq<
    u8>, key: Seq<u8>, tid: Seq<u8>) -> Seq<u8> {
    authenticated_msg(spec_msg_type(METHOD_REFRESH, CLASS_REQUEST), tid, attr_bytes(ATTR_LIFETIME,
        be32(lifetime_secs)) + credential_attrs(username, realm, nonce), key)
}

/// The bytes of a Send indication carrying `data` to `addr`.
pub open spec fn send_indication(data: Seq<u8>, addr: PeerAddr, tid: Seq<u8>) -> Seq<u8> {
    fingerprinted_msg(spec_msg_type(METHOD_SEND, CLASS_INDICATION), tid, attr_bytes(ATTR_DATA,
        data) + attr_bytes(ATTR_XOR_PEER_ADDRESS, xor_addr_value(addr)))
}

/// The rotated nonce reaches the wire: a CreatePermission request built
/// from a state whose nonce was just adopted from a STALE_NONCE response
/// (see `RelayConn::on_permission_response`) carries exactly that nonce
/// as its NONCE attribute bytes, at the fixed place after the peer
/// addresses, USERNAME and REALM.  So retrying under the new nonce is
/// what converges the permission gate.
pub proof fn lemma_request_carries_nonce(addrs: Seq<PeerAddr>, username: Seq<u8>, realm: Seq<
    u8>, nonce: Seq<u8>, key: Seq<u8>, tid: Seq<u8>)
    ensures
        ({
            let req = create_permission_request(addrs, username, realm, nonce, key, tid);
            let off = 20 + xor_peer_attrs(addrs).len() + attr_bytes(ATTR_USERNAME,
                username).len() + attr_bytes(ATTR_REALM, realm).len();
            &&& tid.len() == 12 ==> req.subrange(off as int, off as int + attr_bytes(ATTR_NONCE,
                nonce).len() as int) == attr_bytes(ATTR_NONCE, nonce)
        }),
{
    let req = create_permission_request(addrs, username, realm, nonce, key, tid);
    let body = xor_peer_attrs(addrs) + credential_attrs(username, realm, nonce);
    let na = attr_bytes(ATTR_NONCE, nonce);
    let off = 20 + xor_peer_attrs(addrs).len() + attr_bytes(ATTR_USERNAME, username).len()
        + attr_bytes(ATTR_REALM, realm).len();
    if tid.len() == 12 {
        assert(req.subrange(off as int, off as int + na.len() as int) =~= na);
    }
}

/// An attribute's bytes are at most its value plus seven.
proof fn lemma_attr_bytes_len(typ: u16, value: Seq<u8>)
    ensures
        attr_bytes(typ, value).len() == 4 + value.len() + crate::wire::pad_len(
            value.len() as int),
        crate::wire::pad_len(value.len() as int) <= 3,
{
}

/// Encodes a CreatePermission request.
pub fn create_permission_request_msg(addrs: &Vec<PeerAddr>, username: &Vec<u8>, realm: &Vec<u8>,
    nonce: &Vec<u8>, key: &Vec<u8>, tid: &Vec<u8>) -> (r: Vec<u8>)
    requires
        tid@.len() == 12,
        username@.len() <= MAX_CREDENTIAL_LEN,
        realm@.len() <= MAX_CREDENTIAL_LEN,
        nonce@.len() <= MAX_CREDENTIAL_LEN,
        addrs@.len() <= MAX_PERMISSION_ADDRS,
    ensures
        r@ == create_permission_request(addrs@, username@, realm@, nonce@, key@, tid@),
{
    let mut attrs: Vec<RawAttr> = Vec::new();
    let n = addrs.len();
    proof {
        assert(addrs@.take(0) =~= Seq::<PeerAddr>::empty());
        assert(enc_attrs(attrs@) =~= xor_peer_attrs(addrs@.take(0)));
    }
    for i in 0..n
        invariant
            n == addrs@.len() <= MAX_PERMISSION_ADDRS,
            forall|k: int| 0 <= k < attrs@.len() ==> crate::stun::attr_wf(#[trigger] attrs@[k]),
            enc_attrs(attrs@) == xor_peer_attrs(addrs@.take(i as int)),
            enc_attrs(attrs@).len() == 12 * i,
    {
        let a = make_xor_addr_attr(ATTR_XOR_PEER_ADDRESS, addrs[i]);
        let ghost pre = attrs@;
        attrs.push(a);
        proof {
            lemma_enc_attrs_snoc(pre, a);
            assert(addrs@.take(i + 1) =~= addrs@.take(i as int).push(addrs@[i as int]));
            lemma_xor_peer_attrs_snoc(addrs@.take(i as int), addrs@[i as int]);
            assert(attrs@ =~= pre.push(a));
        }
    }
    proof {
        assert(addrs@.take(n as int) =~= addrs@);
    }
    push_credentials(&mut attrs, username, realm, nonce);
    encode_with_auth(msg_type(METHOD_CREATE_PERMISSION, CLASS_REQUEST), tid, &attrs,
        key.as_slice())
}

/// Appending one peer appends its attribute bytes.
proof fn lemma_xor_peer_attrs_snoc(addrs: Seq<PeerAddr>, a: PeerAddr)
    ensures
        xor_peer_attrs(addrs.push(a)) == xor_peer_attrs(addrs) + attr_bytes(
            ATTR_XOR_PEER_ADDRESS, xor_addr_value(a)),
    decreases addrs.len(),
{
    if addrs.len() == 0 {
        assert(addrs.push(a)[0] == a);
        assert(addrs.push(a).drop_first() =~= Seq::<PeerAddr>::empty());
        assert(xor_peer_attrs(Seq::<PeerAddr>::empty()) == Seq::<u8>::empty());
        assert(xor_peer_attrs(addrs.push(a)) =~= xor_peer_attrs(addrs) + attr_bytes(
            ATTR_XOR_PEER_ADDRESS, xor_addr_value(a)));
    } else {
        lemma_xor_peer_attrs_snoc(addrs.drop_first(), a);
        assert(addrs.push(a).drop_first() =~= addrs.drop_first().push(a));
        assert(addrs.push(a)[0] == addrs[0]);
        assert(xor_peer_attrs(addrs.push(a)) =~= xor_peer_attrs(addrs) + attr_bytes(
            ATTR_XOR_PEER_ADDRESS, xor_addr_value(a)));
    }
}

/// Pushes the USERNAME, REALM and NONCE attributes.
fn push_credentials(attrs: &mut Vec<RawAttr>, username: &Vec<u8>, realm: &Vec<u8>, nonce: &Vec<
    u8>)
    requires
        username@.len() <= MAX_CREDENTIAL_LEN,
        realm@.len() <= MAX_CREDENTIAL_LEN,
        nonce@.len() <= MAX_CREDENTIAL_LEN,
        forall|k: int|
            0 <= k < old(attrs)@.len() ==> crate::stun::attr_wf(#[trigger] old(attrs)@[k]),
    ensures
        forall|k: int|
            0 <= k < final(attrs)@.len() ==> crate::stun::attr_wf(#[trigger] final(attrs)@[k]),
        enc_attrs(final(attrs)@) == enc_attrs(old(attrs)@) + credential_attrs(username@, realm@,
            nonce@),
        enc_attrs(final(attrs)@).len() <= enc_attrs(old(attrs)@).len() + 1557,
{
    let a1 = make_bytes_attr(ATTR_USERNAME, username.as_slice());
    let a2 = make_bytes_attr(ATTR_REALM, realm.as_slice());
    let a3 = make_bytes_attr(ATTR_NONCE, nonce.as_slice());
    let ghost s0 = attrs@;
    attrs.push(a1);
    let ghost s1 = attrs@;
    attrs.push(a2);
    let ghost s2 = attrs@;
    attrs.push(a3);
    proof {
        lemma_enc_attrs_snoc(s0, a1);
        lemma_enc_attrs_snoc(s1, a2);
        lemma_enc_attrs_snoc(s2, a3);
        assert(s1 =~= s0.push(a1));
        assert(s2 =~= s1.push(a2));
        assert(attrs@ =~= s2.push(a3));
        lemma_attr_bytes_len(ATTR_USERNAME, username@);
        lemma_attr_bytes_len(ATTR_REALM, realm@);
        lemma_attr_bytes_len(ATTR_NONCE, nonce@);
        assert(enc_attrs(attrs@) =~= enc_attrs(s0) + credential_attrs(username@, realm@, nonce@));
    }
}

/// Encodes a ChannelBind request.
pub fn channel_bind_request_msg(addr: PeerAddr, num: u16, username: &Vec<u8>, realm: &Vec<u8>,
    nonce: &Vec<u8>, key: &Vec<u8>, tid: &Vec<u8>) -> (r: Vec<u8>)
    requires
        tid@.len() == 12,
        username@.len() <= MAX_CREDENTIAL_LEN,
        realm@.len() <= MAX_CREDENTIAL_LEN,
        nonce@.len() <= MAX_CREDENTIAL_LEN,
    ensures
        r@ == channel_bind_request(addr, num, username@, realm@, nonce@, key@, tid@),
{
    let mut attrs: Vec<RawAttr> = Vec::new();
    let a1 = make_xor_addr_attr(ATTR_XOR_PEER_ADDRESS, addr);
    let a2 = make_channel_number_attr(num);
    let ghost s0 = attrs@;
    attrs.push(a1);
    let ghost s1 = attrs@;
    attrs.push(a2);
    proof {
        lemma_enc_attrs_snoc(s0, a1);
        lemma_enc_attrs_snoc(s1, a2);
        assert(s1 =~= s0.push(a1));
        assert(attrs@ =~= s1.push(a2));
        assert(enc_attrs(s0) =~= Seq::<u8>::empty());
        assert(enc_attrs(attrs@) =~= attr_bytes(ATTR_XOR_PEER_ADDRESS, xor_addr_value(addr))
            + attr_bytes(ATTR_CHANNEL_NUMBER, channel_number_value(num)));
    }
    push_credentials(&mut attrs, username, realm, nonce);
    encode_with_auth(msg_type(METHOD_CHANNEL_BIND, CLASS_REQUEST), tid, &attrs, key.as_slice())
}

/// Encodes a Refresh request.
pub fn refresh_request_msg(lifetime_secs: u32, username: &Vec<u8>, realm: &Vec<u8>, nonce: &Vec<
    u8>, key: &Vec<u8>, tid: &Vec<u8>) -> (r: Vec<u8>)
    requires
        tid@.len() == 12,
        username@.len() <= MAX_CREDENTIAL_LEN,
        realm@.len() <= MAX_CREDENTIAL_LEN,
        nonce@.len() <= MAX_CREDENTIAL_LEN,
    ensures
        r@ == refresh_request(lifetime_secs, username@, realm@, nonce@, key@, tid@),
{
    let mut attrs: Vec<RawAttr> = Vec::new();
    let a1 = make_u32_attr(ATTR_LIFETIME, lifetime_secs);
    let ghost s0 = attrs@;
    attrs.push(a1);
    proof {
        lemma_enc_attrs_snoc(s0, a1);
        assert(attrs@ =~= s0.push(a1));
        assert(enc_attrs(s0) =~= Seq::<u8>::empty());
        assert(enc_attrs(attrs@) =~= attr_bytes(ATTR_LIFETIME, be32(lifetime_secs)));
    }
    push_credentials(&mut attrs, username, realm, nonce);
    encode_with_auth(msg_type(METHOD_REFRESH, CLASS_REQUEST), tid, &attrs, key.as_slice())
}

/// Encodes a Send indication.
pub fn send_indication_msg(data: &[u8], addr: PeerAddr, tid: &Vec<u8>) -> (r: Vec<u8>)
    requires
        tid@.len() == 12,
        data@.len() <= MAX_PAYLOAD_LEN,
    ensures
        r@ == send_indication(data@, addr, tid@),
{
    let mut attrs: Vec<RawAttr> = Vec::new();
    let a1 = make_bytes_attr(ATTR_DATA, data);
    let a2 = make_xor_addr_attr(ATTR_XOR_PEER_ADDRESS, addr);
    let ghost s0 = attrs@;
    attrs.push(a1);
    let ghost s1 = attrs@;
    attrs.push(a2);
    proof {
        lemma_enc_attrs_snoc(s0, a1);
        lemma_enc_attrs_snoc(s1, a2);
        assert(s1 =~= s0.push(a1));
        assert(attrs@ =~= s1.push(a2));
        assert(enc_attrs(s0) =~= Seq::<u8>::empty());
        lemma_attr_bytes_len(ATTR_DATA, data@);
        assert(enc_attrs(attrs@) =~= attr_bytes(ATTR_DATA, data@) + attr_bytes(
            ATTR_XOR_PEER_ADDRESS, xor_addr_value(addr)));
    }
    encode_with_fingerprint(msg_type(METHOD_SEND, CLASS_INDICATION), tid, &attrs)
}

} // verus!
