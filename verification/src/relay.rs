//! The relay connection.
//!
//! One `RelayConn` multiplexes application datagrams to arbitrary peers
//! over a single TURN allocation.  It owns the permission cache, the
//! binding manager, the receive queue, the rotating nonce and the
//! long-term credentials.  Every method here is a plain function from
//! state and inputs (bytes, addresses, clock readings, transaction ids)
//! to state and outputs: the surrounding runtime performs the socket
//! writes and transaction waits and feeds the responses back in.

use vstd::prelude::*;
use vstd::pervasive::VecAdditionalExecFns;

use crate::addr::PeerAddr;
use crate::attrs::{error_code_of, find_attr_bytes, get_attr, get_error_code, get_lifetime,
    get_xor_peer_address, is_xor_addr_value, lemma_find_attr_bytes, spec_find_attr,
    xor_addr_value};
use crate::binding::{number_used, Binding, BindingManager, BindingState};
use crate::chandata::{channel_data_frame, chandata_wf, decode_channel_data, is_channel_data,
    is_stun_message, CHANNEL_MAX, CHANNEL_MIN};
use crate::errors::TurnError;
use crate::perm::{PermissionMap, PermState};
use crate::requests::{channel_bind_request, channel_bind_request_msg, create_permission_request,
    create_permission_request_msg, refresh_request, refresh_request_msg, send_indication,
    send_indication_msg, MAX_CREDENTIAL_LEN, MAX_PAYLOAD_LEN};
use crate::stun::{class_of, decode_message, enc_msg, lemma_msg_type_parts, msg_class, msg_type,
    msg_wf, spec_msg_type, stun_bytes_wf, StunMessage, ATTR_DATA, ATTR_ERROR_CODE,
    ATTR_LIFETIME, ATTR_NONCE, ATTR_XOR_PEER_ADDRESS, CLASS_ERROR_RESPONSE, CLASS_INDICATION,
    CLASS_SUCCESS_RESPONSE, CODE_STALE_NONCE, METHOD_CHANNEL_BIND, METHOD_DATA};
use crate::wire::{u16_of, u32_of};

verus! {

/// How many times the permission gate retries after STALE_NONCE.
pub const MAX_RETRY_ATTEMPTS: u16 = 3;

/// How long a Ready binding may rest before a background re-bind, in
/// milliseconds (five minutes).
pub const BINDING_REFRESH_MS: u64 = 300000;

/// How often permissions are refreshed, in seconds (four minutes, under
/// the server's five-minute TTL).
pub const PERM_REFRESH_INTERVAL_SECS: u32 = 240;

/// The most datagrams the receive queue holds before dropping.
pub const MAX_QUEUE: usize = 512;

/// One inbound datagram, already resolved to its sender.
pub struct InboundData {
    pub data: Vec<u8>,
    pub from: PeerAddr,
}

/// What `send_to_dispatch` asks the runtime to do: write `datagram` to the
/// TURN server and, if present, run a ChannelBind transaction.
pub struct SendDispatch {
    pub datagram: Vec<u8>,
    pub bind_request: Option<Vec<u8>>,
}

/// How one inbound datagram was consumed.
pub enum InboundOutcome {
    /// Application data was pushed onto the receive queue.
    Delivered,
    /// A STUN response that belongs to the transaction engine.
    StunResponse(StunMessage),
    /// Unparseable, unknown, or the connection is closed: ignored.
    Dropped,
}

/// Whether `m` is an error response.
pub open spec fn is_error_response(m: StunMessage) -> bool {
    class_of(m.typ) == CLASS_ERROR_RESPONSE
}

/// The error code `m` carries, if its ERROR-CODE attribute parses.
pub open spec fn msg_error_code(m: StunMessage) -> Option<u16> {
    match spec_find_attr(m.attrs@, ATTR_ERROR_CODE) {
        Option::None => None,
        Option::Some(v) => if v.len() >= 4 {
            Some(error_code_of(v))
        } else {
            None
        },
    }
}

/// The NONCE bytes `m` carries, if any.
pub open spec fn msg_nonce(m: StunMessage) -> Option<Seq<u8>> {
    spec_find_attr(m.attrs@, ATTR_NONCE)
}

/// The LIFETIME seconds `m` carries, if its attribute parses.
pub open spec fn msg_lifetime(m: StunMessage) -> Option<u32> {
    match spec_find_attr(m.attrs@, ATTR_LIFETIME) {
        Option::None => None,
        Option::Some(v) => if v.len() == 4 {
            Some(u32_of(v[0], v[1], v[2], v[3]))
        } else {
            None
        },
    }
}

/// Whether a Ready binding is due for a background re-bind.
pub open spec fn binding_due(b: Binding, now_ms: u64) -> bool {
    b.state == BindingState::Ready && now_ms > b.refreshed_at && now_ms - b.refreshed_at
        > BINDING_REFRESH_MS
}

/// A relay connection over one allocation.
pub struct RelayConn {
    /// The allocation's relayed transport address.
    pub relayed_addr: PeerAddr,
    pub username: Vec<u8>,
    pub realm: Vec<u8>,
    /// Rotates whenever the server answers STALE_NONCE.
    pub nonce: Vec<u8>,
    pub integrity_key: Vec<u8>,
    /// The allocation lifetime last granted by the server, in seconds.
    pub lifetime_secs: u32,
    pub perms: PermissionMap,
    pub bindings: BindingManager,
    pub queue: Vec<InboundData>,
    pub closed: bool,
    /// Every datagram `send_to_dispatch` has handed out, oldest first:
    /// the model of what this connection put on the wire.
    pub wire_log: Ghost<Seq<Seq<u8>>>,
}

impl RelayConn {
    /// The caches are consistent and the credentials fit a request.
    pub open spec fn wf(&self) -> bool {
        &&& self.perms.wf()
        &&& self.bindings.wf()
        &&& self.username@.len() <= MAX_CREDENTIAL_LEN
        &&& self.realm@.len() <= MAX_CREDENTIAL_LEN
        &&& self.nonce@.len() <= MAX_CREDENTIAL_LEN
    }

    /// The permission state for an IP.
    pub open spec fn perm_of(&self, ip: u32) -> Option<PermState> {
        self.perms.find_spec(ip)
    }

    /// The binding for a peer.
    pub open spec fn binding_of(&self, addr: PeerAddr) -> Option<Binding> {
        self.bindings.find_addr_spec(addr)
    }

    /// The connection's identity is immutable: the relayed address and
    /// the long-term credentials never change after construction.  Only
    /// the nonce rotates.
    pub open spec fn same_credentials(&self, o: RelayConn) -> bool {
        &&& self.relayed_addr == o.relayed_addr
        &&& self.username == o.username
        &&& self.realm == o.realm
        &&& self.integrity_key == o.integrity_key
    }

    /// A fresh connection over an allocation.
    pub fn new(relayed_addr: PeerAddr, username: Vec<u8>, realm: Vec<u8>, nonce: Vec<u8>,
        integrity_key: Vec<u8>, lifetime_secs: u32) -> (r: RelayConn)
        requires
            username@.len() <= MAX_CREDENTIAL_LEN,
            realm@.len() <= MAX_CREDENTIAL_LEN,
            nonce@.len() <= MAX_CREDENTIAL_LEN,
        ensures
            r.wf(),
            !r.closed,
            r.relayed_addr == relayed_addr,
            r.username == username && r.realm == realm && r.nonce == nonce,
            r.integrity_key == integrity_key,
            r.lifetime_secs == lifetime_secs,
            forall|ip: u32| r.perm_of(ip) is None,
            forall|a: PeerAddr| r.binding_of(a) is None,
            r.queue@.len() == 0,
            r.wire_log@.len() == 0,
    {
        RelayConn {
            relayed_addr,
            username,
            realm,
            nonce,
            integrity_key,
            lifetime_secs,
            perms: PermissionMap::new(),
            bindings: BindingManager::new(),
            queue: Vec::new(),
            closed: false,
            wire_log: Ghost(Seq::<Seq<u8>>::empty()),
        }
    }

    /// The allocation's relayed address (the connection's local address).
    pub fn local_addr(&self) -> (r: PeerAddr)
        ensures
            r == self.relayed_addr,
    {
        self.relayed_addr
    }

    /// Adopts the nonce carried by a response, if one is present and fits;
    /// the only writer of the nonce.  A nonce beyond `MAX_CREDENTIAL_LEN`
    /// could not be proved to fit a request's 16-bit length fields, so it
    /// is ignored and the old nonce kept; RFC 5389 caps nonces at 128
    /// characters, far below that, so no conformant server is affected.
    pub fn set_nonce_from_msg(&mut self, msg: &StunMessage)
        requires
            old(self).wf(),
        ensures
            final(self).wf(),
            match msg_nonce(*msg) {
                Option::Some(nv) => if nv.len() <= MAX_CREDENTIAL_LEN {
                    final(self).nonce@ == nv
                } else {
                    final(self).nonce == old(self).nonce
                },
                Option::None => final(self).nonce == old(self).nonce,
            },
            final(self).perms == old(self).perms,
            final(self).bindings == old(self).bindings,
            final(self).queue == old(self).queue,
            final(self).closed == old(self).closed,
            final(self).lifetime_secs == old(self).lifetime_secs,
            final(self).same_credentials(*old(self)),
            final(self).wire_log@ == old(self).wire_log@,
    {
        match get_attr(msg, ATTR_NONCE) {
            Option::Some(v) => {
                if v.len() <= MAX_CREDENTIAL_LEN {
                    self.nonce = v;
                }
            },
            Option::None => {},
        }
    }

    /// The permission gate of `send_to`: if the peer's IP has no live
    /// permission, an Idle entry is recorded and a CreatePermission
    /// request to transact is returned; if it is already Permitted,
    /// nothing needs to be sent.
    pub fn send_to_prepare(&mut self, addr: PeerAddr, tid: &Vec<u8>) -> (r: Result<Option<Vec<
        u8>>, TurnError>)
        requires
            old(self).wf(),
            tid@.len() == 12,
        ensures
            final(self).wf(),
            final(self).same_credentials(*old(self)),
            final(self).lifetime_secs == old(self).lifetime_secs,
            final(self).wire_log@ == old(self).wire_log@,
            old(self).closed ==> r == Err::<Option<Vec<u8>>, TurnError>(TurnError::AlreadyClosed)
                && *final(self) == *old(self),
            !old(self).closed && old(self).perm_of(addr.ip) == Some(PermState::Permitted) ==> r
                == Ok::<Option<Vec<u8>>, TurnError>(None) && *final(self) == *old(self),
            !old(self).closed && old(self).perm_of(addr.ip) != Some(PermState::Permitted) ==> {
                &&& r matches Ok(Some(req)) && req@ == create_permission_request(seq![addr],
                    old(self).username@, old(self).realm@, old(self).nonce@,
                    old(self).integrity_key@, tid@)
                &&& final(self).perm_of(addr.ip) == Some(PermState::Idle)
                &&& forall|k: u32| k != addr.ip ==> final(self).perm_of(k) == old(self).perm_of(k)
                &&& final(self).bindings == old(self).bindings
                &&& final(self).queue == old(self).queue
                &&& final(self).nonce == old(self).nonce
                &&& final(self).closed == old(self).closed
            },
    {
        if self.closed {
            return Err(TurnError::AlreadyClosed);
        }
        let st = self.perms.find(addr.ip);
        match st {
            Option::Some(PermState::Permitted) => Ok(None),
            _ => {
                self.perms.insert(addr.ip, PermState::Idle);
                let mut addrs: Vec<PeerAddr> = Vec::new();
                addrs.push(addr);
                proof {
                    assert(addrs@ =~= seq![addr]);
                }
                let req = create_permission_request_msg(&addrs, &self.username, &self.realm,
                    &self.nonce, &self.integrity_key, tid);
                Ok(Some(req))
            },
        }
    }

    /// Digests the CreatePermission response for `addr`.  A success marks
    /// the permission Permitted.  A STALE_NONCE error adopts the new nonce
    /// and asks the caller to retry; the entry stays.  Any other error
    /// removes the permission and propagates.
    pub fn on_permission_response(&mut self, addr: PeerAddr, msg: &StunMessage) -> (r: Result<
        (), TurnError>)
        requires
            old(self).wf(),
        ensures
            final(self).wf(),
            final(self).closed == old(self).closed,
            final(self).bindings == old(self).bindings,
            final(self).queue == old(self).queue,
            final(self).same_credentials(*old(self)),
            final(self).lifetime_secs == old(self).lifetime_secs,
            final(self).wire_log@ == old(self).wire_log@,
            !is_error_response(*msg) ==> {
                &&& r is Ok
                &&& final(self).perm_of(addr.ip) == Some(PermState::Permitted)
                &&& forall|k: u32| k != addr.ip ==> final(self).perm_of(k) == old(self).perm_of(k)
                &&& final(self).nonce == old(self).nonce
            },
            is_error_response(*msg) && msg_error_code(*msg) == Some(CODE_STALE_NONCE) ==> {
                &&& r == Err::<(), TurnError>(TurnError::TryAgain)
                &&& final(self).perms == old(self).perms
                &&& (match msg_nonce(*msg) {
                    Option::Some(nv) => if nv.len() <= MAX_CREDENTIAL_LEN {
                        final(self).nonce@ == nv
                    } else {
                        final(self).nonce == old(self).nonce
                    },
                    Option::None => final(self).nonce == old(self).nonce,
                })
            },
            is_error_response(*msg) && msg_error_code(*msg) != Some(CODE_STALE_NONCE) ==> {
                &&& r == Err::<(), TurnError>(TurnError::Rejected)
                &&& final(self).perm_of(addr.ip) is None
                &&& forall|k: u32| k != addr.ip ==> final(self).perm_of(k) == old(self).perm_of(k)
                &&& final(self).nonce == old(self).nonce
            },
    {
        if msg_class(msg.typ) == CLASS_ERROR_RESPONSE {
            match get_error_code(msg) {
                Option::Some(code) => {
                    if code == CODE_STALE_NONCE {
                        self.set_nonce_from_msg(msg);
                        Err(TurnError::TryAgain)
                    } else {
                        self.perms.delete(addr.ip);
                        Err(TurnError::Rejected)
                    }
                },
                Option::None => {
                    self.perms.delete(addr.ip);
                    Err(TurnError::Rejected)
                },
            }
        } else {
            self.perms.insert(addr.ip, PermState::Permitted);
            Ok(())
        }
    }

    /// Forgets the permission entry for `addr` after a transport failure
    /// or timeout of its CreatePermission, so the next `send_to` retries
    /// from scratch.
    pub fn on_permission_failure(&mut self, addr: PeerAddr)
        requires
            old(self).wf(),
        ensures
            final(self).wf(),
            final(self).perm_of(addr.ip) is None,
            forall|k: u32| k != addr.ip ==> final(self).perm_of(k) == old(self).perm_of(k),
            final(self).bindings == old(self).bindings,
            final(self).queue == old(self).queue,
            final(self).nonce == old(self).nonce,
            final(self).closed == old(self).closed,
            final(self).same_credentials(*old(self)),
            final(self).lifetime_secs == old(self).lifetime_secs,
            final(self).wire_log@ == old(self).wire_log@,
    {
        self.perms.delete(addr.ip);
    }

    /// The dispatch step of `send_to`, after the permission gate: choose
    /// the wire form for `p` and drive the binding lifecycle.  A peer
    /// whose binding is Idle, Request or Failed gets a Send indication; a
    /// Ready or Refresh binding gets a compact ChannelData frame.  The
    /// first dispatch for a peer starts a ChannelBind; a Ready binding
    /// older than five minutes starts a background re-bind without
    /// leaving the fast path.
    pub fn send_to_dispatch(&mut self, p: &[u8], addr: PeerAddr, now_ms: u64, ind_tid: &Vec<u8>,
        bind_tid: &Vec<u8>) -> (r: Result<SendDispatch, TurnError>)
        requires
            old(self).wf(),
            ind_tid@.len() == 12,
            bind_tid@.len() == 12,
            p@.len() <= MAX_PAYLOAD_LEN,
        ensures
            final(self).wf(),
            final(self).perms == old(self).perms,
            final(self).queue == old(self).queue,
            final(self).nonce == old(self).nonce,
            final(self).closed == old(self).closed,
            final(self).same_credentials(*old(self)),
            final(self).lifetime_secs == old(self).lifetime_secs,
            r matches Ok(d) ==> final(self).wire_log@ == old(self).wire_log@.push(d.datagram@),
            r is Err ==> final(self).wire_log@ == old(self).wire_log@,
            old(self).closed ==> r == Err::<SendDispatch, TurnError>(TurnError::AlreadyClosed)
                && *final(self) == *old(self),
            !old(self).closed && old(self).binding_of(addr) is None ==> {
                ||| (r == Err::<SendDispatch, TurnError>(TurnError::AddrNotFound)
                    && final(self).bindings == old(self).bindings && (forall|m: u16|
                    CHANNEL_MIN <= m <= CHANNEL_MAX ==> number_used(
                        old(self).bindings.bindings@, m)))
                ||| (r matches Ok(d) && {
                    let nb = final(self).binding_of(addr)->Some_0;
                    &&& final(self).binding_of(addr) is Some
                    &&& nb.addr == addr
                    &&& nb.state == BindingState::Request
                    &&& !number_used(old(self).bindings.bindings@, nb.number)
                    &&& forall|m: u16|
                        CHANNEL_MIN <= m < nb.number ==> number_used(
                            old(self).bindings.bindings@, m)
                    &&& d.datagram@ == send_indication(p@, addr, ind_tid@)
                    &&& d.bind_request matches Some(br) && br@ == channel_bind_request(addr,
                        nb.number, old(self).username@, old(self).realm@, old(self).nonce@,
                        old(self).integrity_key@, bind_tid@)
                    &&& forall|k: PeerAddr|
                        k != addr ==> final(self).binding_of(k) == old(self).binding_of(k)
                })
            },
            !old(self).closed ==> (old(self).binding_of(addr) matches Some(b) ==> {
                &&& (b.state == BindingState::Idle ==> (r matches Ok(d) && {
                    &&& d.datagram@ == send_indication(p@, addr, ind_tid@)
                    &&& (d.bind_request matches Some(br) && br@ == channel_bind_request(addr,
                        b.number, old(self).username@, old(self).realm@, old(self).nonce@,
                        old(self).integrity_key@, bind_tid@))
                    &&& final(self).binding_of(addr) == Some(Binding {
                        number: b.number,
                        addr: b.addr,
                        state: BindingState::Request,
                        refreshed_at: b.refreshed_at,
                    })
                    &&& forall|k: PeerAddr|
                        k != addr ==> final(self).binding_of(k) == old(self).binding_of(k)
                }))
                &&& (b.state == BindingState::Request || b.state == BindingState::Failed ==> (r
                    matches Ok(d) && d.datagram@ == send_indication(p@, addr, ind_tid@)
                    && d.bind_request is None && final(self).bindings == old(self).bindings))
                &&& (binding_due(b, now_ms) ==> (r matches Ok(d) && {
                    &&& d.datagram@ == channel_data_frame(b.number, p@)
                    &&& (d.bind_request matches Some(br) && br@ == channel_bind_request(addr,
                        b.number, old(self).username@, old(self).realm@, old(self).nonce@,
                        old(self).integrity_key@, bind_tid@))
                    &&& final(self).binding_of(addr) == Some(Binding {
                        number: b.number,
                        addr: b.addr,
                        state: BindingState::Refresh,
                        refreshed_at: b.refreshed_at,
                    })
                    &&& forall|k: PeerAddr|
                        k != addr ==> final(self).binding_of(k) == old(self).binding_of(k)
                }))
                &&& ((b.state == BindingState::Ready && !binding_due(b, now_ms) || b.state
                    == BindingState::Refresh) ==> (r matches Ok(d) && d.datagram@
                    == channel_data_frame(b.number, p@) && d.bind_request is None
                    && final(self).bindings == old(self).bindings))
            }),
    {
        if self.closed {
            return Err(TurnError::AlreadyClosed);
        }
        let b = match self.bindings.find_by_addr(addr) {
            Option::Some(b) => b,
            Option::None => {
                match self.bindings.create(addr, now_ms) {
                    Option::Some(num) => Binding {
                        number: num,
                        addr,
                        state: BindingState::Idle,
                        refreshed_at: now_ms,
                    },
                    Option::None => {
                        return Err(TurnError::AddrNotFound);
                    },
                }
            },
        };
        match b.state {
            BindingState::Idle => {
                self.bindings.set_state(addr, BindingState::Request);
                let datagram = send_indication_msg(p, addr, ind_tid);
                let br = channel_bind_request_msg(addr, b.number, &self.username, &self.realm,
                    &self.nonce, &self.integrity_key, bind_tid);
                self.wire_log = Ghost(self.wire_log@.push(datagram@));
                Ok(SendDispatch { datagram, bind_request: Some(br) })
            },
            BindingState::Request => {
                let datagram = send_indication_msg(p, addr, ind_tid);
                self.wire_log = Ghost(self.wire_log@.push(datagram@));
                Ok(SendDispatch { datagram, bind_request: None })
            },
            BindingState::Failed => {
                let datagram = send_indication_msg(p, addr, ind_tid);
                self.wire_log = Ghost(self.wire_log@.push(datagram@));
                Ok(SendDispatch { datagram, bind_request: None })
            },
            BindingState::Ready => {
                if now_ms > b.refreshed_at && now_ms - b.refreshed_at > BINDING_REFRESH_MS {
                    self.bindings.set_state(addr, BindingState::Refresh);
                    let br = channel_bind_request_msg(addr, b.number, &self.username,
                        &self.realm, &self.nonce, &self.integrity_key, bind_tid);
                    let datagram = crate::chandata::encode_channel_data(b.number, p);
                    self.wire_log = Ghost(self.wire_log@.push(datagram@));
                    Ok(SendDispatch { datagram, bind_request: Some(br) })
                } else {
                    let datagram = crate::chandata::encode_channel_data(b.number, p);
                    self.wire_log = Ghost(self.wire_log@.push(datagram@));
                    Ok(SendDispatch { datagram, bind_request: None })
                }
            },
            BindingState::Refresh => {
                let datagram = crate::chandata::encode_channel_data(b.number, p);
                self.wire_log = Ghost(self.wire_log@.push(datagram@));
                Ok(SendDispatch { datagram, bind_request: None })
            },
        }
    }

    /// Digests the ChannelBind response for `addr`: a CHANNEL_BIND success
    /// marks the binding Ready and re-arms its refresh stamp; anything
    /// else marks it Failed and reports the unexpected response.
    pub fn on_bind_response(&mut self, addr: PeerAddr, msg: &StunMessage, now_ms: u64) -> (r:
        Result<(), TurnError>)
        requires
            old(self).wf(),
        ensures
            final(self).wf(),
            final(self).perms == old(self).perms,
            final(self).queue == old(self).queue,
            final(self).nonce == old(self).nonce,
            final(self).closed == old(self).closed,
            final(self).same_credentials(*old(self)),
            final(self).lifetime_secs == old(self).lifetime_secs,
            final(self).wire_log@ == old(self).wire_log@,
            forall|k: PeerAddr|
                k != addr ==> final(self).binding_of(k) == old(self).binding_of(k),
            msg.typ == spec_msg_type(METHOD_CHANNEL_BIND, CLASS_SUCCESS_RESPONSE) ==> {
                &&& r is Ok
                &&& (old(self).binding_of(addr) matches Some(b) ==> final(self).binding_of(addr)
                    == Some(Binding {
                    number: b.number,
                    addr: b.addr,
                    state: BindingState::Ready,
                    refreshed_at: now_ms,
                }))
                &&& (old(self).binding_of(addr) is None ==> final(self).binding_of(addr) is None)
            },
            msg.typ != spec_msg_type(METHOD_CHANNEL_BIND, CLASS_SUCCESS_RESPONSE) ==> {
                &&& r == Err::<(), TurnError>(TurnError::UnexpectedResponse)
                &&& (old(self).binding_of(addr) matches Some(b) ==> final(self).binding_of(addr)
                    == Some(Binding {
                    number: b.number,
                    addr: b.addr,
                    state: BindingState::Failed,
                    refreshed_at: b.refreshed_at,
                }))
                &&& (old(self).binding_of(addr) is None ==> final(self).binding_of(addr) is None)
            },
    {
        if msg.typ == msg_type(METHOD_CHANNEL_BIND, CLASS_SUCCESS_RESPONSE) {
            self.bindings.set_refreshed_at(addr, now_ms);
            self.bindings.set_state(addr, BindingState::Ready);
            Ok(())
        } else {
            self.bindings.set_state(addr, BindingState::Failed);
            Err(TurnError::UnexpectedResponse)
        }
    }

    /// Forgets the binding for `addr` after a transport failure or
    /// timeout, so the next `send_to` retries from scratch.
    pub fn on_bind_failure(&mut self, addr: PeerAddr)
        requires
            old(self).wf(),
        ensures
            final(self).wf(),
            final(self).binding_of(addr) is None,
            forall|k: PeerAddr|
                k != addr ==> final(self).binding_of(k) == old(self).binding_of(k),
            final(self).perms == old(self).perms,
            final(self).queue == old(self).queue,
            final(self).closed == old(self).closed,
            final(self).nonce == old(self).nonce,
            final(self).same_credentials(*old(self)),
            final(self).lifetime_secs == old(self).lifetime_secs,
            final(self).wire_log@ == old(self).wire_log@,
    {
        self.bindings.delete_by_addr(addr);
    }

    /// Closes the connection: the first call returns the best-effort
    /// Refresh(lifetime = 0) teardown request to send; a second call does
    /// nothing and returns None.  After this, `recv_from` fails with
    /// "already closed" and no outbound datagram is produced.
    pub fn close(&mut self, tid: &Vec<u8>) -> (r: Option<Vec<u8>>)
        requires
            old(self).wf(),
            tid@.len() == 12,
        ensures
            final(self).wf(),
            final(self).closed,
            final(self).perms == old(self).perms,
            final(self).bindings == old(self).bindings,
            final(self).queue == old(self).queue,
            final(self).nonce == old(self).nonce,
            final(self).same_credentials(*old(self)),
            final(self).lifetime_secs == old(self).lifetime_secs,
            final(self).wire_log@ == old(self).wire_log@,
            old(self).closed ==> r is None && *final(self) == *old(self),
            !old(self).closed ==> (r matches Some(req) && req@ == refresh_request(0,
                old(self).username@, old(self).realm@, old(self).nonce@,
                old(self).integrity_key@, tid@)),
    {
        if self.closed {
            return None;
        }
        self.closed = true;
        Some(refresh_request_msg(0, &self.username, &self.realm, &self.nonce,
            &self.integrity_key, tid))
    }

    /// Takes one queued inbound datagram into `buf`.  Returns Ok(None)
    /// when nothing is queued yet.  A buffer shorter than the waiting
    /// datagram fails with ShortBuffer and does not consume it, so the
    /// caller may retry with a larger buffer.
    pub fn recv_from(&mut self, buf: &mut Vec<u8>) -> (r: Result<Option<(usize, PeerAddr)>,
        TurnError>)
        requires
            old(self).wf(),
        ensures
            final(self).wf(),
            final(self).closed == old(self).closed,
            final(self).perms == old(self).perms,
            final(self).bindings == old(self).bindings,
            final(self).nonce == old(self).nonce,
            final(self).same_credentials(*old(self)),
            final(self).lifetime_secs == old(self).lifetime_secs,
            final(self).wire_log@ == old(self).wire_log@,
            old(self).closed ==> r == Err::<Option<(usize, PeerAddr)>, TurnError>(
                TurnError::AlreadyClosed) && final(self).queue == old(self).queue && *final(buf)
                == *old(buf),
            !old(self).closed && old(self).queue@.len() == 0 ==> r == Ok::<Option<(usize,
                PeerAddr)>, TurnError>(None) && final(self).queue == old(self).queue
                && *final(buf) == *old(buf),
            !old(self).closed && old(self).queue@.len() > 0 && old(buf)@.len()
                < old(self).queue@[0].data@.len() ==> r == Err::<Option<(usize, PeerAddr)>,
                TurnError>(TurnError::ShortBuffer) && final(self).queue == old(self).queue
                && *final(buf) == *old(buf),
            !old(self).closed && old(self).queue@.len() > 0 && old(buf)@.len()
                >= old(self).queue@[0].data@.len() ==> {
                let item = old(self).queue@[0];
                &&& r == Ok::<Option<(usize, PeerAddr)>, TurnError>(Some((
                    item.data@.len() as usize, item.from)))
                &&& final(self).queue@ == old(self).queue@.drop_first()
                &&& final(buf)@.len() == old(buf)@.len()
                &&& final(buf)@.take(item.data@.len() as int) == item.data@
                &&& final(buf)@.skip(item.data@.len() as int) == old(buf)@.skip(
                    item.data@.len() as int)
            },
    {
        if self.closed {
            return Err(TurnError::AlreadyClosed);
        }
        if self.queue.len() == 0 {
            return Ok(None);
        }
        let n = self.queue[0].data.len();
        if buf.len() < n {
            return Err(TurnError::ShortBuffer);
        }
        let item = self.queue.remove(0);
        for i in 0..n
            invariant
                n == item.data@.len() <= buf@.len(),
                buf@.len() == old(buf)@.len(),
                forall|k: int| 0 <= k < i ==> buf@[k] == item.data@[k],
                forall|k: int| i <= k < buf@.len() ==> buf@[k] == old(buf)@[k],
        {
            buf.set(i, item.data[i]);
        }
        proof {
            assert(self.queue@ =~= old(self).queue@.drop_first());
            assert(buf@.take(n as int) =~= item.data@);
            assert(buf@.skip(n as int) =~= old(buf)@.skip(n as int));
        }
        Ok(Some((n, item.from)))
    }

    /// Demultiplexes one datagram from the TURN server.  A ChannelData
    /// frame on a known channel, or a Data indication carrying a peer
    /// address and payload, is resolved and queued for `recv_from`.  A
    /// STUN response is handed back for the transaction engine.  Anything
    /// else is dropped, as is everything after `close`.
    pub fn handle_inbound(&mut self, datagram: &[u8]) -> (r: InboundOutcome)
        requires
            old(self).wf(),
        ensures
            final(self).wf(),
            final(self).perms == old(self).perms,
            final(self).bindings == old(self).bindings,
            final(self).nonce == old(self).nonce,
            final(self).closed == old(self).closed,
            final(self).same_credentials(*old(self)),
            final(self).lifetime_secs == old(self).lifetime_secs,
            final(self).wire_log@ == old(self).wire_log@,
            old(self).closed ==> r is Dropped && *final(self) == *old(self),
            r is Dropped ==> final(self).queue == old(self).queue,
            r matches InboundOutcome::StunResponse(m) ==> {
                &&& msg_wf(m)
                &&& enc_msg(m) == datagram@
                &&& (class_of(m.typ) == CLASS_SUCCESS_RESPONSE || class_of(m.typ)
                    == CLASS_ERROR_RESPONSE)
                &&& final(self).queue == old(self).queue
            },
            r is Delivered ==> {
                &&& old(self).queue@.len() < MAX_QUEUE
                &&& final(self).queue@.len() == old(self).queue@.len() + 1
                &&& final(self).queue@.take(old(self).queue@.len() as int) == old(self).queue@
            },
            r is Delivered && chandata_wf(datagram@) ==> {
                let item = final(self).queue@.last();
                &&& old(self).binding_of(item.from) is Some
                &&& old(self).binding_of(item.from)->Some_0.number == u16_of(datagram@[0],
                    datagram@[1])
                &&& datagram@ == channel_data_frame(u16_of(datagram@[0], datagram@[1]),
                    item.data@)
            },
            r is Delivered && !chandata_wf(datagram@) ==> exists|m: StunMessage|
                {
                    let item = final(self).queue@.last();
                    &&& #[trigger] msg_wf(m)
                    &&& enc_msg(m) == datagram@
                    &&& m.typ == spec_msg_type(METHOD_DATA, CLASS_INDICATION)
                    &&& spec_find_attr(m.attrs@, ATTR_XOR_PEER_ADDRESS) == Some(xor_addr_value(
                        item.from))
                    &&& spec_find_attr(m.attrs@, ATTR_DATA) == Some(item.data@)
                },
            !old(self).closed && chandata_wf(datagram@) && old(self).bindings.find_number_spec(
                u16_of(datagram@[0], datagram@[1])) is Some && old(self).queue@.len()
                < MAX_QUEUE ==> r is Delivered,
            !old(self).closed && stun_bytes_wf(datagram@) && (class_of(u16_of(datagram@[0],
                datagram@[1])) == CLASS_SUCCESS_RESPONSE || class_of(u16_of(datagram@[0],
                datagram@[1])) == CLASS_ERROR_RESPONSE) ==> (r matches
                InboundOutcome::StunResponse(m) && m.typ == u16_of(datagram@[0], datagram@[1])),
            !old(self).closed && stun_bytes_wf(datagram@) && u16_of(datagram@[0], datagram@[1])
                == spec_msg_type(METHOD_DATA, CLASS_INDICATION) && (find_attr_bytes(
                datagram@.skip(20), ATTR_XOR_PEER_ADDRESS) matches Some(v)
                && is_xor_addr_value(v)) && find_attr_bytes(datagram@.skip(20), ATTR_DATA)
                is Some && old(self).queue@.len() < MAX_QUEUE ==> r is Delivered,
    {
        if self.closed {
            return InboundOutcome::Dropped;
        }
        if is_channel_data(datagram) {
            proof {
                crate::wire::lemma_u16_of_high_byte(datagram@[0], datagram@[1]);
                assert(!stun_bytes_wf(datagram@));
            }
            match decode_channel_data(datagram) {
                Result::Ok((num, payload)) => {
                    proof {
                        crate::wire::lemma_be16_roundtrip(num);
                        assert(datagram@[0] == crate::wire::be16(num)[0]);
                        assert(datagram@[1] == crate::wire::be16(num)[1]);
                        assert(num == u16_of(datagram@[0], datagram@[1]));
                    }
                    match self.bindings.find_by_number(num) {
                        Option::Some(b) => {
                            if self.queue.len() < MAX_QUEUE {
                                let ghost pre = self.queue@;
                                self.queue.push(InboundData { data: payload, from: b.addr });
                                proof {
                                    assert(self.queue@.take(pre.len() as int) =~= pre);
                                }
                                InboundOutcome::Delivered
                            } else {
                                InboundOutcome::Dropped
                            }
                        },
                        Option::None => InboundOutcome::Dropped,
                    }
                },
                Result::Err(_) => InboundOutcome::Dropped,
            }
        } else if is_stun_message(datagram) {
            proof {
                crate::wire::lemma_u16_of_high_byte(datagram@[0], datagram@[1]);
                assert(!chandata_wf(datagram@));
            }
            match decode_message(datagram) {
                Result::Ok(m) => {
                    proof {
                        crate::wire::lemma_be16_roundtrip(m.typ);
                        assert(datagram@[0] == crate::wire::be16(m.typ)[0]);
                        assert(datagram@[1] == crate::wire::be16(m.typ)[1]);
                        assert(m.typ == u16_of(datagram@[0], datagram@[1]));
                    }
                    let cls = msg_class(m.typ);
                    if m.typ == msg_type(METHOD_DATA, CLASS_INDICATION) {
                        proof {
                            lemma_msg_type_parts(METHOD_DATA, CLASS_INDICATION);
                            assert(datagram@.skip(20) =~= crate::stun::enc_attrs(m.attrs@));
                            lemma_find_attr_bytes(m.attrs@, ATTR_XOR_PEER_ADDRESS);
                            lemma_find_attr_bytes(m.attrs@, ATTR_DATA);
                        }
                        let from = get_xor_peer_address(&m);
                        let data = get_attr(&m, ATTR_DATA);
                        match (from, data) {
                            (Option::Some(a), Option::Some(v)) => {
                                if self.queue.len() < MAX_QUEUE {
                                    let ghost pre = self.queue@;
                                    self.queue.push(InboundData { data: v, from: a });
                                    proof {
                                        assert(self.queue@.take(pre.len() as int) =~= pre);
                                    }
                                    InboundOutcome::Delivered
                                } else {
                                    InboundOutcome::Dropped
                                }
                            },
                            _ => InboundOutcome::Dropped,
                        }
                    } else if cls == CLASS_SUCCESS_RESPONSE || cls == CLASS_ERROR_RESPONSE {
                        InboundOutcome::StunResponse(m)
                    } else {
                        InboundOutcome::Dropped
                    }
                },
                Result::Err(_) => InboundOutcome::Dropped,
            }
        } else {
            proof {
                if datagram@.len() > 0 {
                    crate::wire::lemma_u16_of_channel_byte(datagram@[0], datagram@[1]);
                    crate::wire::lemma_u16_of_high_byte(datagram@[0], datagram@[1]);
                }
                assert(!chandata_wf(datagram@));
                assert(!stun_bytes_wf(datagram@));
            }
            InboundOutcome::Dropped
        }
    }

    /// The Refresh request for the periodic allocation keep-alive (or,
    /// with lifetime zero, the teardown).
    pub fn refresh_allocation_request(&self, lifetime_secs: u32, tid: &Vec<u8>) -> (r: Result<
        Vec<u8>, TurnError>)
        requires
            self.wf(),
            tid@.len() == 12,
        ensures
            self.closed ==> r == Err::<Vec<u8>, TurnError>(TurnError::AlreadyClosed),
            !self.closed ==> (r matches Ok(req) && req@ == refresh_request(lifetime_secs,
                self.username@, self.realm@, self.nonce@, self.integrity_key@, tid@)),
    {
        if self.closed {
            return Err(TurnError::AlreadyClosed);
        }
        Ok(refresh_request_msg(lifetime_secs, &self.username, &self.realm, &self.nonce,
            &self.integrity_key, tid))
    }

    /// Digests the Refresh response.  A success adopts the lifetime the
    /// server granted.  STALE_NONCE adopts the new nonce and returns
    /// TryAgain so the timer retries on its next tick.  Any other error
    /// response is tolerated: the server may keep the allocation until
    /// expiry.
    pub fn on_refresh_response(&mut self, msg: &StunMessage) -> (r: Result<(), TurnError>)
        requires
            old(self).wf(),
        ensures
            final(self).wf(),
            final(self).perms == old(self).perms,
            final(self).bindings == old(self).bindings,
            final(self).queue == old(self).queue,
            final(self).closed == old(self).closed,
            final(self).same_credentials(*old(self)),
            final(self).wire_log@ == old(self).wire_log@,
            !is_error_response(*msg) && msg_lifetime(*msg) is Some ==> r is Ok
                && final(self).lifetime_secs == msg_lifetime(*msg)->Some_0 && final(self).nonce
                == old(self).nonce,
            !is_error_response(*msg) && msg_lifetime(*msg) is None ==> r == Err::<(),
                TurnError>(TurnError::Format) && *final(self) == *old(self),
            is_error_response(*msg) && msg_error_code(*msg) == Some(CODE_STALE_NONCE) ==> {
                &&& r == Err::<(), TurnError>(TurnError::TryAgain)
                &&& final(self).lifetime_secs == old(self).lifetime_secs
                &&& (match msg_nonce(*msg) {
                    Option::Some(nv) => if nv.len() <= MAX_CREDENTIAL_LEN {
                        final(self).nonce@ == nv
                    } else {
                        final(self).nonce == old(self).nonce
                    },
                    Option::None => final(self).nonce == old(self).nonce,
                })
            },
            is_error_response(*msg) && msg_error_code(*msg) is None ==> r == Err::<(),
                TurnError>(TurnError::Rejected) && *final(self) == *old(self),
            is_error_response(*msg) && msg_error_code(*msg) is Some && msg_error_code(*msg)
                != Some(CODE_STALE_NONCE) ==> r is Ok && *final(self) == *old(self),
    {
        if msg_class(msg.typ) == CLASS_ERROR_RESPONSE {
            match get_error_code(msg) {
                Option::Some(code) => {
                    if code == CODE_STALE_NONCE {
                        self.set_nonce_from_msg(msg);
                        Err(TurnError::TryAgain)
                    } else {
                        Ok(())
                    }
                },
                Option::None => Err(TurnError::Rejected),
            }
        } else {
            match get_lifetime(msg) {
                Option::Some(lt) => {
                    self.lifetime_secs = lt;
                    Ok(())
                },
                Option::None => Err(TurnError::Format),
            }
        }
    }

    /// The peers to carry in the periodic permission refresh: every IP
    /// whose permission is currently Permitted, with a zero port.
    pub fn permitted_addrs(&self) -> (r: Vec<PeerAddr>)
        requires
            self.wf(),
        ensures
            forall|a: int|
                0 <= a < r@.len() ==> self.perm_of((#[trigger] r@[a]).ip) == Some(
                    PermState::Permitted) && r@[a].port == 0,
            forall|ip: u32|
                self.perm_of(ip) == Some(PermState::Permitted) ==> exists|a: int|
                    0 <= a < r@.len() && (#[trigger] r@[a]).ip == ip,
            forall|a: int, b: int| 0 <= a < b < r@.len() ==> r@[a].ip != r@[b].ip,
    {
        let ips = self.perms.permitted_ips();
        let mut r: Vec<PeerAddr> = Vec::new();
        let n = ips.len();
        for i in 0..n
            invariant
                n == ips@.len(),
                r@.len() == i,
                forall|a: int|
                    0 <= a < ips@.len() ==> self.perm_of(#[trigger] ips@[a]) == Some(
                        PermState::Permitted),
                forall|a: int|
                    0 <= a < i ==> (#[trigger] r@[a]).ip == ips@[a] && r@[a].port == 0,
                forall|a: int, b: int| 0 <= a < b < ips@.len() ==> ips@[a] != ips@[b],
        {
            r.push(PeerAddr { ip: ips[i], port: 0 });
        }
        proof {
            assert forall|ip: u32|
                self.perm_of(ip) == Some(PermState::Permitted) implies exists|a: int|
                0 <= a < r@.len() && (#[trigger] r@[a]).ip == ip by {
                assert(ips@.contains(ip));
                let a = choose|a: int| 0 <= a < ips@.len() && ips@[a] == ip;
                assert(r@[a].ip == ip);
            }
        }
        r
    }

    /// Digests the response to the periodic bulk CreatePermission.  A
    /// success is silent.  STALE_NONCE adopts the new nonce and asks for
    /// one retry.  Any other error clears every permission, so they are
    /// reinstalled lazily on demand.
    pub fn on_permission_refresh_response(&mut self, msg: &StunMessage) -> (r: Result<(),
        TurnError>)
        requires
            old(self).wf(),
        ensures
            final(self).wf(),
            final(self).bindings == old(self).bindings,
            final(self).queue == old(self).queue,
            final(self).closed == old(self).closed,
            final(self).same_credentials(*old(self)),
            final(self).lifetime_secs == old(self).lifetime_secs,
            final(self).wire_log@ == old(self).wire_log@,
            !is_error_response(*msg) ==> r is Ok && *final(self) == *old(self),
            is_error_response(*msg) && msg_error_code(*msg) == Some(CODE_STALE_NONCE) ==> {
                &&& r == Err::<(), TurnError>(TurnError::TryAgain)
                &&& final(self).perms == old(self).perms
                &&& (match msg_nonce(*msg) {
                    Option::Some(nv) => if nv.len() <= MAX_CREDENTIAL_LEN {
                        final(self).nonce@ == nv
                    } else {
                        final(self).nonce == old(self).nonce
                    },
                    Option::None => final(self).nonce == old(self).nonce,
                })
            },
            is_error_response(*msg) && msg_error_code(*msg) != Some(CODE_STALE_NONCE) ==> {
                &&& r == Err::<(), TurnError>(TurnError::Rejected)
                &&& forall|ip: u32| final(self).perm_of(ip) is None
                &&& final(self).nonce == old(self).nonce
            },
    {
        if msg_class(msg.typ) == CLASS_ERROR_RESPONSE {
            match get_error_code(msg) {
                Option::Some(code) => {
                    if code == CODE_STALE_NONCE {
                        self.set_nonce_from_msg(msg);
                        Err(TurnError::TryAgain)
                    } else {
                        self.perms = PermissionMap::new();
                        Err(TurnError::Rejected)
                    }
                },
                Option::None => {
                    self.perms = PermissionMap::new();
                    Err(TurnError::Rejected)
                },
            }
        } else {
            Ok(())
        }
    }
}

/// Wire order is call order: each successful `send_to_dispatch` appends
/// exactly one datagram to the wire log (its ensures), so the datagrams
/// of two calls in sequence stand in the log in that sequence, whatever
/// else happened before.
pub proof fn lemma_wire_order_is_call_order(log: Seq<Seq<u8>>, d1: Seq<u8>, d2: Seq<u8>)
    ensures
        log.push(d1).push(d2).len() == log.len() + 2,
        log.push(d1).push(d2)[log.len() as int] == d1,
        log.push(d1).push(d2)[log.len() as int + 1] == d2,
{
}

/// A permission is keyed by the peer's IP alone: once a CreatePermission
/// issued for one peer has marked its IP Permitted, every peer at that
/// IP is permitted, so `send_to_prepare` for any of them returns no
/// second CreatePermission request.
pub proof fn lemma_permission_covers_ip(c: &RelayConn, p1: PeerAddr, p2: PeerAddr)
    requires
        p1.ip == p2.ip,
        c.perm_of(p1.ip) == Some(PermState::Permitted),
    ensures
        c.perm_of(p2.ip) == Some(PermState::Permitted),
{
}

/// The interval of the allocation keep-alive timer: a minute before the
/// lifetime runs out, but never more often than every thirty seconds.
pub fn refresh_interval_secs(lifetime_secs: u32) -> (r: u32)
    ensures
        lifetime_secs > 90 ==> r == lifetime_secs - 60,
        lifetime_secs <= 90 ==> r == 30,
{
    if lifetime_secs > 90 {
        lifetime_secs - 60
    } else {
        30
    }
}

} // verus!
