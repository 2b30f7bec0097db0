//! ICE candidate records.
//!
//! The ICE agent hands out candidates through a trait object; here each
//! candidate is modelled as a plain record of what the conversion reads,
//! so that the mapping to the `RTCIceCandidate` shape, and the choice of
//! candidate configuration made by `to_ice`, are verified.  The runtime
//! converts between the agent's objects and these records at its edge.

use vstd::prelude::*;

use crate::errors::TurnError;

verus! {

/// The kind of an ICE candidate.
#[derive(Clone, Copy, Debug, PartialEq, Eq, Structural)]
pub enum RTCIceCandidateType {
    Unspecified,
    Host,
    Srflx,
    Prflx,
    Relay,
}

/// The transport protocol of an ICE candidate.
#[derive(Clone, Copy, Debug, PartialEq, Eq, Structural)]
pub enum RTCIceProtocol {
    Unspecified,
    Udp,
    Tcp,
}

/// A related (base) address, where a candidate has one.
pub struct RelatedAddr {
    pub address: String,
    pub port: u16,
}

/// What the conversion reads from one candidate of the ICE agent.
pub struct CandidateInfo {
    pub stats_id: String,
    pub foundation: String,
    pub priority: u32,
    pub address: String,
    pub protocol: RTCIceProtocol,
    pub port: u16,
    pub component: u16,
    pub related_address: Option<RelatedAddr>,
    pub tcp_type: String,
    pub candidate_type: RTCIceCandidateType,
}

/// An ICE candidate in the WebRTC API shape.
pub struct RTCIceCandidate {
    pub stats_id: String,
    pub foundation: String,
    pub priority: u32,
    pub address: String,
    pub protocol: RTCIceProtocol,
    pub port: u16,
    pub typ: RTCIceCandidateType,
    pub component: u16,
    pub related_address: String,
    pub related_port: u16,
    pub tcp_type: String,
}

/// Whether `r` is the faithful conversion of `c`: every field carried
/// over, with a missing related address rendered as an empty string and
/// port zero.
pub open spec fn converts_info(r: RTCIceCandidate, c: CandidateInfo) -> bool {
    &&& r.stats_id@ == c.stats_id@
    &&& r.foundation@ == c.foundation@
    &&& r.priority == c.priority
    &&& r.address@ == c.address@
    &&& r.protocol == c.protocol
    &&& r.port == c.port
    &&& r.typ == c.candidate_type
    &&& r.component == c.component
    &&& r.tcp_type@ == c.tcp_type@
    &&& (match c.related_address {
        Option::Some(ra) => r.related_address@ == ra.address@ && r.related_port == ra.port,
        Option::None => r.related_address@ == Seq::<char>::empty() && r.related_port == 0,
    })
}

impl RTCIceCandidate {
    /// Converts one candidate record.
    pub fn from_info(c: &CandidateInfo) -> (r: RTCIceCandidate)
        ensures
            converts_info(r, *c),
    {
        let (related_address, related_port): (String, u16) = match &c.related_address {
            Option::Some(ra) => (ra.address.clone(), ra.port),
            Option::None => (String::new(), 0),
        };
        RTCIceCandidate {
            stats_id: c.stats_id.clone(),
            foundation: c.foundation.clone(),
            priority: c.priority,
            address: c.address.clone(),
            protocol: c.protocol,
            port: c.port,
            typ: c.candidate_type,
            component: c.component,
            related_address,
            related_port,
            tcp_type: c.tcp_type.clone(),
        }
    }
}

/// Converts a batch of candidate records, keeping their order.
pub fn rtc_ice_candidates_from_ice_candidates(ice_candidates: &Vec<CandidateInfo>) -> (r: Vec<
    RTCIceCandidate>)
    ensures
        r@.len() == ice_candidates@.len(),
        forall|i: int|
            0 <= i < r@.len() ==> converts_info(#[trigger] r@[i], ice_candidates@[i]),
{
    let mut r: Vec<RTCIceCandidate> = Vec::new();
    let n = ice_candidates.len();
    for i in 0..n
        invariant
            n == ice_candidates@.len(),
            r@.len() == i,
            forall|k: int|
                0 <= k < i ==> converts_info(#[trigger] r@[k], ice_candidates@[k]),
    {
        r.push(RTCIceCandidate::from_info(&ice_candidates[i]));
    }
    r
}

/// The shape in which an ICE candidate is exchanged over signaling.  The
/// runtime derives its serialized form from this record.
pub struct RTCIceCandidateInit {
    pub candidate: String,
    pub sdp_mid: Option<String>,
    pub sdp_mline_index: Option<u16>,
    pub username_fragment: Option<String>,
}

/// The fields common to every candidate configuration.
pub struct CandidateBaseConfig {
    pub candidate_id: String,
    pub network: RTCIceProtocol,
    pub address: String,
    pub port: u16,
    pub component: u16,
    pub foundation: String,
    pub priority: u32,
}

/// Which kind of candidate to build back from an `RTCIceCandidate`, with
/// the related address where the kind carries one.
pub enum CandidateConfig {
    Host { base: CandidateBaseConfig },
    Srflx { base: CandidateBaseConfig, rel_addr: String, rel_port: u16 },
    Prflx { base: CandidateBaseConfig, rel_addr: String, rel_port: u16 },
    Relay { base: CandidateBaseConfig, rel_addr: String, rel_port: u16 },
}

/// Whether `base` carries the fields of `c`.
pub open spec fn base_of(base: CandidateBaseConfig, c: RTCIceCandidate) -> bool {
    &&& base.candidate_id@ == c.stats_id@
    &&& base.network == c.protocol
    &&& base.address@ == c.address@
    &&& base.port == c.port
    &&& base.component == c.component
    &&& base.foundation@ == c.foundation@
    &&& base.priority == c.priority
}

impl RTCIceCandidate {
    /// Chooses the candidate configuration this record describes: its
    /// kind decides the variant, and an unspecified kind is rejected.
    pub fn to_ice(&self) -> (r: Result<CandidateConfig, TurnError>)
        ensures
            self.typ == RTCIceCandidateType::Unspecified <==> r == Err::<CandidateConfig,
                TurnError>(TurnError::Rejected),
            self.typ != RTCIceCandidateType::Unspecified ==> r is Ok,
            r matches Ok(cfg) ==> match cfg {
                CandidateConfig::Host { base } => self.typ == RTCIceCandidateType::Host
                    && base_of(base, *self),
                CandidateConfig::Srflx { base, rel_addr, rel_port } => self.typ
                    == RTCIceCandidateType::Srflx && base_of(base, *self) && rel_addr@
                    == self.related_address@ && rel_port == self.related_port,
                CandidateConfig::Prflx { base, rel_addr, rel_port } => self.typ
                    == RTCIceCandidateType::Prflx && base_of(base, *self) && rel_addr@
                    == self.related_address@ && rel_port == self.related_port,
                CandidateConfig::Relay { base, rel_addr, rel_port } => self.typ
                    == RTCIceCandidateType::Relay && base_of(base, *self) && rel_addr@
                    == self.related_address@ && rel_port == self.related_port,
            },
    {
        let base = CandidateBaseConfig {
            candidate_id: self.stats_id.clone(),
            network: self.protocol,
            address: self.address.clone(),
            port: self.port,
            component: self.component,
            foundation: self.foundation.clone(),
            priority: self.priority,
        };
        match self.typ {
            RTCIceCandidateType::Host => Ok(CandidateConfig::Host { base }),
            RTCIceCandidateType::Srflx => Ok(CandidateConfig::Srflx {
                base,
                rel_addr: self.related_address.clone(),
                rel_port: self.related_port,
            }),
            RTCIceCandidateType::Prflx => Ok(CandidateConfig::Prflx {
                base,
                rel_addr: self.related_address.clone(),
                rel_port: self.related_port,
            }),
            RTCIceCandidateType::Relay => Ok(CandidateConfig::Relay {
                base,
                rel_addr: self.related_address.clone(),
                rel_port: self.related_port,
            }),
            RTCIceCandidateType::Unspecified => Err(TurnError::Rejected),
        }
    }
}

} // verus!
