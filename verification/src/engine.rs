//! Engine settings.
//!
//! Knobs for behaviour outside the WebRTC API proper.  Callback-valued
//! and agent-owned settings live with the runtime; the plain-valued ones
//! are kept here, and a fresh engine carries the defaults.

use vstd::prelude::*;

use crate::ice::RTCIceCandidateType;

verus! {

/// The candidate-gathering settings.
pub struct Candidates {
    pub ice_lite: bool,
    pub nat_1to1_ips: Vec<String>,
    pub nat_1to1_ip_candidate_type: RTCIceCandidateType,
    pub multicast_dns_host_name: String,
    pub username_fragment: String,
    pub password: String,
}

/// Whether the settings all have their default values.
pub open spec fn candidates_default(c: Candidates) -> bool {
    &&& !c.ice_lite
    &&& c.nat_1to1_ips@.len() == 0
    &&& c.nat_1to1_ip_candidate_type == RTCIceCandidateType::Unspecified
    &&& c.multicast_dns_host_name@ == Seq::<char>::empty()
    &&& c.username_fragment@ == Seq::<char>::empty()
    &&& c.password@ == Seq::<char>::empty()
}

/// SettingEngine allows influencing behavior in ways that are not
/// covered by the WebRTC API itself.
pub struct SettingEngine {
    pub candidates: Candidates,
}

impl Default for SettingEngine {
    fn default() -> (r: SettingEngine)
        ensures
            candidates_default(r.candidates),
    {
        SettingEngine {
            candidates: Candidates {
                ice_lite: false,
                nat_1to1_ips: Vec::new(),
                nat_1to1_ip_candidate_type: RTCIceCandidateType::Unspecified,
                multicast_dns_host_name: String::new(),
                username_fragment: String::new(),
                password: String::new(),
            },
        }
    }
}

impl SettingEngine {
    /// A fresh engine with every setting at its default.
    pub fn new() -> (r: SettingEngine)
        ensures
            candidates_default(r.candidates),
    {
        let setting_engine = Self::default();
        setting_engine
    }
}

} // verus!
