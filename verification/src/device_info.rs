//! Telephony device information and the SIM-state transition detector.

use vstd::prelude::*;

verus! {

/// Device information as the telephony source hands it over.
#[derive(Debug)]
pub struct RawDeviceInfo {
    pub data_enabled: String,
    pub data_activity: String,
    pub data_state: String,
    pub device_id: Option<String>,
    pub device_software_version: String,
    pub phone_count: u8,
    pub phone_type: String,
    pub network_operator: String,
    pub network_operator_name: String,
    pub network_country_iso: String,
    pub network_type: String,
    pub network_roaming: bool,
    pub sim_country_iso: String,
    pub sim_operator: String,
    pub sim_operator_name: String,
    pub sim_serial_number: Option<String>,
    pub sim_subscriber_id: Option<String>,
    pub sim_state: String,
}

/// The SIM readiness states, with `Unknown` as the catch-all for any
/// unrecognized raw value.
#[derive(Clone, Copy, Debug, PartialEq, Eq, Structural)]
pub enum SIMState {
    Ready,
    Locked,
    NotInsert,
    Unknown,
}

/// The state a raw SIM-state string denotes; total, defaulting to `Unknown`.
pub open spec fn spec_sim_state(s: Seq<char>) -> SIMState {
    if s == "ready"@ {
        SIMState::Ready
    } else if s == "pin_required"@ {
        SIMState::Locked
    } else if s == "absent"@ {
        SIMState::NotInsert
    } else {
        SIMState::Unknown
    }
}

/// The display text of a SIM state, as it appears in notifications.
pub open spec fn spec_sim_text(s: SIMState) -> Seq<char> {
    match s {
        SIMState::Ready => "ready"@,
        SIMState::Locked => "locked"@,
        SIMState::NotInsert => "not insert"@,
        SIMState::Unknown => "unknown"@,
    }
}

impl SIMState {
    /// Decodes a raw SIM-state string by exact lookup.
    pub fn from_raw(s: &str) -> (r: SIMState)
        ensures
            r == spec_sim_state(s@),
    {
        let v = s.to_owned();
        if v == String::from_str("ready") {
            SIMState::Ready
        } else if v == String::from_str("pin_required") {
            SIMState::Locked
        } else if v == String::from_str("absent") {
            SIMState::NotInsert
        } else {
            SIMState::Unknown
        }
    }

    /// The display text of this state.
    pub fn to_text(&self) -> (r: String)
        ensures
            r@ == spec_sim_text(*self),
    {
        match self {
            SIMState::Ready => String::from_str("ready"),
            SIMState::Locked => String::from_str("locked"),
            SIMState::NotInsert => String::from_str("not insert"),
            SIMState::Unknown => String::from_str("unknown"),
        }
    }
}

impl RawDeviceInfo {
    /// The SIM state this reading reports.
    pub fn get_sim_state(&self) -> (r: SIMState)
        ensures
            r == spec_sim_state(self.sim_state@),
    {
        SIMState::from_raw(self.sim_state.as_str())
    }
}

/// The notification text for a SIM-state transition.
pub open spec fn sim_note(cur: SIMState) -> Seq<char> {
    "[System information]Sim card "@ + spec_sim_text(cur)
}

/// One SIM diff: compares the last known state with the current reading and
/// emits at most one transition notification. The snapshot is replaced
/// wholesale on change and kept otherwise.
pub fn sim_step(prev: &SIMState, cur: &SIMState) -> (r: (Option<String>, SIMState))
    ensures
        *cur != *prev ==> (r.0 matches Some(n) && n@ == sim_note(*cur) && r.1 == *cur),
        *cur == *prev ==> r.0 is None && r.1 == *prev,
{
    if cur != prev {
        let mut s = String::from_str("[System information]Sim card ");
        let text = cur.to_text();
        s.append(text.as_str());
        (Some(s), *cur)
    } else {
        (None, *prev)
    }
}

} // verus!
