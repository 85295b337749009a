//! Battery state: the modeled reading, the in-memory snapshot, and the
//! battery transition detector with its tie-break policy.

use vstd::prelude::*;
use crate::numfmt::{dec_int, i64_to_dec};

verus! {

/// What `str::to_lowercase` returns: a function of the characters alone.
pub uninterp spec fn lower_of(s: Seq<char>) -> Seq<char>;

/// Relies on `str::to_lowercase`: the result depends on the characters alone.
#[verifier::external_body]
fn lowercase(s: &str) -> (r: String)
    ensures
        r@ == lower_of(s@),
{
    s.to_lowercase()
}

/// Whether the battery is charging or discharging.
#[derive(Clone, Copy, Debug, PartialEq, Eq, Structural)]
pub enum BatteryChangerStatus {
    Charging,
    Discharging,
}

/// A battery reading: the real battery percentage and the raw charger status
/// string, which decodes case-insensitively.
#[derive(Debug)]
pub struct BatteryStatus {
    pub percentage: i8,
    pub status: String,
}

/// The charger status a raw status string denotes: `Charging` exactly when
/// it spells "charging" in any case, `Discharging` otherwise.
pub open spec fn spec_charge_status(status: Seq<char>) -> BatteryChangerStatus {
    if lower_of(status) == "charging"@ {
        BatteryChangerStatus::Charging
    } else {
        BatteryChangerStatus::Discharging
    }
}

/// The display text of a battery reading, as it appears in notifications.
pub open spec fn battery_display(b: BatteryStatus) -> Seq<char> {
    (if spec_charge_status(b.status@) is Charging {
        "Changer is connected."@
    } else {
        "Changer is disconnect."@
    }) + "\nCurrent battery level: "@ + dec_int(b.percentage as int)
}

impl BatteryStatus {
    pub fn get_percentage(&self) -> (r: i8)
        ensures
            r == self.percentage,
    {
        self.percentage
    }

    pub fn get_changer_status(&self) -> (r: BatteryChangerStatus)
        ensures
            r == spec_charge_status(self.status@),
    {
        let lowered = lowercase(self.status.as_str());
        if lowered == String::from_str("charging") {
            BatteryChangerStatus::Charging
        } else {
            BatteryChangerStatus::Discharging
        }
    }

    /// The snapshot this reading induces.
    pub fn to_current_status(&self) -> (r: CurrentStatus)
        ensures
            r == spec_snapshot_of(*self),
    {
        CurrentStatus { charge_status: self.get_changer_status(), battery_level: self.percentage }
    }

    /// The display text of this reading.
    pub fn to_text(&self) -> (r: String)
        ensures
            r@ == battery_display(*self),
    {
        let mut s = match self.get_changer_status() {
            BatteryChangerStatus::Charging => String::from_str("Changer is connected."),
            BatteryChangerStatus::Discharging => String::from_str("Changer is disconnect."),
        };
        s.append("\nCurrent battery level: ");
        let level = i64_to_dec(self.percentage as i64);
        s.append(level.as_str());
        s
    }
}

/// The last known battery state, held only in the poll loop's working memory.
#[derive(Clone, Copy, Debug, PartialEq, Eq, Structural)]
pub struct CurrentStatus {
    pub charge_status: BatteryChangerStatus,
    pub battery_level: i8,
}

/// The snapshot a battery reading induces.
pub open spec fn spec_snapshot_of(b: BatteryStatus) -> CurrentStatus {
    CurrentStatus { charge_status: spec_charge_status(b.status@), battery_level: b.percentage }
}

/// The outcome of comparing a snapshot with a fresh reading. A charge-status
/// change is checked before a level change and takes priority.
#[derive(Clone, Copy, Debug, PartialEq, Eq, Structural)]
pub enum StatusDiff {
    ChargeStatus,
    Battery,
    Equal,
}

/// The diff of a snapshot against a fresh reading, with the charge status
/// checked first.
pub open spec fn spec_diff(prev: CurrentStatus, cur: BatteryStatus) -> StatusDiff {
    if prev.charge_status != spec_charge_status(cur.status@) {
        StatusDiff::ChargeStatus
    } else if prev.battery_level != cur.percentage {
        StatusDiff::Battery
    } else {
        StatusDiff::Equal
    }
}

impl CurrentStatus {
    /// Replaces the snapshot wholesale with the fresh reading.
    pub fn update_charge_status(&mut self, status: &BatteryStatus)
        ensures
            *final(self) == spec_snapshot_of(*status),
    {
        self.charge_status = status.get_changer_status();
        self.battery_level = status.get_percentage();
    }

    /// Compares this snapshot with a fresh reading; the charge status is
    /// checked before the level and takes priority.
    pub fn not_equal(&self, status: &BatteryStatus) -> (r: StatusDiff)
        ensures
            r == spec_diff(*self, *status),
    {
        if self.charge_status != status.get_changer_status() {
            return StatusDiff::ChargeStatus;
        } else if self.battery_level != status.get_percentage() {
            return StatusDiff::Battery;
        }
        StatusDiff::Equal
    }

    pub fn get_battery_level(&self) -> (r: i8)
        ensures
            r == self.battery_level,
    {
        self.battery_level
    }

    pub fn get_changer_status(&self) -> (r: BatteryChangerStatus)
        ensures
            r == self.charge_status,
    {
        self.charge_status
    }
}

impl Default for CurrentStatus {
    /// A fresh baseline: discharging at level zero.
    fn default() -> (r: Self)
        ensures
            r == (CurrentStatus {
                charge_status: BatteryChangerStatus::Discharging,
                battery_level: 0i8,
            }),
    {
        Self { charge_status: BatteryChangerStatus::Discharging, battery_level: 0 }
    }
}

/// The battery level at which a dedicated level notification is emitted.
pub const BATTERY_NOTIFY_LEVEL: i8 = 15;

/// The notification text for a charge-status transition.
pub open spec fn charge_note(cur: BatteryStatus) -> Seq<char> {
    "[System Information]"@ + battery_display(cur)
}

/// The notification text for the dedicated level notification.
pub open spec fn level_note(cur: BatteryStatus) -> Seq<char> {
    "[System Information]\n"@ + (if spec_charge_status(cur.status@) is Charging {
        "Battery is low."@
    } else {
        "Battery has been charged to a safe level."@
    })
}

/// What one battery diff decides: at most one notification, and the snapshot
/// to carry into the next cycle.
///
/// A charge-status change wins the tie-break; a level change updates the
/// snapshot but notifies only when the new level is exactly
/// `BATTERY_NOTIFY_LEVEL`; an unchanged reading leaves the snapshot alone.
pub open spec fn spec_battery_step(prev: CurrentStatus, cur: BatteryStatus) -> (Option<Seq<char>>,
    CurrentStatus) {
    match spec_diff(prev, cur) {
        StatusDiff::ChargeStatus => (Some(charge_note(cur)), spec_snapshot_of(cur)),
        StatusDiff::Battery => (
            if cur.percentage == BATTERY_NOTIFY_LEVEL {
                Some(level_note(cur))
            } else {
                None
            },
            spec_snapshot_of(cur),
        ),
        StatusDiff::Equal => (None, prev),
    }
}

/// One battery diff: compares the last known snapshot with the current
/// reading and emits at most one notification, as `spec_battery_step` says.
pub fn battery_step(prev: &CurrentStatus, cur: &BatteryStatus) -> (r: (Option<String>, CurrentStatus))
    ensures
        r.1 == spec_battery_step(*prev, *cur).1,
        match r.0 {
            Some(n) => spec_battery_step(*prev, *cur).0 matches Some(t) && n@ == t,
            None => spec_battery_step(*prev, *cur).0 is None,
        },
{
    match prev.not_equal(cur) {
        StatusDiff::ChargeStatus => {
            let mut s = String::from_str("[System Information]");
            let text = cur.to_text();
            s.append(text.as_str());
            (Some(s), cur.to_current_status())
        },
        StatusDiff::Battery => {
            let note = if cur.get_percentage() == BATTERY_NOTIFY_LEVEL {
                let mut s = String::from_str("[System Information]\n");
                match cur.get_changer_status() {
                    BatteryChangerStatus::Charging => s.append("Battery is low."),
                    BatteryChangerStatus::Discharging => s.append(
                        "Battery has been charged to a safe level.",
                    ),
                }
                Some(s)
            } else {
                None
            };
            (note, cur.to_current_status())
        },
        StatusDiff::Equal => (None, *prev),
    }
}

} // verus!
