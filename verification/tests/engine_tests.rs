use sms_client::battery::{battery_step, BatteryChangerStatus, BatteryStatus, CurrentStatus};
use sms_client::call_log::{CallLog, CallLogType};
use sms_client::device_info::SIMState;
use sms_client::engine::{bootstrap, poll_cycle, process_call_logs, process_messages};
use sms_client::sms::Message;
use sms_client::store::{Category, DedupStore};

fn message(number: &str, body: &str, timestamp: i64) -> Message {
    Message {
        threadid: 1,
        read: false,
        number: String::from(number),
        timestamp,
        body: String::from(body),
    }
}

fn call(number: &str, log_type: CallLogType, timestamp: i64) -> CallLog {
    CallLog {
        name: String::new(),
        log_type,
        timestamp,
        phone_number: String::from(number),
        duration: String::from("00:30"),
    }
}

#[test]
fn test_processing_is_idempotent() {
    let mut store = DedupStore::new();
    let batch = vec![message("12345", "hello", 1629763120)];
    let first = process_messages(&mut store, &batch);
    assert_eq!(first.len(), 1);
    assert_eq!(first[0], "[Receive SMS]\nFrom: 12345\nContent: hello");
    assert_eq!(store.count(Category::Messages), 1);
    // The same raw event in the next poll cycle: no second notification,
    // no second record.
    let second = process_messages(&mut store, &batch);
    assert_eq!(second.len(), 0);
    assert_eq!(store.count(Category::Messages), 1);
}

#[test]
fn test_duplicate_within_batch_notified_once() {
    let mut store = DedupStore::new();
    let batch = vec![
        message("12345", "hello", 1629763120),
        message("12345", "hello", 1629763120),
    ];
    let notes = process_messages(&mut store, &batch);
    assert_eq!(notes.len(), 1);
    assert_eq!(store.count(Category::Messages), 1);
}

#[test]
fn test_missed_call_filtering() {
    let mut store = DedupStore::new();
    let batch = vec![
        call("111", CallLogType::OUTGOING, 1627156165),
        call("222", CallLogType::INCOMING, 1627156166),
        call("333", CallLogType::MISSED, 1627156167),
        call("444", CallLogType::REJECTED, 1627156168),
    ];
    let notes = process_call_logs(&mut store, &batch);
    assert_eq!(notes.len(), 1);
    assert_eq!(notes[0], "[Missed Call]\nCall from: 333");
    assert_eq!(store.count(Category::CallLogs), 1);
}

#[test]
fn test_bootstrap_seeds_baseline() {
    let mut store = DedupStore::new();
    let backlog = vec![
        call("911", CallLogType::MISSED, 1627156165),
        call("119", CallLogType::MISSED, 1627745582),
        call("110", CallLogType::MISSED, 1628587065),
        call("0237253888", CallLogType::MISSED, 1628681671),
        call("0235636688", CallLogType::MISSED, 1629455928),
    ];
    let no_messages: Vec<Message> = Vec::new();
    assert!(bootstrap(&mut store, &backlog, &no_messages).is_ok());
    assert!(store.is_initialized());
    assert_eq!(store.version(), Some(1));
    assert_eq!(store.count(Category::CallLogs), 5);
    assert_eq!(store.count(Category::Messages), 0);
    // The backlog is baseline only: a later cycle re-reading it emits nothing.
    let notes = process_call_logs(&mut store, &backlog);
    assert_eq!(notes.len(), 0);
    assert_eq!(store.count(Category::CallLogs), 5);
}

#[test]
fn test_bootstrap_skips_non_missed() {
    let mut store = DedupStore::new();
    let backlog = vec![
        call("111", CallLogType::OUTGOING, 1627156165),
        call("333", CallLogType::MISSED, 1627156167),
    ];
    let messages = vec![message("12345", "hi", 1629763120)];
    assert!(bootstrap(&mut store, &backlog, &messages).is_ok());
    assert_eq!(store.count(Category::CallLogs), 1);
    assert_eq!(store.count(Category::Messages), 1);
}

#[test]
fn test_diff_tie_break() {
    // Previous snapshot {Discharging, 20}; new reading {Charging, 15}:
    // exactly one notification, the charge-status one. The level-15
    // notification is not additionally emitted in the same cycle.
    let prev = CurrentStatus {
        charge_status: BatteryChangerStatus::Discharging,
        battery_level: 20,
    };
    let cur = BatteryStatus {
        percentage: 15,
        status: String::from("CHARGING"),
    };
    let (note, next) = battery_step(&prev, &cur);
    assert_eq!(
        note.unwrap(),
        "[System Information]Changer is connected.\nCurrent battery level: 15"
    );
    assert_eq!(next.get_changer_status(), BatteryChangerStatus::Charging);
    assert_eq!(next.get_battery_level(), 15);
    // First-detected-wins: the absorbed level change is not reported on the
    // next poll either.
    let (note2, next2) = battery_step(&next, &cur);
    assert!(note2.is_none());
    assert_eq!(next2, next);
}

#[test]
fn test_battery_level_threshold() {
    let prev = CurrentStatus {
        charge_status: BatteryChangerStatus::Discharging,
        battery_level: 20,
    };
    // A level change to exactly the threshold notifies.
    let low = BatteryStatus {
        percentage: 15,
        status: String::from("DISCHARGING"),
    };
    let (note, _) = battery_step(&prev, &low);
    assert_eq!(
        note.unwrap(),
        "[System Information]\nBattery has been charged to a safe level."
    );
    // While charging, the threshold message reads differently.
    let prev_charging = CurrentStatus {
        charge_status: BatteryChangerStatus::Charging,
        battery_level: 20,
    };
    let charging = BatteryStatus {
        percentage: 15,
        status: String::from("CHARGING"),
    };
    let (note2, _) = battery_step(&prev_charging, &charging);
    assert_eq!(note2.unwrap(), "[System Information]\nBattery is low.");
    // Any other level change updates the snapshot silently.
    let other = BatteryStatus {
        percentage: 10,
        status: String::from("DISCHARGING"),
    };
    let (note3, next3) = battery_step(&prev, &other);
    assert!(note3.is_none());
    assert_eq!(next3.get_battery_level(), 10);
    // An unchanged reading emits nothing.
    let same = BatteryStatus {
        percentage: 20,
        status: String::from("DISCHARGING"),
    };
    let (note4, next4) = battery_step(&prev, &same);
    assert!(note4.is_none());
    assert_eq!(next4, prev);
}

#[test]
fn test_poll_cycle_order_and_state() {
    let mut store = DedupStore::new();
    store.initialize();
    let battery_prev = CurrentStatus {
        charge_status: BatteryChangerStatus::Discharging,
        battery_level: 50,
    };
    let battery_cur = BatteryStatus {
        percentage: 50,
        status: String::from("CHARGING"),
    };
    let sim_prev = SIMState::Ready;
    let sim_cur = SIMState::Locked;
    let messages = Some(vec![message("12345", "hello", 1629763120)]);
    let call_logs = Some(vec![call("911", CallLogType::MISSED, 1627156165)]);
    let (notes, battery_next, sim_next) = poll_cycle(
        &mut store,
        &battery_prev,
        &battery_cur,
        &sim_prev,
        &sim_cur,
        &messages,
        &call_logs,
    );
    assert_eq!(notes.len(), 4);
    assert_eq!(
        notes[0],
        "[System Information]Changer is connected.\nCurrent battery level: 50"
    );
    assert_eq!(notes[1], "[System information]Sim card locked");
    assert_eq!(notes[2], "[Receive SMS]\nFrom: 12345\nContent: hello");
    assert_eq!(notes[3], "[Missed Call]\nCall from: 911");
    assert_eq!(battery_next.get_changer_status(), BatteryChangerStatus::Charging);
    assert_eq!(sim_next, SIMState::Locked);
    assert_eq!(store.count(Category::Messages), 1);
    assert_eq!(store.count(Category::CallLogs), 1);
}

#[test]
fn test_poll_cycle_skips_failed_sources() {
    let mut store = DedupStore::new();
    let battery_prev = CurrentStatus {
        charge_status: BatteryChangerStatus::Discharging,
        battery_level: 50,
    };
    let battery_cur = BatteryStatus {
        percentage: 50,
        status: String::from("DISCHARGING"),
    };
    let sim = SIMState::Ready;
    // Both event fetches failed this cycle: nothing is emitted or recorded.
    let (notes, _, _) = poll_cycle(
        &mut store,
        &battery_prev,
        &battery_cur,
        &sim,
        &sim,
        &None,
        &None,
    );
    assert_eq!(notes.len(), 0);
    assert_eq!(store.count(Category::Messages), 0);
    assert_eq!(store.count(Category::CallLogs), 0);
}
