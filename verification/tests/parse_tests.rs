use sms_client::battery::{BatteryChangerStatus, BatteryStatus, CurrentStatus, StatusDiff};
use sms_client::call_log::{CallLogType, RawCallLog, RawCallLogList};
use sms_client::device_info::{RawDeviceInfo, SIMState};
use sms_client::fault::{permission_denied_in, PermissionError};
use sms_client::sms::{RawMessage, RawMessageList};

fn raw_call_log_from_value(v: &serde_json::Value) -> RawCallLog {
    RawCallLog {
        name: String::from(v["name"].as_str().unwrap()),
        phone_number: String::from(v["phone_number"].as_str().unwrap()),
        log_type: String::from(v["type"].as_str().unwrap()),
        date: String::from(v["date"].as_str().unwrap()),
        duration: String::from(v["duration"].as_str().unwrap()),
    }
}

#[test]
fn test_parse_call_logs() {
    let s = r#"
        [
            {"name": "","phone_number": "911","type": "MISSED","date": "2021-07-24 19:49:25","duration": "00:35"},
            {"name": "","phone_number": "119","type": "MISSED","date": "2021-07-31 15:33:02","duration": "00:38"},
            {"name": "","phone_number": "110","type": "MISSED","date": "2021-08-10 09:17:45","duration": "00:37"},
            {"name": "","phone_number": "0237253888","type": "MISSED","date": "2021-08-11 11:34:31","duration": "00:38"},
            {"name": "","phone_number": "0235636688","type": "MISSED","date": "2021-08-20 10:38:48","duration": "00:36"}
        ]
        "#;

    let entries: serde_json::Value = serde_json::from_str(s).unwrap();
    let raw: Vec<RawCallLog> = entries
        .as_array()
        .unwrap()
        .iter()
        .map(raw_call_log_from_value)
        .collect();
    let logs = RawCallLogList(raw);

    assert_eq!(logs.len(), 5);

    let converted = logs.convert_to_vec().unwrap();
    assert_eq!(converted.len(), 5);
    assert_eq!(converted[0].timestamp, 1627156165);
    assert_eq!(converted[0].get_number(), "911");
    assert_eq!(*converted[0].get_log_type(), CallLogType::MISSED);
    assert_eq!(converted[4].timestamp, 1629455928);
}

#[test]
fn test_parse_device_info() {
    let s: &str = r#"
        {
            "data_enabled": "false","data_activity": "none","data_state": "disconnected","device_id": null,"device_software_version": "00",
            "phone_count": 2,"phone_type": "gsm","network_operator": "","network_operator_name": "","network_country_iso": "us",
            "network_type": "unknown","network_roaming": false,"sim_country_iso": "","sim_operator": "","sim_operator_name": "",
            "sim_serial_number": null,"sim_subscriber_id": null,"sim_state": "pin_required"
        }"#;
    let v: serde_json::Value = serde_json::from_str(s).unwrap();
    let device_info = RawDeviceInfo {
        data_enabled: String::from(v["data_enabled"].as_str().unwrap()),
        data_activity: String::from(v["data_activity"].as_str().unwrap()),
        data_state: String::from(v["data_state"].as_str().unwrap()),
        device_id: v["device_id"].as_str().map(String::from),
        device_software_version: String::from(v["device_software_version"].as_str().unwrap()),
        phone_count: v["phone_count"].as_u64().unwrap() as u8,
        phone_type: String::from(v["phone_type"].as_str().unwrap()),
        network_operator: String::from(v["network_operator"].as_str().unwrap()),
        network_operator_name: String::from(v["network_operator_name"].as_str().unwrap()),
        network_country_iso: String::from(v["network_country_iso"].as_str().unwrap()),
        network_type: String::from(v["network_type"].as_str().unwrap()),
        network_roaming: v["network_roaming"].as_bool().unwrap(),
        sim_country_iso: String::from(v["sim_country_iso"].as_str().unwrap()),
        sim_operator: String::from(v["sim_operator"].as_str().unwrap()),
        sim_operator_name: String::from(v["sim_operator_name"].as_str().unwrap()),
        sim_serial_number: v["sim_serial_number"].as_str().map(String::from),
        sim_subscriber_id: v["sim_subscriber_id"].as_str().map(String::from),
        sim_state: String::from(v["sim_state"].as_str().unwrap()),
    };

    assert!(matches!(device_info.get_sim_state(), SIMState::Locked));
}

#[test]
fn test_charge_status_case_insensitive() {
    let upper = BatteryStatus {
        percentage: 50,
        status: String::from("CHARGING"),
    };
    assert_eq!(upper.get_changer_status(), BatteryChangerStatus::Charging);
    let lower = BatteryStatus {
        percentage: 50,
        status: String::from("charging"),
    };
    assert_eq!(lower.get_changer_status(), BatteryChangerStatus::Charging);
    let full = BatteryStatus {
        percentage: 100,
        status: String::from("FULL"),
    };
    assert_eq!(full.get_changer_status(), BatteryChangerStatus::Discharging);
}

#[test]
fn test_battery_display_text() {
    let b = BatteryStatus {
        percentage: 85,
        status: String::from("CHARGING"),
    };
    assert_eq!(b.to_text(), "Changer is connected.\nCurrent battery level: 85");
    assert_eq!(b.get_percentage(), 85);
    let snapshot = b.to_current_status();
    assert_eq!(snapshot.get_changer_status(), BatteryChangerStatus::Charging);
    assert_eq!(snapshot.get_battery_level(), 85);
}

#[test]
fn test_current_status_diff_and_default() {
    let base = CurrentStatus::default();
    assert_eq!(base.get_changer_status(), BatteryChangerStatus::Discharging);
    assert_eq!(base.get_battery_level(), 0);
    let reading = BatteryStatus {
        percentage: 0,
        status: String::from("DISCHARGING"),
    };
    assert_eq!(base.not_equal(&reading), StatusDiff::Equal);
    let charged = BatteryStatus {
        percentage: 0,
        status: String::from("CHARGING"),
    };
    assert_eq!(base.not_equal(&charged), StatusDiff::ChargeStatus);
    let drained = BatteryStatus {
        percentage: 5,
        status: String::from("DISCHARGING"),
    };
    assert_eq!(base.not_equal(&drained), StatusDiff::Battery);
    let mut updated = base;
    updated.update_charge_status(&charged);
    assert_eq!(updated.get_changer_status(), BatteryChangerStatus::Charging);
}

#[test]
fn test_sim_state_lookup() {
    assert_eq!(SIMState::from_raw("ready"), SIMState::Ready);
    assert_eq!(SIMState::from_raw("pin_required"), SIMState::Locked);
    assert_eq!(SIMState::from_raw("absent"), SIMState::NotInsert);
    assert_eq!(SIMState::from_raw("network_locked"), SIMState::Unknown);
    assert_eq!(SIMState::from_raw(""), SIMState::Unknown);
    assert_eq!(SIMState::Ready.to_text(), "ready");
    assert_eq!(SIMState::NotInsert.to_text(), "not insert");
}

#[test]
fn test_call_type_parse() {
    assert_eq!(CallLogType::parse_type("MISSED"), CallLogType::MISSED);
    assert_eq!(CallLogType::parse_type("REJECTED"), CallLogType::REJECTED);
    assert_eq!(CallLogType::parse_type("OUTGOING"), CallLogType::OUTGOING);
    assert_eq!(CallLogType::parse_type("INCOMING"), CallLogType::INCOMING);
}

#[test]
fn test_message_normalization() {
    let good = RawMessage {
        threadid: 3,
        message_type: String::from("1"),
        read: true,
        number: String::from("12345"),
        received: String::from("2021-08-23 23:58:40"),
        body: String::from("hello"),
    };
    let bad = RawMessage {
        threadid: 4,
        message_type: String::from("1"),
        read: false,
        number: String::from("12345"),
        received: String::from("2021-08-23 24:58:40"),
        body: String::from("late"),
    };
    let list = RawMessageList(vec![good]);
    let converted = list.convert_to_vec().unwrap();
    assert_eq!(converted.len(), 1);
    assert_eq!(converted[0].timestamp, 1629763120);
    assert_eq!(converted[0].get_number(), "12345");
    assert_eq!(converted[0].get_content(), "hello");
    // A malformed timestamp fails the whole batch with a parse fault.
    let list = RawMessageList(vec![bad]);
    assert!(list.convert_to_vec().is_err());
}

#[test]
fn test_permission_sentinel_detection() {
    assert!(permission_denied_in("Error: permission denied"));
    assert!(permission_denied_in("output with Error in the middle"));
    assert!(permission_denied_in("ends with Error"));
    assert!(!permission_denied_in("[]"));
    assert!(!permission_denied_in("error in lower case is no marker"));
    assert!(!permission_denied_in("Erro"));
    assert!(!permission_denied_in(""));
}

#[test]
fn test_permission_error_message() {
    let e = PermissionError::new();
    assert_eq!(
        e.message(),
        "Permission denied, please give specify permission to termux:api app"
    );
}
