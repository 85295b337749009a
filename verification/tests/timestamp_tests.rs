use sms_client::timeparse::convert_string_to_timestamp;

#[test]
fn test_time_convert() {
    assert!(convert_string_to_timestamp("2021-08-23 24:58:40").is_err());
}

#[test]
fn test_epoch_origin() {
    assert_eq!(convert_string_to_timestamp("1970-01-01 00:00:00").unwrap(), 0);
}

#[test]
fn test_exact_epoch_values() {
    assert_eq!(
        convert_string_to_timestamp("2021-08-23 23:58:40").unwrap(),
        1629763120
    );
    assert_eq!(
        convert_string_to_timestamp("2021-07-24 19:49:25").unwrap(),
        1627156165
    );
    assert_eq!(
        convert_string_to_timestamp("2000-01-01 00:00:00").unwrap(),
        946684800
    );
    // A date before the epoch has a negative timestamp.
    assert_eq!(convert_string_to_timestamp("1969-12-31 23:59:59").unwrap(), -1);
}

#[test]
fn test_leap_day_accepted() {
    assert_eq!(
        convert_string_to_timestamp("2020-02-29 12:00:00").unwrap(),
        1582977600
    );
}

#[test]
fn test_leap_day_rejected_in_common_year() {
    assert!(convert_string_to_timestamp("2021-02-29 00:00:00").is_err());
    // 1900 is divisible by 100 but not by 400: no leap day.
    assert!(convert_string_to_timestamp("1900-02-29 00:00:00").is_err());
    // 2000 is divisible by 400: leap day exists.
    assert!(convert_string_to_timestamp("2000-02-29 00:00:00").is_ok());
}

#[test]
fn test_out_of_range_fields_rejected() {
    assert!(convert_string_to_timestamp("2021-00-23 10:00:00").is_err());
    assert!(convert_string_to_timestamp("2021-13-23 10:00:00").is_err());
    assert!(convert_string_to_timestamp("2021-08-00 10:00:00").is_err());
    assert!(convert_string_to_timestamp("2021-08-32 10:00:00").is_err());
    assert!(convert_string_to_timestamp("2021-04-31 10:00:00").is_err());
    assert!(convert_string_to_timestamp("2021-08-23 10:60:00").is_err());
    assert!(convert_string_to_timestamp("2021-08-23 10:00:60").is_err());
}

#[test]
fn test_malformed_shape_rejected() {
    assert!(convert_string_to_timestamp("").is_err());
    assert!(convert_string_to_timestamp("2021-08-23").is_err());
    assert!(convert_string_to_timestamp("2021-08-23 10:00:00 ").is_err());
    assert!(convert_string_to_timestamp("2021/08/23 10:00:00").is_err());
    assert!(convert_string_to_timestamp("2021-08-23T10:00:00").is_err());
    assert!(convert_string_to_timestamp("2O21-08-23 10:00:00").is_err());
}
