use threshold::models::{decode_alarm_mode, encode_alarm_mode, AlarmMode};

#[test]
fn it_works() {
    let result = 2 + 2;
    assert_eq!(result, 4);
}

#[test]
fn test_invalid_alarm_mode_in_db() {
    // A corrupted stored mode recovers to the fixed default instead of
    // making the row unreadable.
    assert_eq!(decode_alarm_mode("INVALID_MODE"), AlarmMode::Fixed);
}

#[test]
fn alarm_mode_round_trips_through_storage() {
    assert_eq!(decode_alarm_mode(encode_alarm_mode(AlarmMode::Fixed)), AlarmMode::Fixed);
    assert_eq!(decode_alarm_mode(encode_alarm_mode(AlarmMode::Window)), AlarmMode::Window);
}
