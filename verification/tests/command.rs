use robot_commander::command::{
    decimal_text, GoBackward, GoForward, IMUData, RobotCommand, DRIVE_TAG, TELEMETRY_TAG,
};
use robot_commander::speed::Speed;

fn speed(text: &str) -> Speed {
    Speed::parse(text).unwrap()
}

fn speed_of(value: f32) -> Speed {
    Speed::parse(&serde_json::to_string(&value).unwrap()).unwrap()
}

#[test]
fn tags_are_fixed() {
    assert_eq!(DRIVE_TAG, 1);
    assert_eq!(TELEMETRY_TAG, 126);
}

#[test]
fn decimal_text_of_every_byte() {
    assert_eq!(decimal_text(0), "0");
    assert_eq!(decimal_text(1), "1");
    assert_eq!(decimal_text(9), "9");
    assert_eq!(decimal_text(10), "10");
    assert_eq!(decimal_text(42), "42");
    assert_eq!(decimal_text(99), "99");
    assert_eq!(decimal_text(100), "100");
    assert_eq!(decimal_text(101), "101");
    assert_eq!(decimal_text(126), "126");
    assert_eq!(decimal_text(200), "200");
    assert_eq!(decimal_text(255), "255");
    for n in 0..=255u8 {
        assert_eq!(decimal_text(n), n.to_string());
    }
}

#[test]
fn forward_drives_both_sides_at_the_speed() {
    assert_eq!(GoForward::new(speed("0.25")).to_json(), r#"{"T":1,"L":0.25,"R":0.25}"#);
    assert_eq!(GoForward::new(speed("1.0")).to_json(), r#"{"T":1,"L":1.0,"R":1.0}"#);
    assert_eq!(GoForward::new(speed("0")).to_json(), r#"{"T":1,"L":0,"R":0}"#);
    assert_eq!(GoForward::new(speed("-0.5")).to_json(), r#"{"T":1,"L":-0.5,"R":-0.5}"#);
    assert_eq!(GoForward::new(speed("1e-7")).to_json(), r#"{"T":1,"L":1e-7,"R":1e-7}"#);
}

#[test]
fn backward_drives_both_sides_at_the_negated_speed() {
    assert_eq!(GoBackward::new(speed("0.25")).to_json(), r#"{"T":1,"L":-0.25,"R":-0.25}"#);
    assert_eq!(GoBackward::new(speed("0.5")).to_json(), r#"{"T":1,"L":-0.5,"R":-0.5}"#);
    assert_eq!(GoBackward::new(speed("-0.5")).to_json(), r#"{"T":1,"L":0.5,"R":0.5}"#);
    assert_eq!(GoBackward::new(speed("0.0")).to_json(), r#"{"T":1,"L":-0.0,"R":-0.0}"#);
}

#[test]
fn telemetry_request_has_a_tag_and_nothing_else() {
    assert_eq!(IMUData::new().to_json(), r#"{"T":126}"#);
}

#[test]
fn drive_command_decodes_to_its_fields() {
    let json = GoForward::new(speed_of(1.0)).to_json();
    assert_eq!(json, r#"{"T":1,"L":1.0,"R":1.0}"#);
    let value: serde_json::Value = serde_json::from_str(&json).unwrap();
    let fields = value.as_object().unwrap();
    assert_eq!(fields.len(), 3);
    assert_eq!(fields["T"].as_u64(), Some(1));
    assert_eq!(fields["L"].as_f64(), Some(1.0));
    assert_eq!(fields["R"].as_f64(), Some(1.0));
}

#[test]
fn backward_command_decodes_to_negated_fields() {
    let json = GoBackward::new(speed_of(0.5)).to_json();
    let value: serde_json::Value = serde_json::from_str(&json).unwrap();
    let fields = value.as_object().unwrap();
    assert_eq!(fields.len(), 3);
    assert_eq!(fields["T"].as_u64(), Some(1));
    assert_eq!(fields["L"].as_f64(), Some(-0.5));
    assert_eq!(fields["R"].as_f64(), Some(-0.5));
}

#[test]
fn telemetry_request_decodes_to_its_tag() {
    let value: serde_json::Value = serde_json::from_str(&IMUData::new().to_json()).unwrap();
    let fields = value.as_object().unwrap();
    assert_eq!(fields.len(), 1);
    assert_eq!(fields["T"].as_u64(), Some(126));
}

#[test]
fn every_float_survives_the_wire() {
    for value in [0.25f32, -0.75, 0.1, 3.0e10, 1.0e-7, f32::MAX, f32::MIN_POSITIVE] {
        let json = GoForward::new(speed_of(value)).to_json();
        let decoded: serde_json::Value = serde_json::from_str(&json).unwrap();
        assert_eq!(decoded["L"].as_f64().map(|l| l as f32), Some(value));
        assert_eq!(decoded["R"].as_f64().map(|r| r as f32), Some(value));
        let json = GoBackward::new(speed_of(value)).to_json();
        let decoded: serde_json::Value = serde_json::from_str(&json).unwrap();
        assert_eq!(decoded["L"].as_f64().map(|l| l as f32), Some(-value));
        assert_eq!(decoded["R"].as_f64().map(|r| r as f32), Some(-value));
    }
}
