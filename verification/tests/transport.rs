use robot_commander::command::{GoBackward, GoForward, IMUData};
use robot_commander::speed::Speed;
use robot_commander::transport::{
    command_to_robot, retrieve_imu_data, send_command, url_for, HttpOutcome, ERROR_PREFIX,
    NOT_RESPONDING, NO_RESPONSE, ROVER_IP,
};

fn body(text: &str) -> HttpOutcome {
    HttpOutcome::Body(text.to_string())
}

fn failed(cause: &str) -> HttpOutcome {
    HttpOutcome::Failed(cause.to_string())
}

#[test]
fn fixed_texts() {
    assert_eq!(ROVER_IP, "192.168.4.1");
    assert_eq!(NO_RESPONSE, "No response");
    assert_eq!(NOT_RESPONDING, "Robot not responding");
    assert_eq!(ERROR_PREFIX, "Error: ");
}

#[test]
fn url_carries_the_command_in_the_query() {
    assert_eq!(url_for(r#"{"T":126}"#), r#"http://192.168.4.1/js?json={"T":126}"#);
    assert_eq!(url_for(""), "http://192.168.4.1/js?json=");
    assert_eq!(
        url_for(r#"{"T":1,"L":0.25,"R":0.25}"#),
        r#"http://192.168.4.1/js?json={"T":1,"L":0.25,"R":0.25}"#
    );
}

#[test]
fn send_command_delivers_the_text_as_it_stands() {
    let exchange = send_command(r#"{"T":1,"L":0,"R":0}"#);
    assert_eq!(exchange.url(), r#"http://192.168.4.1/js?json={"T":1,"L":0,"R":0}"#);
}

#[test]
fn send_command_reports_the_cause_of_a_failure() {
    let exchange = send_command(r#"{"T":126}"#);
    assert_eq!(exchange.conclude(failed("connection refused")), "Error: connection refused");
    assert_eq!(exchange.conclude(failed("")), "Error: ");
}

#[test]
fn send_command_relays_the_body() {
    let exchange = send_command(r#"{"T":126}"#);
    assert_eq!(exchange.conclude(body("OK")), "OK");
    assert_eq!(exchange.conclude(body(" {\"r\": 1}\n")), " {\"r\": 1}\n");
    assert_eq!(exchange.conclude(body("Error: not really")), "Error: not really");
}

#[test]
fn send_command_reports_a_missing_body() {
    let exchange = send_command(r#"{"T":126}"#);
    assert_eq!(exchange.conclude(body("")), "No response");
    assert_eq!(exchange.conclude(HttpOutcome::Unreadable), "No response");
}

#[test]
fn command_to_robot_writes_the_command_into_the_url() {
    let forward = GoForward::new(Speed::parse("0.25").unwrap());
    assert_eq!(
        command_to_robot(forward).url(),
        r#"http://192.168.4.1/js?json={"T":1,"L":0.25,"R":0.25}"#
    );
    let backward = GoBackward::new(Speed::parse("0.5").unwrap());
    assert_eq!(
        command_to_robot(backward).url(),
        r#"http://192.168.4.1/js?json={"T":1,"L":-0.5,"R":-0.5}"#
    );
    assert_eq!(command_to_robot(IMUData::new()).url(), r#"http://192.168.4.1/js?json={"T":126}"#);
}

#[test]
fn command_to_robot_hides_the_cause_of_a_failure() {
    let exchange = command_to_robot(IMUData::new());
    assert_eq!(exchange.conclude(failed("connection refused")), "Robot not responding");
    assert_eq!(exchange.conclude(failed("")), "Robot not responding");
}

#[test]
fn command_to_robot_relays_the_body() {
    let exchange = command_to_robot(IMUData::new());
    assert_eq!(exchange.conclude(body("IMU:0,0,0")), "IMU:0,0,0");
    assert_eq!(exchange.conclude(body("")), "No response");
    assert_eq!(exchange.conclude(HttpOutcome::Unreadable), "No response");
}

#[test]
fn retrieve_imu_data_asks_for_the_readings() {
    let exchange = retrieve_imu_data();
    assert_eq!(exchange.url(), r#"http://192.168.4.1/js?json={"T":126}"#);
    assert_eq!(exchange.conclude(body("IMU:1,2,3")), "IMU:1,2,3");
    assert_eq!(exchange.conclude(failed("timed out")), "Robot not responding");
}

#[test]
fn an_exchange_can_be_concluded_again() {
    let exchange = retrieve_imu_data();
    assert_eq!(exchange.conclude(failed("timed out")), "Robot not responding");
    assert_eq!(exchange.conclude(body("late")), "late");
    assert_eq!(exchange.url(), r#"http://192.168.4.1/js?json={"T":126}"#);
}
