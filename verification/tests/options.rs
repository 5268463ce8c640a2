use unilidar_sdk2_cxx::{
    arg_value, serial_baudrate, serial_port, stty_arguments, udp_config_command_frame,
    DirectSerialError,
};
use unilidar_sdk2_cxx::frame::encode_udp_config_frame;
use unilidar_sdk2_cxx::text::decimal;

fn args(list: &[&str]) -> Vec<String> {
    list.iter().map(|s| s.to_string()).collect()
}

#[test]
fn arg_value_finds_first_occurrence() {
    let a = args(&["prog", "--port", "/dev/a", "--port", "/dev/b"]);
    assert_eq!(arg_value(&a, "--port"), Some("/dev/a".to_string()));
    assert_eq!(arg_value(&a, "--baud"), None);
}

#[test]
fn arg_value_needs_a_following_argument() {
    let a = args(&["prog", "--baud"]);
    assert_eq!(arg_value(&a, "--baud"), None);
    let empty: Vec<String> = Vec::new();
    assert_eq!(arg_value(&empty, "--baud"), None);
}

#[test]
fn serial_port_precedence() {
    let with_port = args(&["prog", "--port", "/dev/ttyUSB3"]);
    assert_eq!(serial_port(&with_port, Some("/dev/env".to_string()), true), "/dev/ttyUSB3");
    let none = args(&["prog"]);
    assert_eq!(serial_port(&none, Some("/dev/env".to_string()), true), "/dev/env");
    assert_eq!(
        serial_port(&none, None, true),
        "/dev/serial/by-id/usb-1a86_USB_Single_Serial_5A2A026768-if00"
    );
    assert_eq!(serial_port(&none, None, false), "/dev/ttyACM0");
}

#[test]
fn serial_baudrate_default_and_choices() {
    let none = args(&["prog"]);
    assert_eq!(serial_baudrate(&none, None).unwrap(), 4000000);
    assert_eq!(serial_baudrate(&none, Some("115200".to_string())).unwrap(), 115200);
    let with_baud = args(&["prog", "--baud", "+921600"]);
    assert_eq!(serial_baudrate(&with_baud, Some("115200".to_string())).unwrap(), 921600);
    let max = args(&["prog", "--baud", "4294967295"]);
    assert_eq!(serial_baudrate(&max, None).unwrap(), u32::MAX);
}

#[test]
fn serial_baudrate_invalid() {
    for bad in ["fast", "", "4294967296", "-1", " 9600", "+"] {
        let a = args(&["prog", "--baud", bad]);
        match serial_baudrate(&a, None) {
            Err(DirectSerialError::InvalidBaudrate { baudrate, .. }) => assert_eq!(baudrate, bad),
            other => panic!("unexpected {other:?}"),
        }
    }
}

#[test]
fn stty_argument_list() {
    assert_eq!(
        stty_arguments("/dev/ttyACM0", 4000000),
        args(&["-F", "/dev/ttyACM0", "4000000", "raw", "-echo", "-ixon", "-ixoff", "-crtscts"])
    );
    assert_eq!(stty_arguments("p", 0)[2], "0");
}

#[test]
fn udp_config_frame_or_invalid_address() {
    let ok = udp_config_command_frame(
        Some([192, 168, 1, 62]),
        "192.168.1.62",
        Some([192, 168, 1, 2]),
        "192.168.1.2",
        6101,
        6201,
    )
    .unwrap();
    assert_eq!(ok, encode_udp_config_frame([192, 168, 1, 62], [192, 168, 1, 2], 6101, 6201));

    match udp_config_command_frame(None, "lidar", None, "host", 1, 2) {
        Err(DirectSerialError::InvalidIpv4 { address }) => assert_eq!(address, "lidar"),
        other => panic!("unexpected {other:?}"),
    }
    match udp_config_command_frame(Some([1, 2, 3, 4]), "1.2.3.4", None, "host", 1, 2) {
        Err(DirectSerialError::InvalidIpv4 { address }) => assert_eq!(address, "host"),
        other => panic!("unexpected {other:?}"),
    }
}

#[test]
fn decimal_rendering() {
    assert_eq!(decimal(0), "0");
    assert_eq!(decimal(9), "9");
    assert_eq!(decimal(10), "10");
    assert_eq!(decimal(4000000), "4000000");
    assert_eq!(decimal(u64::MAX), u64::MAX.to_string());
}
