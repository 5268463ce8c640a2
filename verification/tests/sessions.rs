use unilidar_sdk2_cxx::{
    serial_initialization_outcome, udp_initialization_outcome, udp_streaming_startup, Backend,
    DirectSerialPacket, LidarPacket, LidarSession, StartupStep,
};

#[test]
fn new_session_uses_sdk() {
    let s: LidarSession<u8, u16> = LidarSession::new();
    assert!(!s.reads_direct());
    assert_eq!(s.command_backend(), Backend::Sdk);
}

#[test]
fn direct_read_hands_out_once() {
    let mut s: LidarSession<&str, u16> = LidarSession::new();
    s.open_direct();
    assert_eq!(s.command_backend(), Backend::DirectSerial);
    let p = s.record_direct_read(Some(DirectSerialPacket::PointData), Some("cloud"), None);
    assert_eq!(p, LidarPacket::PointData);
    assert_eq!(s.take_imu(), None);
    assert_eq!(s.take_cloud(), Some("cloud"));
    assert_eq!(s.take_cloud(), None);
}

#[test]
fn direct_read_reports_kinds() {
    let mut s: LidarSession<u8, u16> = LidarSession::new();
    s.open_direct();
    assert_eq!(s.record_direct_read(None, None, None), LidarPacket::NoPacket);
    assert_eq!(
        s.record_direct_read(Some(DirectSerialPacket::Other(104)), None, Some(9)),
        LidarPacket::ImuData
    );
    assert_eq!(s.take_imu(), Some(9));
    assert_eq!(s.take_imu(), None);
}

#[test]
fn failed_read_clears_held_data() {
    let mut s: LidarSession<u8, u16> = LidarSession::new();
    s.open_direct();
    s.record_direct_read(Some(DirectSerialPacket::PointData), Some(1), Some(2));
    assert_eq!(s.record_direct_failure(), LidarPacket::NoPacket);
    assert_eq!(s.take_cloud(), None);
    assert_eq!(s.take_imu(), None);
    assert!(s.reads_direct());
}

#[test]
fn close_returns_to_sdk() {
    let mut s: LidarSession<u8, u16> = LidarSession::new();
    s.open_direct();
    s.record_direct_read(None, Some(1), Some(2));
    s.close();
    assert!(!s.reads_direct());
    assert_eq!(s.command_backend(), Backend::Sdk);
    s.open_direct();
    assert_eq!(s.take_cloud(), None);
}

#[test]
fn udp_startup_sequence() {
    assert_eq!(
        udp_streaming_startup(),
        vec![
            StartupStep::StartRotation,
            StartupStep::WaitSeconds(1),
            StartupStep::SetWorkMode(0),
            StartupStep::WaitSeconds(1),
            StartupStep::ResetLidar,
            StartupStep::WaitSeconds(2),
            StartupStep::StartRotation,
            StartupStep::WaitSeconds(3),
        ]
    );
}

#[test]
fn initialization_outcomes() {
    assert!(serial_initialization_outcome(0).is_ok());
    assert!(serial_initialization_outcome(-1).is_err());
    assert!(udp_initialization_outcome(0).is_ok());
    assert!(udp_initialization_outcome(-1).is_err());
    assert_eq!(serial_initialization_outcome(-1).unwrap_err().message(), "initialziation err");
    assert_eq!(udp_initialization_outcome(-1).unwrap_err().message(), "udp initialization err");
}

#[test]
fn takes_chain_after_open_and_failure() {
    let mut s: LidarSession<u8, u16> = LidarSession::new();
    s.open_direct();
    assert_eq!(s.take_cloud(), None);
    assert_eq!(s.take_imu(), None);
    s.record_direct_read(Some(DirectSerialPacket::Other(104)), Some(3), Some(4));
    assert_eq!(s.take_cloud(), Some(3));
    assert_eq!(s.take_imu(), Some(4));
    assert_eq!(s.take_imu(), None);
    assert_eq!(s.record_direct_failure(), LidarPacket::NoPacket);
    assert_eq!(s.take_imu(), None);
    assert_eq!(s.take_cloud(), None);
    assert!(s.reads_direct());
}
