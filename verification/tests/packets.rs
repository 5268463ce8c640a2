use unilidar_sdk2_cxx::{
    classify_packet_type, packet_from_sdk_code, DirectSerialPacket, LidarPacket, LidarPacketCounts,
};

#[test]
fn sdk_codes_map_to_packets() {
    assert_eq!(packet_from_sdk_code(0), Some(LidarPacket::NoPacket));
    assert_eq!(packet_from_sdk_code(100), Some(LidarPacket::UserCmd));
    assert_eq!(packet_from_sdk_code(101), Some(LidarPacket::AckData));
    assert_eq!(packet_from_sdk_code(102), Some(LidarPacket::PointData));
    assert_eq!(packet_from_sdk_code(103), Some(LidarPacket::PointData2D));
    assert_eq!(packet_from_sdk_code(104), Some(LidarPacket::ImuData));
    assert_eq!(packet_from_sdk_code(105), Some(LidarPacket::LidarVersion));
    assert_eq!(packet_from_sdk_code(106), Some(LidarPacket::TimeStamp));
    assert_eq!(packet_from_sdk_code(107), Some(LidarPacket::WorkModeConfig));
    assert_eq!(packet_from_sdk_code(108), Some(LidarPacket::IpAddressConfig));
    assert_eq!(packet_from_sdk_code(109), Some(LidarPacket::MacAddressConfig));
    assert_eq!(packet_from_sdk_code(2001), Some(LidarPacket::ParamData));
}

#[test]
fn sdk_unknown_codes_are_refused() {
    assert_eq!(packet_from_sdk_code(2000), None);
    assert_eq!(packet_from_sdk_code(-1), None);
    assert_eq!(packet_from_sdk_code(110), None);
}

#[test]
fn classify_point_types() {
    assert_eq!(classify_packet_type(102), DirectSerialPacket::PointData);
    assert_eq!(classify_packet_type(103), DirectSerialPacket::PointData2D);
    assert_eq!(classify_packet_type(104), DirectSerialPacket::Other(104));
}

#[test]
fn direct_packets_convert() {
    assert_eq!(LidarPacket::from(DirectSerialPacket::PointData), LidarPacket::PointData);
    assert_eq!(LidarPacket::from(DirectSerialPacket::PointData2D), LidarPacket::PointData2D);
    assert_eq!(LidarPacket::from(DirectSerialPacket::Other(104)), LidarPacket::ImuData);
    assert_eq!(LidarPacket::from(DirectSerialPacket::Other(2001)), LidarPacket::ParamData);
    assert_eq!(LidarPacket::from(DirectSerialPacket::Other(102)), LidarPacket::NoPacket);
    assert_eq!(LidarPacket::from(DirectSerialPacket::Other(2002)), LidarPacket::NoPacket);
    assert_eq!(LidarPacket::from(DirectSerialPacket::Other(0)), LidarPacket::NoPacket);
}

#[test]
fn direct_and_sdk_agree_on_documented_codes() {
    for code in [0u32, 100, 101, 102, 103, 104, 105, 106, 107, 108, 109, 2001] {
        assert_eq!(
            Some(LidarPacket::from(classify_packet_type(code))),
            packet_from_sdk_code(code as i32)
        );
    }
}

#[test]
fn counts_record_each_kind() {
    let mut c = LidarPacketCounts::default();
    c.record(&LidarPacket::PointData);
    c.record(&LidarPacket::PointData);
    c.record(&LidarPacket::PointData2D);
    c.record(&LidarPacket::ImuData);
    c.record(&LidarPacket::AckData);
    c.record(&LidarPacket::ParamData);
    c.record(&LidarPacket::NoPacket);
    c.record(&LidarPacket::UserCmd);
    c.record(&LidarPacket::TimeStamp);
    assert_eq!(
        c,
        LidarPacketCounts {
            point_packets: 2,
            point_2d_packets: 1,
            imu_packets: 1,
            ack_packets: 1,
            param_packets: 1,
            no_packets: 1,
            other_packets: 2,
        }
    );
    assert_eq!(c.total_of(&LidarPacket::LidarVersion), 2);
    assert_eq!(c.total_of(&LidarPacket::PointData), 2);
}

#[test]
fn counts_summary_text() {
    let mut c = LidarPacketCounts::default();
    assert_eq!(
        c.summary(),
        "point_packets=0 point_2d_packets=0 imu_packets=0 ack_packets=0 param_packets=0 other_packets=0 no_packets=0"
    );
    c.point_packets = 1234567;
    c.no_packets = u64::MAX;
    c.record(&LidarPacket::MacAddressConfig);
    assert_eq!(
        c.summary(),
        "point_packets=1234567 point_2d_packets=0 imu_packets=0 ack_packets=0 param_packets=0 other_packets=1 no_packets=18446744073709551615"
    );
}
