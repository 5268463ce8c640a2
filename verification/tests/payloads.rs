use unilidar_sdk2_cxx::payload::{parse_imu_sample, parse_point_packet};
use unilidar_sdk2_cxx::{decode_frame, DirectSerialPacket};

fn frame(packet: u32, payload: &[u8]) -> Vec<u8> {
    let mut f = vec![0x55, 0xaa, 0x05, 0x0a];
    f.extend_from_slice(&packet.to_le_bytes());
    f.extend_from_slice(&((payload.len() + 12) as u32).to_le_bytes());
    f.extend_from_slice(payload);
    f
}

fn point_payload(count: u32) -> Vec<u8> {
    let mut p = vec![0u8; 1020];
    for k in 0..16u32 {
        let off = 52 + 4 * k as usize;
        p[off..off + 4].copy_from_slice(&(1.5f32 + k as f32).to_bits().to_le_bytes());
    }
    p[116..120].copy_from_slice(&count.to_le_bytes());
    for j in 0..300usize {
        p[120 + 2 * j..122 + 2 * j].copy_from_slice(&((j as u16) * 3 + 1).to_le_bytes());
        p[720 + j] = (j % 251) as u8;
    }
    p
}

#[test]
fn point_packet_fields_and_points() {
    let f = frame(102, &point_payload(5));
    let p = parse_point_packet(&f).unwrap();
    assert_eq!(f32::from_bits(p.a_axis_dist), 1.5);
    assert_eq!(f32::from_bits(p.time_increment), 16.5);
    assert_eq!(f32::from_bits(p.scan_period), 11.5);
    assert_eq!(p.ranges, vec![1, 4, 7, 10, 13]);
    assert_eq!(p.intensities, vec![0, 1, 2, 3, 4]);
}

#[test]
fn point_packet_count_is_capped() {
    let f = frame(102, &point_payload(1000));
    let p = parse_point_packet(&f).unwrap();
    assert_eq!(p.ranges.len(), 300);
    assert_eq!(p.intensities.len(), 300);
    assert_eq!(p.ranges[299], 898);
    assert_eq!(p.intensities[299], (299 % 251) as u8);
}

#[test]
fn point_packet_too_short() {
    let f = frame(102, &point_payload(5)[..1019]);
    assert!(parse_point_packet(&f).is_none());
    assert!(parse_point_packet(&[0x55, 0xaa]).is_none());
}

#[test]
fn imu_sample_fields() {
    let mut payload = Vec::new();
    for v in [7u32, 56, 1700000000, 250] {
        payload.extend_from_slice(&v.to_le_bytes());
    }
    for k in 0..10 {
        payload.extend_from_slice(&(0.25f32 * k as f32).to_bits().to_le_bytes());
    }
    let f = frame(104, &payload);
    let s = parse_imu_sample(&f).unwrap();
    assert_eq!(s.seq, 7);
    assert_eq!(s.payload_size, 56);
    assert_eq!(s.stamp_sec, 1700000000);
    assert_eq!(s.stamp_nsec, 250);
    assert_eq!(f32::from_bits(s.quaternion[3]), 0.75);
    assert_eq!(f32::from_bits(s.angular_velocity[0]), 1.0);
    assert_eq!(f32::from_bits(s.linear_acceleration[2]), 2.25);
    assert!(parse_imu_sample(&f[..f.len() - 1]).is_none());
}

#[test]
fn decode_frame_by_type() {
    let point = decode_frame(&frame(102, &point_payload(2)));
    assert_eq!(point.packet, DirectSerialPacket::PointData);
    assert!(point.point_packet.is_some());
    assert!(point.imu_sample.is_none());

    let imu = decode_frame(&frame(104, &[0u8; 56]));
    assert_eq!(imu.packet, DirectSerialPacket::Other(104));
    assert!(imu.point_packet.is_none());
    assert!(imu.imu_sample.is_some());

    let short_imu = decode_frame(&frame(104, &[0u8; 12]));
    assert!(short_imu.imu_sample.is_none());

    let flat = decode_frame(&frame(103, &point_payload(2)));
    assert_eq!(flat.packet, DirectSerialPacket::PointData2D);
    assert!(flat.point_packet.is_none());

    let ack = decode_frame(&frame(101, &[0u8; 12]));
    assert_eq!(ack.packet, DirectSerialPacket::Other(101));
    assert!(ack.point_packet.is_none() && ack.imu_sample.is_none());
}
