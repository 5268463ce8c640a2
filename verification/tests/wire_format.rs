use unilidar_sdk2_cxx::frame::{encode_udp_config_frame, find_header};
use unilidar_sdk2_cxx::{
    crc32, le_u16, le_u32, next_frame, packet_type, user_control_command_frame,
    work_mode_command_frame, FrameReader,
};

const HEADER: [u8; 4] = [0x55, 0xaa, 0x05, 0x0a];

fn frame_with(packet: u32, payload: &[u8]) -> Vec<u8> {
    let mut f = HEADER.to_vec();
    f.extend_from_slice(&packet.to_le_bytes());
    f.extend_from_slice(&((payload.len() + 12) as u32).to_le_bytes());
    f.extend_from_slice(payload);
    f
}

#[test]
fn crc32_check_value() {
    assert_eq!(crc32(b"123456789"), 0xcbf4_3926);
}

#[test]
fn crc32_of_nothing_is_zero() {
    assert_eq!(crc32(&[]), 0);
}

#[test]
fn crc32_single_byte() {
    assert_eq!(crc32(&[0x00]), 0xd202_ef8d);
    assert_eq!(crc32(b"a"), 0xe8b7_be43);
}

#[test]
fn little_endian_reads() {
    let buf = [0x01, 0x02, 0x03, 0x04, 0x05];
    assert_eq!(le_u16(&buf, 0), 0x0201);
    assert_eq!(le_u16(&buf, 3), 0x0504);
    assert_eq!(le_u32(&buf, 0), 0x0403_0201);
    assert_eq!(le_u32(&buf, 1), 0x0504_0302);
}

#[test]
fn work_mode_frame_bytes() {
    let f = work_mode_command_frame(8);
    assert_eq!(
        f,
        vec![85, 170, 5, 10, 210, 7, 0, 0, 28, 0, 0, 0, 8, 0, 0, 0, 243, 247, 240, 228, 0, 0, 0, 0, 0, 0, 0, 255]
    );
}

#[test]
fn work_mode_frame_masks_mode() {
    let f = work_mode_command_frame(0xffff_ffff);
    assert_eq!(le_u32(&f, 12), 0x003f_ffff);
    assert_eq!(le_u32(&f, 16), crc32(&0x003f_ffffu32.to_le_bytes()));
}

#[test]
fn user_control_frame_bytes() {
    let f = user_control_command_frame(2, 0);
    assert_eq!(
        f,
        vec![
            85, 170, 5, 10, 100, 0, 0, 0, 32, 0, 0, 0, 2, 0, 0, 0, 0, 0, 0, 0, 20, 216, 7, 39, 0, 0,
            0, 0, 0, 0, 0, 255
        ]
    );
}

#[test]
fn udp_config_frame_bytes() {
    let f = encode_udp_config_frame([192, 168, 1, 62], [192, 168, 1, 2], 6101, 6201);
    assert_eq!(
        f,
        vec![
            85, 170, 5, 10, 108, 0, 0, 0, 44, 0, 0, 0, 192, 168, 1, 62, 192, 168, 1, 2, 0, 0, 0, 0,
            255, 255, 255, 0, 213, 23, 57, 24, 191, 110, 197, 176, 0, 0, 0, 0, 0, 0, 0, 255
        ]
    );
}

#[test]
fn command_frame_reads_back() {
    let f = user_control_command_frame(1, 0);
    let mut buf = f.clone();
    buf.extend_from_slice(&[1, 2, 3]);
    let got = next_frame(&mut buf);
    assert_eq!(got, Some(f.clone()));
    assert_eq!(buf, vec![1, 2, 3]);
    assert_eq!(packet_type(&f), 100);
}

#[test]
fn next_frame_without_header_keeps_everything() {
    let mut buf = vec![1, 2, 3, 0x55, 0xaa, 0x05];
    assert_eq!(next_frame(&mut buf), None);
    assert_eq!(buf, vec![1, 2, 3, 0x55, 0xaa, 0x05]);
    let mut empty: Vec<u8> = Vec::new();
    assert_eq!(next_frame(&mut empty), None);
    assert!(empty.is_empty());
}

#[test]
fn next_frame_skips_garbage_before_header() {
    let f = work_mode_command_frame(0);
    let mut buf = vec![9, 9, 0x55, 9];
    buf.extend_from_slice(&f);
    assert_eq!(next_frame(&mut buf), Some(f));
    assert!(buf.is_empty());
}

#[test]
fn next_frame_waits_for_short_header() {
    let mut buf = vec![7, 0x55, 0xaa, 0x05, 0x0a, 1, 2];
    assert_eq!(next_frame(&mut buf), None);
    assert_eq!(buf, vec![0x55, 0xaa, 0x05, 0x0a, 1, 2]);
}

#[test]
fn next_frame_drops_header_with_bad_size() {
    let mut buf = HEADER.to_vec();
    buf.extend_from_slice(&104u32.to_le_bytes());
    buf.extend_from_slice(&23u32.to_le_bytes());
    buf.extend_from_slice(&[0; 20]);
    assert_eq!(next_frame(&mut buf), None);
    assert_eq!(buf.len(), 28);
    assert_eq!(&buf[0..4], &104u32.to_le_bytes());

    let mut big = HEADER.to_vec();
    big.extend_from_slice(&104u32.to_le_bytes());
    big.extend_from_slice(&6001u32.to_le_bytes());
    assert_eq!(next_frame(&mut big), None);
    assert_eq!(big.len(), 8);
}

#[test]
fn next_frame_accepts_size_bounds() {
    let mut small = frame_with(101, &[0; 12]);
    assert_eq!(small.len(), 24);
    let copy = small.clone();
    assert_eq!(next_frame(&mut small), Some(copy));

    let mut large = frame_with(101, &vec![7; 5988]);
    assert_eq!(large.len(), 6000);
    let copy = large.clone();
    assert_eq!(next_frame(&mut large), Some(copy));
}

#[test]
fn next_frame_waits_for_rest_of_frame() {
    let f = work_mode_command_frame(3);
    let mut buf = f[..20].to_vec();
    assert_eq!(next_frame(&mut buf), None);
    assert_eq!(buf, f[..20].to_vec());
}

#[test]
fn frame_reader_assembles_split_frame() {
    let f = work_mode_command_frame(5);
    let mut reader = FrameReader::new();
    assert_eq!(reader.next_frame(), None);
    assert_eq!(reader.receive(&f[..10]), None);
    assert_eq!(reader.receive(&f[10..27]), None);
    let mut tail = vec![f[27]];
    tail.extend_from_slice(&f);
    assert_eq!(reader.receive(&tail), Some(f.clone()));
    assert_eq!(reader.next_frame(), Some(f));
    assert_eq!(reader.next_frame(), None);
}

#[test]
fn timestamp_frame_bytes() {
    let f = unilidar_sdk2_cxx::frame::timestamp_command_frame(1700000000, 5);
    assert_eq!(
        f,
        vec![
            85, 170, 5, 10, 106, 0, 0, 0, 32, 0, 0, 0, 0, 241, 83, 101, 5, 0, 0, 0, 82, 156, 61,
            75, 0, 0, 0, 0, 0, 0, 0, 255
        ]
    );
}

#[test]
fn find_header_positions() {
    assert_eq!(find_header(&[0x55, 0xaa, 0x05, 0x0a]), Some(0));
    assert_eq!(find_header(&[0x55, 0x55, 0xaa, 0x05, 0x0a, 0x55, 0xaa, 0x05, 0x0a]), Some(1));
    assert_eq!(find_header(&[0x55, 0xaa, 0x05]), None);
    assert_eq!(find_header(&[]), None);
}

#[test]
fn crc32_residue() {
    for msg in [&b""[..], b"123456789", &[0xff; 7], &[0x55, 0xaa, 0x05, 0x0a]] {
        let mut m = msg.to_vec();
        m.extend_from_slice(&crc32(msg).to_le_bytes());
        assert_eq!(crc32(&m), 0x2144_df1c);
    }
}
