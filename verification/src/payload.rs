//! Layouts of the payloads that the lidar sends: point-cloud scans and IMU
//! samples. The payload of a frame starts at byte 12. Every floating-point
//! quantity is handed out as the bit pattern of its IEEE-754 `f32`.

use vstd::prelude::*;

use crate::packet::{
    classify_packet_type, spec_classify_packet_type, DirectSerialPacket,
    LIDAR_IMU_DATA_PACKET_TYPE, LIDAR_POINT_DATA_PACKET_TYPE,
};
use crate::wire::{
    le_u16, le_u32, lemma_read_written_u16, lemma_read_written_u32, spec_le_u16, spec_le_u32,
    u16_written_at, u32_written_at,
};

verus! {

/// Offset of the payload in a frame.
pub const PAYLOAD_OFFSET: usize = 12;

/// Number of range and intensity slots in a point-cloud payload.
pub const POINT_SLOTS: usize = 300;

/// Offset of the ranges in a point-cloud payload.
pub const RANGES_OFFSET: usize = 120;

/// Offset of the intensities in a point-cloud payload.
pub const INTENSITIES_OFFSET: usize = 720;

/// Length a point-cloud payload needs for its ranges and intensities.
pub const POINT_PAYLOAD_LEN: usize = 1020;

/// Length an IMU payload needs.
pub const IMU_PAYLOAD_LEN: usize = 56;

/// One scan as the lidar sends it, before the geometric transform: the
/// calibration and timing of the scan, and the raw range and intensity of
/// each of its points.
pub struct PointPacket {
    pub a_axis_dist: u32,
    pub b_axis_dist: u32,
    pub theta_angle_bias: u32,
    pub alpha_angle_bias: u32,
    pub beta_angle: u32,
    pub xi_angle: u32,
    pub range_bias: u32,
    pub range_scale: u32,
    pub com_horizontal_angle_start: u32,
    pub com_horizontal_angle_step: u32,
    pub scan_period: u32,
    pub range_min: u32,
    pub range_max: u32,
    pub angle_min: u32,
    pub angle_increment: u32,
    pub time_increment: u32,
    /// The raw range of each point, in order; as many as the scan claims, at
    /// most `POINT_SLOTS`.
    pub ranges: Vec<u16>,
    /// The intensity of each point, in the order of `ranges`.
    pub intensities: Vec<u8>,
}

/// The `u32` at offset `off` of the payload of `frame`.
pub open spec fn payload_u32(frame: Seq<u8>, off: int) -> u32 {
    spec_le_u32(frame, 12 + off) as u32
}

/// The number of points a point-cloud payload carries: its count field,
/// capped at `POINT_SLOTS`.
pub open spec fn spec_point_count(frame: Seq<u8>) -> int {
    if payload_u32(frame, 116) < 300 {
        payload_u32(frame, 116) as int
    } else {
        300
    }
}

/// Whether `p` holds what the point-cloud payload of `frame` says.
pub open spec fn point_packet_of(p: PointPacket, frame: Seq<u8>) -> bool {
    &&& p.a_axis_dist == payload_u32(frame, 52)
    &&& p.b_axis_dist == payload_u32(frame, 56)
    &&& p.theta_angle_bias == payload_u32(frame, 60)
    &&& p.alpha_angle_bias == payload_u32(frame, 64)
    &&& p.beta_angle == payload_u32(frame, 68)
    &&& p.xi_angle == payload_u32(frame, 72)
    &&& p.range_bias == payload_u32(frame, 76)
    &&& p.range_scale == payload_u32(frame, 80)
    &&& p.com_horizontal_angle_start == payload_u32(frame, 84)
    &&& p.com_horizontal_angle_step == payload_u32(frame, 88)
    &&& p.scan_period == payload_u32(frame, 92)
    &&& p.range_min == payload_u32(frame, 96)
    &&& p.range_max == payload_u32(frame, 100)
    &&& p.angle_min == payload_u32(frame, 104)
    &&& p.angle_increment == payload_u32(frame, 108)
    &&& p.time_increment == payload_u32(frame, 112)
    &&& p.ranges@.len() == spec_point_count(frame)
    &&& p.intensities@.len() == spec_point_count(frame)
    &&& forall|j: int|
        0 <= j < spec_point_count(frame) ==> #[trigger] p.ranges@[j] == spec_le_u16(
            frame,
            12 + 120 + 2 * j,
        )
    &&& forall|j: int|
        0 <= j < spec_point_count(frame) ==> #[trigger] p.intensities@[j] == frame[12 + 720 + j]
}

/// Whether a frame is long enough to carry a whole point-cloud payload.
pub open spec fn has_point_payload(frame: Seq<u8>) -> bool {
    frame.len() >= 12 + 1020
}

/// Reads the point-cloud payload of `frame`: `None` when the frame has no
/// payload or too short a one to hold all range and intensity slots.
///
/// A frame with a payload shorter than the calibration block (12 to 131
/// bytes long) is not accepted: its calibration cannot be read.
pub fn parse_point_packet(frame: &[u8]) -> (r: Option<PointPacket>)
    requires
        frame@.len() < 12 || frame@.len() >= 132,
    ensures
        r is Some <==> has_point_payload(frame@),
        r matches Some(p) ==> point_packet_of(p, frame@),
{
    if frame.len() < PAYLOAD_OFFSET {
        return None;
    }
    let b: usize = PAYLOAD_OFFSET;
    let a_axis_dist = le_u32(frame, b + 52);
    let b_axis_dist = le_u32(frame, b + 56);
    let theta_angle_bias = le_u32(frame, b + 60);
    let alpha_angle_bias = le_u32(frame, b + 64);
    let beta_angle = le_u32(frame, b + 68);
    let xi_angle = le_u32(frame, b + 72);
    let range_bias = le_u32(frame, b + 76);
    let range_scale = le_u32(frame, b + 80);
    let com_horizontal_angle_start = le_u32(frame, b + 84);
    let com_horizontal_angle_step = le_u32(frame, b + 88);
    let scan_period = le_u32(frame, b + 92);
    let range_min = le_u32(frame, b + 96);
    let range_max = le_u32(frame, b + 100);
    let angle_min = le_u32(frame, b + 104);
    let angle_increment = le_u32(frame, b + 108);
    let time_increment = le_u32(frame, b + 112);
    let count = le_u32(frame, b + 116);
    let point_num: usize = if count < 300 {
        count as usize
    } else {
        POINT_SLOTS
    };
    if frame.len() - b < POINT_PAYLOAD_LEN {
        return None;
    }
    let mut ranges: Vec<u16> = Vec::new();
    let mut intensities: Vec<u8> = Vec::new();
    let mut j: usize = 0;
    while j < point_num
        invariant
            frame@.len() >= 12 + 1020,
            point_num == spec_point_count(frame@),
            point_num <= 300,
            j <= point_num,
            ranges@.len() == j,
            intensities@.len() == j,
            forall|k: int| 0 <= k < j ==> #[trigger] ranges@[k] == spec_le_u16(frame@, 12 + 120 + 2 * k),
            forall|k: int| 0 <= k < j ==> #[trigger] intensities@[k] == frame@[12 + 720 + k],
        decreases point_num - j,
    {
        ranges.push(le_u16(frame, PAYLOAD_OFFSET + RANGES_OFFSET + j * 2));
        intensities.push(frame[PAYLOAD_OFFSET + INTENSITIES_OFFSET + j]);
        j += 1;
    }
    Some(
        PointPacket {
            a_axis_dist,
            b_axis_dist,
            theta_angle_bias,
            alpha_angle_bias,
            beta_angle,
            xi_angle,
            range_bias,
            range_scale,
            com_horizontal_angle_start,
            com_horizontal_angle_step,
            scan_period,
            range_min,
            range_max,
            angle_min,
            angle_increment,
            time_increment,
            ranges,
            intensities,
        },
    )
}

/// One IMU sample as the lidar sends it.
pub struct ImuSample {
    pub seq: u32,
    pub payload_size: u32,
    pub stamp_sec: u32,
    pub stamp_nsec: u32,
    /// Orientation quaternion, as `f32` bit patterns.
    pub quaternion: [u32; 4],
    /// Angular velocity, as `f32` bit patterns.
    pub angular_velocity: [u32; 3],
    /// Linear acceleration, as `f32` bit patterns.
    pub linear_acceleration: [u32; 3],
}

/// Whether `s` holds what the IMU payload of `frame` says.
pub open spec fn imu_sample_of(s: ImuSample, frame: Seq<u8>) -> bool {
    &&& s.seq == payload_u32(frame, 0)
    &&& s.payload_size == payload_u32(frame, 4)
    &&& s.stamp_sec == payload_u32(frame, 8)
    &&& s.stamp_nsec == payload_u32(frame, 12)
    &&& s.quaternion@ == seq![
        payload_u32(frame, 16),
        payload_u32(frame, 20),
        payload_u32(frame, 24),
        payload_u32(frame, 28),
    ]
    &&& s.angular_velocity@ == seq![
        payload_u32(frame, 32),
        payload_u32(frame, 36),
        payload_u32(frame, 40),
    ]
    &&& s.linear_acceleration@ == seq![
        payload_u32(frame, 44),
        payload_u32(frame, 48),
        payload_u32(frame, 52),
    ]
}

/// Whether a frame is long enough to carry an IMU payload.
pub open spec fn has_imu_payload(frame: Seq<u8>) -> bool {
    frame.len() >= 12 + 56
}

/// Reads the IMU payload of `frame`: `None` when it is too short.
pub fn parse_imu_sample(frame: &[u8]) -> (r: Option<ImuSample>)
    ensures
        r is Some <==> has_imu_payload(frame@),
        r matches Some(s) ==> imu_sample_of(s, frame@),
{
    if frame.len() < PAYLOAD_OFFSET || frame.len() - PAYLOAD_OFFSET < IMU_PAYLOAD_LEN {
        return None;
    }
    let b: usize = PAYLOAD_OFFSET;
    let quaternion = [
        le_u32(frame, b + 16),
        le_u32(frame, b + 20),
        le_u32(frame, b + 24),
        le_u32(frame, b + 28),
    ];
    let angular_velocity = [le_u32(frame, b + 32), le_u32(frame, b + 36), le_u32(frame, b + 40)];
    let linear_acceleration = [
        le_u32(frame, b + 44),
        le_u32(frame, b + 48),
        le_u32(frame, b + 52),
    ];
    let s = ImuSample {
        seq: le_u32(frame, b),
        payload_size: le_u32(frame, b + 4),
        stamp_sec: le_u32(frame, b + 8),
        stamp_nsec: le_u32(frame, b + 12),
        quaternion,
        angular_velocity,
        linear_acceleration,
    };
    assert(s.quaternion@ =~= seq![
        payload_u32(frame@, 16),
        payload_u32(frame@, 20),
        payload_u32(frame@, 24),
        payload_u32(frame@, 28),
    ]);
    assert(s.angular_velocity@ =~= seq![
        payload_u32(frame@, 32),
        payload_u32(frame@, 36),
        payload_u32(frame@, 40),
    ]);
    assert(s.linear_acceleration@ =~= seq![
        payload_u32(frame@, 44),
        payload_u32(frame@, 48),
        payload_u32(frame@, 52),
    ]);
    Some(s)
}

/// What a frame carries, as the direct serial reader sees it.
pub struct DecodedFrame {
    /// How the frame's packet type is classified.
    pub packet: DirectSerialPacket,
    /// The scan, for a point-cloud frame that carries a whole one.
    pub point_packet: Option<PointPacket>,
    /// The sample, for an IMU frame that carries a whole one.
    pub imu_sample: Option<ImuSample>,
}

/// Whether a frame can be decoded: it has a packet type, and if it is a
/// point-cloud frame with a payload, the payload holds the calibration block.
pub open spec fn decodable_frame(frame: Seq<u8>) -> bool {
    &&& frame.len() >= 8
    &&& spec_le_u32(frame, 4) == 102 ==> frame.len() < 12 || frame.len() >= 132
}

/// Decodes a frame: classifies its packet type, reads the scan of a
/// point-cloud frame and the sample of an IMU frame, and nothing else.
pub fn decode_frame(frame: &[u8]) -> (r: DecodedFrame)
    requires
        decodable_frame(frame@),
    ensures
        r.packet == spec_classify_packet_type(spec_le_u32(frame@, 4) as u32),
        r.point_packet is Some <==> (r.packet == DirectSerialPacket::PointData && has_point_payload(
            frame@,
        )),
        r.point_packet matches Some(p) ==> point_packet_of(p, frame@),
        r.imu_sample is Some <==> (r.packet == DirectSerialPacket::Other(
            LIDAR_IMU_DATA_PACKET_TYPE,
        ) && has_imu_payload(frame@)),
        r.imu_sample matches Some(s) ==> imu_sample_of(s, frame@),
{
    let code = le_u32(frame, 4);
    let packet = classify_packet_type(code);
    let point_packet = if code == LIDAR_POINT_DATA_PACKET_TYPE {
        parse_point_packet(frame)
    } else {
        None
    };
    let imu_sample = if code == LIDAR_IMU_DATA_PACKET_TYPE {
        parse_imu_sample(frame)
    } else {
        None
    };
    DecodedFrame { packet, point_packet, imu_sample }
}

/// Each field of a parsed scan is the value written at its own place in the
/// frame (payload offset plus 12): the calibration block from frame byte 64
/// on, the ranges as `u16`s from byte 132, the intensities from byte 732.
/// A value written at one place is read into its field and no other place.
pub proof fn lemma_point_packet_reads_fields(p: PointPacket, frame: Seq<u8>, x: u32, j: int, y: u16)
    requires
        point_packet_of(p, frame),
        has_point_payload(frame),
    ensures
        u32_written_at(frame, 64, x) ==> p.a_axis_dist == x,
        u32_written_at(frame, 68, x) ==> p.b_axis_dist == x,
        u32_written_at(frame, 72, x) ==> p.theta_angle_bias == x,
        u32_written_at(frame, 76, x) ==> p.alpha_angle_bias == x,
        u32_written_at(frame, 80, x) ==> p.beta_angle == x,
        u32_written_at(frame, 84, x) ==> p.xi_angle == x,
        u32_written_at(frame, 88, x) ==> p.range_bias == x,
        u32_written_at(frame, 92, x) ==> p.range_scale == x,
        u32_written_at(frame, 96, x) ==> p.com_horizontal_angle_start == x,
        u32_written_at(frame, 100, x) ==> p.com_horizontal_angle_step == x,
        u32_written_at(frame, 104, x) ==> p.scan_period == x,
        u32_written_at(frame, 108, x) ==> p.range_min == x,
        u32_written_at(frame, 112, x) ==> p.range_max == x,
        u32_written_at(frame, 116, x) ==> p.angle_min == x,
        u32_written_at(frame, 120, x) ==> p.angle_increment == x,
        u32_written_at(frame, 124, x) ==> p.time_increment == x,
        u32_written_at(frame, 128, x) ==> p.ranges@.len() == (if x < 300 {
            x as int
        } else {
            300
        }) && p.intensities@.len() == p.ranges@.len(),
        0 <= j < p.ranges@.len() && u16_written_at(frame, 132 + 2 * j, y) ==> p.ranges@[j] == y,
        0 <= j < p.intensities@.len() ==> p.intensities@[j] == frame[732 + j],
{
    if u32_written_at(frame, 64, x) { lemma_read_written_u32(frame, 64, x); }
    if u32_written_at(frame, 68, x) { lemma_read_written_u32(frame, 68, x); }
    if u32_written_at(frame, 72, x) { lemma_read_written_u32(frame, 72, x); }
    if u32_written_at(frame, 76, x) { lemma_read_written_u32(frame, 76, x); }
    if u32_written_at(frame, 80, x) { lemma_read_written_u32(frame, 80, x); }
    if u32_written_at(frame, 84, x) { lemma_read_written_u32(frame, 84, x); }
    if u32_written_at(frame, 88, x) { lemma_read_written_u32(frame, 88, x); }
    if u32_written_at(frame, 92, x) { lemma_read_written_u32(frame, 92, x); }
    if u32_written_at(frame, 96, x) { lemma_read_written_u32(frame, 96, x); }
    if u32_written_at(frame, 100, x) { lemma_read_written_u32(frame, 100, x); }
    if u32_written_at(frame, 104, x) { lemma_read_written_u32(frame, 104, x); }
    if u32_written_at(frame, 108, x) { lemma_read_written_u32(frame, 108, x); }
    if u32_written_at(frame, 112, x) { lemma_read_written_u32(frame, 112, x); }
    if u32_written_at(frame, 116, x) { lemma_read_written_u32(frame, 116, x); }
    if u32_written_at(frame, 120, x) { lemma_read_written_u32(frame, 120, x); }
    if u32_written_at(frame, 124, x) { lemma_read_written_u32(frame, 124, x); }
    if u32_written_at(frame, 128, x) { lemma_read_written_u32(frame, 128, x); }
    if 0 <= j < p.ranges@.len() && u16_written_at(frame, 132 + 2 * j, y) {
        lemma_read_written_u16(frame, 132 + 2 * j, y);
        assert(p.ranges@[j] == spec_le_u16(frame, 12 + 120 + 2 * j));
    }
    if 0 <= j < p.intensities@.len() {
        assert(p.intensities@[j] == frame[12 + 720 + j]);
    }
}

/// Each field of a parsed IMU sample is the value written at its own place
/// in the frame (payload offset plus 12): sequence at 12, payload size at 16,
/// seconds at 20, nanoseconds at 24, quaternion components at 28 + 4k,
/// angular velocity components at 44 + 4k, linear acceleration components
/// at 56 + 4k.
pub proof fn lemma_imu_sample_reads_fields(s: ImuSample, frame: Seq<u8>, x: u32, k: int)
    requires
        imu_sample_of(s, frame),
        has_imu_payload(frame),
    ensures
        u32_written_at(frame, 12, x) ==> s.seq == x,
        u32_written_at(frame, 16, x) ==> s.payload_size == x,
        u32_written_at(frame, 20, x) ==> s.stamp_sec == x,
        u32_written_at(frame, 24, x) ==> s.stamp_nsec == x,
        0 <= k < 4 && u32_written_at(frame, 28 + 4 * k, x) ==> s.quaternion@[k] == x,
        0 <= k < 3 && u32_written_at(frame, 44 + 4 * k, x) ==> s.angular_velocity@[k] == x,
        0 <= k < 3 && u32_written_at(frame, 56 + 4 * k, x) ==> s.linear_acceleration@[k] == x,
{
    if u32_written_at(frame, 12, x) { lemma_read_written_u32(frame, 12, x); }
    if u32_written_at(frame, 16, x) { lemma_read_written_u32(frame, 16, x); }
    if u32_written_at(frame, 20, x) { lemma_read_written_u32(frame, 20, x); }
    if u32_written_at(frame, 24, x) { lemma_read_written_u32(frame, 24, x); }
    if 0 <= k < 4 && u32_written_at(frame, 28 + 4 * k, x) {
        lemma_read_written_u32(frame, 28 + 4 * k, x);
    }
    if 0 <= k < 3 && u32_written_at(frame, 44 + 4 * k, x) {
        lemma_read_written_u32(frame, 44 + 4 * k, x);
    }
    if 0 <= k < 3 && u32_written_at(frame, 56 + 4 * k, x) {
        lemma_read_written_u32(frame, 56 + 4 * k, x);
    }
}

} // verus!
