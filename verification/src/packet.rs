//! Packet kinds of the lidar protocol, how the SDK's packet codes and the
//! direct serial reader's classification map onto them, and a tally of them.

use vstd::prelude::*;
use vstd::string::*;

use crate::text::{decimal, digits_value, is_ascii_digit, lemma_decimal_digits, spec_decimal};

verus! {

pub const LIDAR_USER_CMD_PACKET_TYPE: u32 = 100;
pub const LIDAR_ACK_DATA_PACKET_TYPE: u32 = 101;
pub const LIDAR_POINT_DATA_PACKET_TYPE: u32 = 102;
pub const LIDAR_2D_POINT_DATA_PACKET_TYPE: u32 = 103;
pub const LIDAR_IMU_DATA_PACKET_TYPE: u32 = 104;
pub const LIDAR_VERSION_PACKET_TYPE: u32 = 105;
pub const LIDAR_TIME_STAMP_PACKET_TYPE: u32 = 106;
pub const LIDAR_WORK_MODE_CONFIG_PACKET_TYPE: u32 = 107;
pub const LIDAR_IP_ADDRESS_CONFIG_PACKET_TYPE: u32 = 108;
pub const LIDAR_MAC_ADDRESS_CONFIG_PACKET_TYPE: u32 = 109;
pub const LIDAR_PARAM_DATA_PACKET_TYPE: u32 = 2001;

/// A representation of all the possible packets received from the lidar.
#[derive(Debug, PartialEq, Eq, Structural)]
pub enum LidarPacket {
    /// Presumably corresponds to a command from the user.
    UserCmd,
    /// Sent by the lidar when it receives a command from the user.
    AckData,
    /// A 3D point-cloud packet (packet type 102), emitted in the default 3D work mode.
    PointData,
    /// A 2D point-cloud packet (packet type 103), emitted only in 2D mode.
    PointData2D,
    /// Received data from the IMU.
    ImuData,
    /// The lidar version.
    LidarVersion,
    /// A timestamp packet.
    TimeStamp,
    /// Possibly sent when the lidar work mode changes.
    WorkModeConfig,
    /// Presumably sent when the ip address changes.
    IpAddressConfig,
    /// Presumably sent when the mac address changes.
    MacAddressConfig,
    /// Parameter data.
    ParamData,
    /// Nothing new: the SDK reports code `0`, and the direct reader reports
    /// packet types it does not know.
    NoPacket,
}

/// The packet kind of a documented packet type code, `None` for any other code.
pub open spec fn spec_documented_packet(code: int) -> Option<LidarPacket> {
    if code == 100 {
        Some(LidarPacket::UserCmd)
    } else if code == 101 {
        Some(LidarPacket::AckData)
    } else if code == 102 {
        Some(LidarPacket::PointData)
    } else if code == 103 {
        Some(LidarPacket::PointData2D)
    } else if code == 104 {
        Some(LidarPacket::ImuData)
    } else if code == 105 {
        Some(LidarPacket::LidarVersion)
    } else if code == 106 {
        Some(LidarPacket::TimeStamp)
    } else if code == 107 {
        Some(LidarPacket::WorkModeConfig)
    } else if code == 108 {
        Some(LidarPacket::IpAddressConfig)
    } else if code == 109 {
        Some(LidarPacket::MacAddressConfig)
    } else if code == 2001 {
        Some(LidarPacket::ParamData)
    } else {
        None
    }
}

/// What the SDK's `runParse` code means: `0` is no packet, a documented code is
/// its packet, any other code is one the SDK is not expected to return.
pub open spec fn spec_sdk_packet(code: int) -> Option<LidarPacket> {
    if code == 0 {
        Some(LidarPacket::NoPacket)
    } else {
        spec_documented_packet(code)
    }
}

/// Maps the code returned by the SDK's `runParse` to the packet it announces;
/// `None` for a code that the SDK does not document.
pub fn packet_from_sdk_code(code: i32) -> (r: Option<LidarPacket>)
    ensures
        r == spec_sdk_packet(code as int),
{
    match code {
        0 => Some(LidarPacket::NoPacket),
        100 => Some(LidarPacket::UserCmd),
        101 => Some(LidarPacket::AckData),
        102 => Some(LidarPacket::PointData),
        103 => Some(LidarPacket::PointData2D),
        104 => Some(LidarPacket::ImuData),
        105 => Some(LidarPacket::LidarVersion),
        106 => Some(LidarPacket::TimeStamp),
        107 => Some(LidarPacket::WorkModeConfig),
        108 => Some(LidarPacket::IpAddressConfig),
        109 => Some(LidarPacket::MacAddressConfig),
        2001 => Some(LidarPacket::ParamData),
        _ => None,
    }
}

/// How the direct serial reader classifies a frame by its packet type.
#[derive(Debug, Clone, Copy, PartialEq, Eq, Structural)]
pub enum DirectSerialPacket {
    PointData,
    PointData2D,
    Other(u32),
}

/// The classification of a packet type code.
pub open spec fn spec_classify_packet_type(code: u32) -> DirectSerialPacket {
    if code == LIDAR_POINT_DATA_PACKET_TYPE {
        DirectSerialPacket::PointData
    } else if code == LIDAR_2D_POINT_DATA_PACKET_TYPE {
        DirectSerialPacket::PointData2D
    } else {
        DirectSerialPacket::Other(code)
    }
}

/// Classifies a packet type code: the two point-cloud types get their own
/// variant, every other code is kept as it is.
pub fn classify_packet_type(code: u32) -> (r: DirectSerialPacket)
    ensures
        r == spec_classify_packet_type(code),
{
    if code == LIDAR_POINT_DATA_PACKET_TYPE {
        DirectSerialPacket::PointData
    } else if code == LIDAR_2D_POINT_DATA_PACKET_TYPE {
        DirectSerialPacket::PointData2D
    } else {
        DirectSerialPacket::Other(code)
    }
}

/// The packet kind that a direct serial classification reports: point data as
/// itself, a documented code carried in `Other` as its packet, anything else
/// (including the point-cloud codes carried in `Other`) as no packet.
pub open spec fn spec_packet_of_direct(p: DirectSerialPacket) -> LidarPacket {
    match p {
        DirectSerialPacket::PointData => LidarPacket::PointData,
        DirectSerialPacket::PointData2D => LidarPacket::PointData2D,
        DirectSerialPacket::Other(code) => {
            if code != 102 && code != 103 && spec_documented_packet(code as int) is Some {
                spec_documented_packet(code as int)->0
            } else {
                LidarPacket::NoPacket
            }
        },
    }
}

impl From<DirectSerialPacket> for LidarPacket {
    fn from(packet: DirectSerialPacket) -> (r: Self) {
        match packet {
            DirectSerialPacket::PointData => LidarPacket::PointData,
            DirectSerialPacket::PointData2D => LidarPacket::PointData2D,
            DirectSerialPacket::Other(code) => {
                if code == LIDAR_USER_CMD_PACKET_TYPE {
                    LidarPacket::UserCmd
                } else if code == LIDAR_ACK_DATA_PACKET_TYPE {
                    LidarPacket::AckData
                } else if code == LIDAR_IMU_DATA_PACKET_TYPE {
                    LidarPacket::ImuData
                } else if code == LIDAR_VERSION_PACKET_TYPE {
                    LidarPacket::LidarVersion
                } else if code == LIDAR_TIME_STAMP_PACKET_TYPE {
                    LidarPacket::TimeStamp
                } else if code == LIDAR_WORK_MODE_CONFIG_PACKET_TYPE {
                    LidarPacket::WorkModeConfig
                } else if code == LIDAR_IP_ADDRESS_CONFIG_PACKET_TYPE {
                    LidarPacket::IpAddressConfig
                } else if code == LIDAR_MAC_ADDRESS_CONFIG_PACKET_TYPE {
                    LidarPacket::MacAddressConfig
                } else if code == LIDAR_PARAM_DATA_PACKET_TYPE {
                    LidarPacket::ParamData
                } else {
                    LidarPacket::NoPacket
                }
            },
        }
    }
}

impl vstd::std_specs::convert::FromSpecImpl<DirectSerialPacket> for LidarPacket {
    open spec fn obeys_from_spec() -> bool {
        true
    }

    open spec fn from_spec(v: DirectSerialPacket) -> Self {
        spec_packet_of_direct(v)
    }
}

/// For every packet type code that the SDK path accepts, the direct serial
/// path reports the same packet kind: the two ways of reading the lidar agree.
pub proof fn lemma_direct_agrees_with_sdk(code: u32)
    requires
        spec_sdk_packet(code as int) is Some,
    ensures
        spec_packet_of_direct(spec_classify_packet_type(code)) == spec_sdk_packet(code as int)->0,
{
}

/// A code that no documentation names reaches the caller of the direct
/// reader as no packet.
pub proof fn lemma_direct_unknown_is_no_packet(code: u32)
    requires
        spec_documented_packet(code as int) is None,
    ensures
        spec_packet_of_direct(spec_classify_packet_type(code)) == LidarPacket::NoPacket,
{
}

/// Running totals of the packets seen, by kind.
#[derive(Debug, Clone, Copy, PartialEq, Eq, Structural)]
pub struct LidarPacketCounts {
    pub point_packets: u64,
    pub point_2d_packets: u64,
    pub imu_packets: u64,
    pub ack_packets: u64,
    pub param_packets: u64,
    pub no_packets: u64,
    pub other_packets: u64,
}

impl Default for LidarPacketCounts {
    fn default() -> (r: Self)
        ensures
            r == LidarPacketCounts::zero(),
    {
        LidarPacketCounts {
            point_packets: 0,
            point_2d_packets: 0,
            imu_packets: 0,
            ack_packets: 0,
            param_packets: 0,
            no_packets: 0,
            other_packets: 0,
        }
    }
}

impl LidarPacketCounts {
    /// All totals zero.
    pub open spec fn zero() -> Self {
        LidarPacketCounts {
            point_packets: 0,
            point_2d_packets: 0,
            imu_packets: 0,
            ack_packets: 0,
            param_packets: 0,
            no_packets: 0,
            other_packets: 0,
        }
    }

    /// The total that a packet of kind `p` counts towards.
    pub open spec fn total_for(self, p: LidarPacket) -> u64 {
        match p {
            LidarPacket::PointData => self.point_packets,
            LidarPacket::PointData2D => self.point_2d_packets,
            LidarPacket::ImuData => self.imu_packets,
            LidarPacket::AckData => self.ack_packets,
            LidarPacket::ParamData => self.param_packets,
            LidarPacket::NoPacket => self.no_packets,
            _ => self.other_packets,
        }
    }

    /// The totals after one more packet of kind `p`.
    pub open spec fn recorded(self, p: LidarPacket) -> Self {
        match p {
            LidarPacket::PointData => LidarPacketCounts {
                point_packets: (self.point_packets + 1) as u64,
                ..self
            },
            LidarPacket::PointData2D => LidarPacketCounts {
                point_2d_packets: (self.point_2d_packets + 1) as u64,
                ..self
            },
            LidarPacket::ImuData => LidarPacketCounts {
                imu_packets: (self.imu_packets + 1) as u64,
                ..self
            },
            LidarPacket::AckData => LidarPacketCounts {
                ack_packets: (self.ack_packets + 1) as u64,
                ..self
            },
            LidarPacket::ParamData => LidarPacketCounts {
                param_packets: (self.param_packets + 1) as u64,
                ..self
            },
            LidarPacket::NoPacket => LidarPacketCounts {
                no_packets: (self.no_packets + 1) as u64,
                ..self
            },
            _ => LidarPacketCounts { other_packets: (self.other_packets + 1) as u64, ..self },
        }
    }

    /// The sum of all totals.
    pub open spec fn sum(self) -> int {
        self.point_packets + self.point_2d_packets + self.imu_packets + self.ack_packets
            + self.param_packets + self.no_packets + self.other_packets
    }

    /// The total that `packet` counts towards.
    pub fn total_of(&self, packet: &LidarPacket) -> (r: u64)
        ensures
            r == self.total_for(*packet),
    {
        match packet {
            LidarPacket::PointData => self.point_packets,
            LidarPacket::PointData2D => self.point_2d_packets,
            LidarPacket::ImuData => self.imu_packets,
            LidarPacket::AckData => self.ack_packets,
            LidarPacket::ParamData => self.param_packets,
            LidarPacket::NoPacket => self.no_packets,
            _ => self.other_packets,
        }
    }

    /// Counts one more packet of the kind of `packet`.
    pub fn record(&mut self, packet: &LidarPacket)
        requires
            old(self).total_for(*packet) < u64::MAX,
        ensures
            *final(self) == old(self).recorded(*packet),
    {
        match packet {
            LidarPacket::PointData => self.point_packets += 1,
            LidarPacket::PointData2D => self.point_2d_packets += 1,
            LidarPacket::ImuData => self.imu_packets += 1,
            LidarPacket::AckData => self.ack_packets += 1,
            LidarPacket::ParamData => self.param_packets += 1,
            LidarPacket::NoPacket => self.no_packets += 1,
            _ => self.other_packets += 1,
        }
    }

    /// The one-line report of the totals.
    pub open spec fn spec_summary(self) -> Seq<char> {
        "point_packets="@ + spec_decimal(self.point_packets as nat) + " point_2d_packets="@
            + spec_decimal(self.point_2d_packets as nat) + " imu_packets="@ + spec_decimal(
            self.imu_packets as nat,
        ) + " ack_packets="@ + spec_decimal(self.ack_packets as nat) + " param_packets="@
            + spec_decimal(self.param_packets as nat) + " other_packets="@ + spec_decimal(
            self.other_packets as nat,
        ) + " no_packets="@ + spec_decimal(self.no_packets as nat)
    }

    /// Renders the totals as `point_packets=.. point_2d_packets=.. imu_packets=..
    /// ack_packets=.. param_packets=.. other_packets=.. no_packets=..`.
    pub fn summary(&self) -> (r: String)
        ensures
            r@ == self.spec_summary(),
    {
        let mut s = String::from_str("point_packets=");
        s.append(decimal(self.point_packets).as_str());
        s.append(" point_2d_packets=");
        s.append(decimal(self.point_2d_packets).as_str());
        s.append(" imu_packets=");
        s.append(decimal(self.imu_packets).as_str());
        s.append(" ack_packets=");
        s.append(decimal(self.ack_packets).as_str());
        s.append(" param_packets=");
        s.append(decimal(self.param_packets).as_str());
        s.append(" other_packets=");
        s.append(decimal(self.other_packets).as_str());
        s.append(" no_packets=");
        s.append(decimal(self.no_packets).as_str());
        s
    }
}

/// Recording a packet adds exactly one to the total of its kind and leaves
/// every other total as it was; the grand total grows by one.
pub proof fn lemma_record_counts_once(counts: LidarPacketCounts, p: LidarPacket, q: LidarPacket)
    requires
        counts.total_for(p) < u64::MAX,
    ensures
        counts.recorded(p).total_for(p) == counts.total_for(p) + 1,
        counts.recorded(p).sum() == counts.sum() + 1,
        spec_same_total(p, q) ==> counts.recorded(p).total_for(q) == counts.total_for(q) + 1,
        !spec_same_total(p, q) ==> counts.recorded(p).total_for(q) == counts.total_for(q),
{
}

/// Whether packets of kinds `p` and `q` count towards the same total.
pub open spec fn spec_same_total(p: LidarPacket, q: LidarPacket) -> bool {
    match (p, q) {
        (LidarPacket::PointData, LidarPacket::PointData) => true,
        (LidarPacket::PointData2D, LidarPacket::PointData2D) => true,
        (LidarPacket::ImuData, LidarPacket::ImuData) => true,
        (LidarPacket::AckData, LidarPacket::AckData) => true,
        (LidarPacket::ParamData, LidarPacket::ParamData) => true,
        (LidarPacket::NoPacket, LidarPacket::NoPacket) => true,
        (LidarPacket::PointData, _) => false,
        (LidarPacket::PointData2D, _) => false,
        (LidarPacket::ImuData, _) => false,
        (LidarPacket::AckData, _) => false,
        (LidarPacket::ParamData, _) => false,
        (LidarPacket::NoPacket, _) => false,
        (_, LidarPacket::PointData) => false,
        (_, LidarPacket::PointData2D) => false,
        (_, LidarPacket::ImuData) => false,
        (_, LidarPacket::AckData) => false,
        (_, LidarPacket::ParamData) => false,
        (_, LidarPacket::NoPacket) => false,
        _ => true,
    }
}

/// Whether `d` is the decimal text of `n`: one or more digits whose value
/// is `n`.
pub open spec fn is_decimal_of(d: Seq<char>, n: nat) -> bool {
    &&& d.len() > 0
    &&& forall|i: int| 0 <= i < d.len() ==> is_ascii_digit(#[trigger] d[i])
    &&& digits_value(d) == n
}

/// The report names each total and follows each name with the decimal text
/// of that same total: splitting it at its labels, the digits after
/// `imu_packets=` read back as the IMU total, those after `ack_packets=` as
/// the acknowledgement total, and so on for every label.
pub proof fn lemma_summary_reads_back(c: LidarPacketCounts)
    ensures
        exists|
            d0: Seq<char>,
            d1: Seq<char>,
            d2: Seq<char>,
            d3: Seq<char>,
            d4: Seq<char>,
            d5: Seq<char>,
            d6: Seq<char>,
        |
            #![trigger is_decimal_of(d0, c.point_packets as nat), is_decimal_of(d1, c.point_2d_packets as nat), is_decimal_of(d2, c.imu_packets as nat), is_decimal_of(d3, c.ack_packets as nat), is_decimal_of(d4, c.param_packets as nat), is_decimal_of(d5, c.other_packets as nat), is_decimal_of(d6, c.no_packets as nat)]
            {
                &&& c.spec_summary() == "point_packets="@ + d0 + " point_2d_packets="@ + d1
                    + " imu_packets="@ + d2 + " ack_packets="@ + d3 + " param_packets="@ + d4
                    + " other_packets="@ + d5 + " no_packets="@ + d6
                &&& is_decimal_of(d0, c.point_packets as nat)
                &&& is_decimal_of(d1, c.point_2d_packets as nat)
                &&& is_decimal_of(d2, c.imu_packets as nat)
                &&& is_decimal_of(d3, c.ack_packets as nat)
                &&& is_decimal_of(d4, c.param_packets as nat)
                &&& is_decimal_of(d5, c.other_packets as nat)
                &&& is_decimal_of(d6, c.no_packets as nat)
            },
{
    lemma_decimal_digits(c.point_packets as nat);
    lemma_decimal_digits(c.point_2d_packets as nat);
    lemma_decimal_digits(c.imu_packets as nat);
    lemma_decimal_digits(c.ack_packets as nat);
    lemma_decimal_digits(c.param_packets as nat);
    lemma_decimal_digits(c.other_packets as nat);
    lemma_decimal_digits(c.no_packets as nat);
    let d0 = spec_decimal(c.point_packets as nat);
    let d1 = spec_decimal(c.point_2d_packets as nat);
    let d2 = spec_decimal(c.imu_packets as nat);
    let d3 = spec_decimal(c.ack_packets as nat);
    let d4 = spec_decimal(c.param_packets as nat);
    let d5 = spec_decimal(c.other_packets as nat);
    let d6 = spec_decimal(c.no_packets as nat);
    assert(is_decimal_of(d0, c.point_packets as nat));
    assert(is_decimal_of(d1, c.point_2d_packets as nat));
    assert(is_decimal_of(d2, c.imu_packets as nat));
    assert(is_decimal_of(d3, c.ack_packets as nat));
    assert(is_decimal_of(d4, c.param_packets as nat));
    assert(is_decimal_of(d5, c.other_packets as nat));
    assert(is_decimal_of(d6, c.no_packets as nat));
}

/// Each named packet type code stands for the packet kind of the same name,
/// and the classification of a code keeps every code but the two point-cloud
/// ones unchanged.
pub proof fn lemma_packet_codes(code: u32)
    ensures
        spec_documented_packet(LIDAR_USER_CMD_PACKET_TYPE as int) == Some(LidarPacket::UserCmd),
        spec_documented_packet(LIDAR_ACK_DATA_PACKET_TYPE as int) == Some(LidarPacket::AckData),
        spec_documented_packet(LIDAR_POINT_DATA_PACKET_TYPE as int) == Some(LidarPacket::PointData),
        spec_documented_packet(LIDAR_2D_POINT_DATA_PACKET_TYPE as int) == Some(
            LidarPacket::PointData2D,
        ),
        spec_documented_packet(LIDAR_IMU_DATA_PACKET_TYPE as int) == Some(LidarPacket::ImuData),
        spec_documented_packet(LIDAR_VERSION_PACKET_TYPE as int) == Some(LidarPacket::LidarVersion),
        spec_documented_packet(LIDAR_TIME_STAMP_PACKET_TYPE as int) == Some(LidarPacket::TimeStamp),
        spec_documented_packet(LIDAR_WORK_MODE_CONFIG_PACKET_TYPE as int) == Some(
            LidarPacket::WorkModeConfig,
        ),
        spec_documented_packet(LIDAR_IP_ADDRESS_CONFIG_PACKET_TYPE as int) == Some(
            LidarPacket::IpAddressConfig,
        ),
        spec_documented_packet(LIDAR_MAC_ADDRESS_CONFIG_PACKET_TYPE as int) == Some(
            LidarPacket::MacAddressConfig,
        ),
        spec_documented_packet(LIDAR_PARAM_DATA_PACKET_TYPE as int) == Some(LidarPacket::ParamData),
        spec_sdk_packet(0) == Some(LidarPacket::NoPacket),
        spec_classify_packet_type(LIDAR_POINT_DATA_PACKET_TYPE) == DirectSerialPacket::PointData,
        spec_classify_packet_type(LIDAR_2D_POINT_DATA_PACKET_TYPE) == DirectSerialPacket::PointData2D,
        code != LIDAR_POINT_DATA_PACKET_TYPE && code != LIDAR_2D_POINT_DATA_PACKET_TYPE
            ==> spec_classify_packet_type(code) == DirectSerialPacket::Other(code),
{
}

/// Recording a packet adds one to the field named after its kind, and
/// kinds without a field of their own (user command, version, time stamp,
/// work mode, address configurations) all go to `other_packets`.
pub proof fn lemma_record_fields(c: LidarPacketCounts, p: LidarPacket)
    requires
        c.total_for(p) < u64::MAX,
    ensures
        p == LidarPacket::PointData ==> c.recorded(p).point_packets == c.point_packets + 1,
        p == LidarPacket::PointData2D ==> c.recorded(p).point_2d_packets == c.point_2d_packets + 1,
        p == LidarPacket::ImuData ==> c.recorded(p).imu_packets == c.imu_packets + 1,
        p == LidarPacket::AckData ==> c.recorded(p).ack_packets == c.ack_packets + 1,
        p == LidarPacket::ParamData ==> c.recorded(p).param_packets == c.param_packets + 1,
        p == LidarPacket::NoPacket ==> c.recorded(p).no_packets == c.no_packets + 1,
        (p == LidarPacket::UserCmd || p == LidarPacket::LidarVersion || p == LidarPacket::TimeStamp
            || p == LidarPacket::WorkModeConfig || p == LidarPacket::IpAddressConfig || p
            == LidarPacket::MacAddressConfig) ==> c.recorded(p).other_packets == c.other_packets
            + 1,
        c.recorded(p).point_packets + c.recorded(p).point_2d_packets + c.recorded(p).imu_packets
            + c.recorded(p).ack_packets + c.recorded(p).param_packets + c.recorded(p).no_packets
            + c.recorded(p).other_packets == c.point_packets + c.point_2d_packets + c.imu_packets
            + c.ack_packets + c.param_packets + c.no_packets + c.other_packets + 1,
{
}

} // verus!
