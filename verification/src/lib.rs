//! Verified core of a driver for the Unitree L2 lidar: the serial wire format
//! (frame resynchronisation, command frames, CRC-32, payload layouts), the
//! classification of packets, option handling, and the decisions of a lidar
//! session.

pub mod config;
pub mod crc;
pub mod error;
pub mod frame;
pub mod packet;
pub mod payload;
pub mod session;
pub mod text;
pub mod wire;

pub use crate::config::{
    arg_value, serial_baudrate, serial_port, stty_arguments, udp_config_command_frame,
    DEFAULT_BAUDRATE, DEFAULT_CLOUD_SCAN_NUM, DEFAULT_SERIAL_PORT, LIDAR_SERIAL_BY_ID,
};
pub use crate::crc::crc32;
pub use crate::error::{
    serial_initialization_outcome, udp_initialization_outcome, DirectSerialError,
    SerialInitializationError, UdpInitializationError,
};
pub use crate::frame::{
    next_frame, packet_type, user_control_command_frame, work_mode_command_frame, FrameReader,
};
pub use crate::packet::{
    classify_packet_type, packet_from_sdk_code, DirectSerialPacket, LidarPacket, LidarPacketCounts,
};
pub use crate::payload::{decode_frame, DecodedFrame, ImuSample, PointPacket};
pub use crate::session::{udp_streaming_startup, Backend, LidarSession, StartupStep};
pub use crate::wire::{le_u16, le_u32};
