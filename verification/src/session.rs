//! The decisions of a lidar session: which path a command takes, what a
//! direct serial read leaves for the caller, and how UDP streaming starts.
//!
//! A session either reads the lidar through the vendor SDK or through the
//! direct serial reader. In direct mode the latest point cloud and IMU
//! sample of the last read are held until the caller takes them.

use vstd::prelude::*;

use crate::packet::{
    lemma_direct_agrees_with_sdk, spec_classify_packet_type, spec_packet_of_direct, spec_sdk_packet,
    DirectSerialPacket, LidarPacket,
};

verus! {

/// Where control commands (reset, rotation, work mode, timestamp sync) go.
#[derive(Debug, Clone, Copy, PartialEq, Eq, Structural)]
pub enum Backend {
    /// Through the vendor SDK.
    Sdk,
    /// As command frames over the session's own serial device.
    DirectSerial,
}

/// The state of a session, with the cloud type `C` and the IMU type `I`
/// that its caller uses.
pub struct LidarSession<C, I> {
    direct: bool,
    cloud: Option<C>,
    imu: Option<I>,
}

/// The packet kind a direct read reports.
pub open spec fn spec_direct_read_packet(packet: Option<DirectSerialPacket>) -> LidarPacket {
    match packet {
        Some(p) => spec_packet_of_direct(p),
        None => LidarPacket::NoPacket,
    }
}

impl<C, I> LidarSession<C, I> {
    /// Whether the direct serial reader is in use.
    pub closed spec fn is_direct(self) -> bool {
        self.direct
    }

    /// The point cloud of the last direct read, not yet taken.
    pub closed spec fn pending_cloud(self) -> Option<C> {
        self.cloud
    }

    /// The IMU sample of the last direct read, not yet taken.
    pub closed spec fn pending_imu(self) -> Option<I> {
        self.imu
    }

    /// A session that reads through the SDK and holds nothing.
    pub fn new() -> (r: Self)
        ensures
            !r.is_direct(),
            r.pending_cloud() is None,
            r.pending_imu() is None,
    {
        LidarSession { direct: false, cloud: None, imu: None }
    }

    /// The direct serial reader has been opened: reads and commands go
    /// through it from now on, and nothing is held yet.
    pub fn open_direct(&mut self)
        ensures
            final(self).is_direct(),
            final(self).pending_cloud() is None,
            final(self).pending_imu() is None,
    {
        *self = LidarSession { direct: true, cloud: None, imu: None };
    }

    /// The serial connection is closed: the direct reader is dropped along
    /// with whatever it held.
    pub fn close(&mut self)
        ensures
            !final(self).is_direct(),
            final(self).pending_cloud() is None,
            final(self).pending_imu() is None,
    {
        *self = LidarSession { direct: false, cloud: None, imu: None };
    }

    /// Whether reads go through the direct serial reader.
    pub fn reads_direct(&self) -> (r: bool)
        ensures
            r == self.is_direct(),
    {
        self.direct
    }

    /// Where control commands go.
    pub fn command_backend(&self) -> (r: Backend)
        ensures
            r == (if self.is_direct() {
                Backend::DirectSerial
            } else {
                Backend::Sdk
            }),
    {
        if self.direct {
            Backend::DirectSerial
        } else {
            Backend::Sdk
        }
    }

    /// The session after a successful direct read.
    pub closed spec fn after_direct_read(self, cloud: Option<C>, imu: Option<I>) -> Self {
        LidarSession { direct: self.direct, cloud, imu }
    }

    /// The session after a failed direct read.
    pub closed spec fn after_direct_failure(self) -> Self {
        LidarSession { direct: self.direct, cloud: None, imu: None }
    }

    /// The session after its cloud has been taken.
    pub closed spec fn after_take_cloud(self) -> Self {
        LidarSession { direct: self.direct, cloud: None, imu: self.imu }
    }

    /// The session after its IMU sample has been taken.
    pub closed spec fn after_take_imu(self) -> Self {
        LidarSession { direct: self.direct, cloud: self.cloud, imu: None }
    }

    /// Records a successful direct read: its cloud and sample replace those
    /// held before, and the packet kind it reports is returned.
    pub fn record_direct_read(
        &mut self,
        packet: Option<DirectSerialPacket>,
        cloud: Option<C>,
        imu: Option<I>,
    ) -> (r: LidarPacket)
        requires
            old(self).is_direct(),
        ensures
            *final(self) == old(self).after_direct_read(cloud, imu),
            final(self).is_direct() == old(self).is_direct(),
            final(self).pending_cloud() == cloud,
            final(self).pending_imu() == imu,
            r == spec_direct_read_packet(packet),
            packet is None ==> r == LidarPacket::NoPacket,
            forall|c: u32|
                packet == Some(#[trigger] spec_classify_packet_type(c)) && spec_sdk_packet(
                    c as int,
                ) is Some ==> r == spec_sdk_packet(c as int)->0,
    {
        proof {
            assert forall|c: u32|
                packet == Some(#[trigger] spec_classify_packet_type(c)) && spec_sdk_packet(
                    c as int,
                ) is Some implies spec_direct_read_packet(packet) == spec_sdk_packet(
                c as int,
            )->0 by {
                lemma_direct_read_kind_matches_sdk(c);
            }
        }
        self.cloud = cloud;
        self.imu = imu;
        match packet {
            Some(p) => LidarPacket::from(p),
            None => LidarPacket::NoPacket,
        }
    }

    /// Records a failed direct read: nothing is held any more, and the read
    /// reports no packet so that the caller can retry.
    pub fn record_direct_failure(&mut self) -> (r: LidarPacket)
        requires
            old(self).is_direct(),
        ensures
            *final(self) == old(self).after_direct_failure(),
            final(self).is_direct() == old(self).is_direct(),
            final(self).pending_cloud() is None,
            final(self).pending_imu() is None,
            r == LidarPacket::NoPacket,
    {
        self.cloud = None;
        self.imu = None;
        LidarPacket::NoPacket
    }

    /// Takes the held point cloud, leaving none.
    pub fn take_cloud(&mut self) -> (r: Option<C>)
        requires
            old(self).is_direct(),
        ensures
            r == old(self).pending_cloud(),
            *final(self) == old(self).after_take_cloud(),
            final(self).is_direct() == old(self).is_direct(),
            final(self).pending_cloud() is None,
            final(self).pending_imu() == old(self).pending_imu(),
    {
        let r = self.cloud.take();
        r
    }

    /// Takes the held IMU sample, leaving none.
    pub fn take_imu(&mut self) -> (r: Option<I>)
        requires
            old(self).is_direct(),
        ensures
            r == old(self).pending_imu(),
            *final(self) == old(self).after_take_imu(),
            final(self).is_direct() == old(self).is_direct(),
            final(self).pending_imu() is None,
            final(self).pending_cloud() == old(self).pending_cloud(),
    {
        let r = self.imu.take();
        r
    }
}

/// What each step does to a session, in any state: no step changes the
/// path; a read replaces what is held, a failure drops it, and each take
/// empties only what it takes.
pub proof fn lemma_session_steps<C, I>(s: LidarSession<C, I>, cloud: Option<C>, imu: Option<I>)
    ensures
        s.after_direct_read(cloud, imu).is_direct() == s.is_direct(),
        s.after_direct_read(cloud, imu).pending_cloud() == cloud,
        s.after_direct_read(cloud, imu).pending_imu() == imu,
        s.after_direct_failure().is_direct() == s.is_direct(),
        s.after_direct_failure().pending_cloud() is None,
        s.after_direct_failure().pending_imu() is None,
        s.after_take_cloud().is_direct() == s.is_direct(),
        s.after_take_cloud().pending_cloud() is None,
        s.after_take_cloud().pending_imu() == s.pending_imu(),
        s.after_take_imu().is_direct() == s.is_direct(),
        s.after_take_imu().pending_imu() is None,
        s.after_take_imu().pending_cloud() == s.pending_cloud(),
{
}

/// A direct read of a frame with packet type `code` reports the packet kind
/// that the SDK names for `code`, for every code the SDK accepts (for
/// example `101` is an acknowledgement, `2001` parameter data).
pub proof fn lemma_direct_read_kind_matches_sdk(code: u32)
    requires
        spec_sdk_packet(code as int) is Some,
    ensures
        spec_direct_read_packet(Some(spec_classify_packet_type(code))) == spec_sdk_packet(
            code as int,
        )->0,
{
    lemma_direct_agrees_with_sdk(code);
}

/// The cloud of a direct read is handed out exactly once: the first take
/// returns it, a second take returns nothing, and taking the IMU sample in
/// between does not disturb it.
pub proof fn lemma_cloud_handed_out_once<C, I>(
    s: LidarSession<C, I>,
    cloud: Option<C>,
    imu: Option<I>,
)
    ensures
        s.after_direct_read(cloud, imu).is_direct() == s.is_direct(),
        s.after_direct_read(cloud, imu).pending_cloud() == cloud,
        s.after_direct_read(cloud, imu).after_take_imu().pending_cloud() == cloud,
        s.after_direct_read(cloud, imu).after_take_cloud().pending_cloud() is None,
        s.after_direct_read(cloud, imu).after_take_cloud().pending_imu() == imu,
{
}

/// The IMU sample of a direct read is handed out exactly once.
pub proof fn lemma_imu_handed_out_once<C, I>(s: LidarSession<C, I>, cloud: Option<C>, imu: Option<I>)
    ensures
        s.after_direct_read(cloud, imu).pending_imu() == imu,
        s.after_direct_read(cloud, imu).after_take_imu().pending_imu() is None,
        s.after_direct_read(cloud, imu).after_take_imu().is_direct() == s.is_direct(),
        s.after_direct_read(cloud, imu).after_take_cloud().is_direct() == s.is_direct(),
{
}

/// After a failed read nothing from an earlier read can be taken, and the
/// session keeps its path.
pub proof fn lemma_failure_leaves_nothing_stale<C, I>(s: LidarSession<C, I>)
    ensures
        s.after_direct_failure().pending_cloud() is None,
        s.after_direct_failure().pending_imu() is None,
        s.after_direct_failure().is_direct() == s.is_direct(),
{
}

/// One step of starting UDP streaming.
#[derive(Debug, Clone, Copy, PartialEq, Eq, Structural)]
pub enum StartupStep {
    /// Start the lidar's rotation.
    StartRotation,
    /// Set the lidar's work mode.
    SetWorkMode(u32),
    /// Reset the lidar.
    ResetLidar,
    /// Wait this many seconds.
    WaitSeconds(u64),
}

/// Work mode that the lidar streams point clouds in over UDP.
pub const UDP_WORK_MODE: u32 = 0;

/// The steps that start UDP streaming, as the vendor's example does.
pub open spec fn spec_udp_streaming_startup() -> Seq<StartupStep> {
    seq![
        StartupStep::StartRotation,
        StartupStep::WaitSeconds(1),
        StartupStep::SetWorkMode(UDP_WORK_MODE),
        StartupStep::WaitSeconds(1),
        StartupStep::ResetLidar,
        StartupStep::WaitSeconds(2),
        StartupStep::StartRotation,
        StartupStep::WaitSeconds(3),
    ]
}

/// The steps that start UDP streaming once the connection is up: start
/// rotation, set work mode `0`, reset, then start rotation again, with a
/// pause after each.
pub fn udp_streaming_startup() -> (r: Vec<StartupStep>)
    ensures
        r@ == spec_udp_streaming_startup(),
{
    let r = vec![
        StartupStep::StartRotation,
        StartupStep::WaitSeconds(1),
        StartupStep::SetWorkMode(UDP_WORK_MODE),
        StartupStep::WaitSeconds(1),
        StartupStep::ResetLidar,
        StartupStep::WaitSeconds(2),
        StartupStep::StartRotation,
        StartupStep::WaitSeconds(3),
    ];
    assert(r@ =~= spec_udp_streaming_startup());
    r
}

} // verus!
