//! Frames of the lidar's serial protocol: finding them in a stream of bytes,
//! and building the command frames that are sent to the lidar.
//!
//! A frame is the header `55 aa 05 0a`, the packet type (`u32`, little
//! endian), the frame size (`u32`, little endian, header included), and the
//! rest of the frame.

use vstd::prelude::*;

use crate::crc::{crc32, spec_crc32};
use crate::packet::{
    LIDAR_IP_ADDRESS_CONFIG_PACKET_TYPE, LIDAR_TIME_STAMP_PACKET_TYPE, LIDAR_USER_CMD_PACKET_TYPE,
};
use crate::wire::{
    lemma_le_u16_round_trip, lemma_le_u32_round_trip, le_u32, push_le_u16, push_le_u32, spec_le_u16, spec_le_u32, spec_u16_le_bytes, spec_u32_le_bytes,
};

verus! {

/// Largest frame size that the reader accepts.
pub const MAX_FRAME_SIZE: usize = 6000;

/// Smallest frame size that the reader accepts.
pub const MIN_FRAME_SIZE: usize = 24;

/// Packet type of the work-mode command.
pub const LIDAR_WORK_MODE_COMMAND_PACKET_TYPE: u32 = 2002;

/// User command: reset the lidar.
pub const USER_CMD_RESET_TYPE: u32 = 1;

/// User command: standby (with a start or stop value).
pub const USER_CMD_STANDBY_TYPE: u32 = 2;

/// Standby value that starts rotation.
pub const USER_CMD_STANDBY_START: u32 = 0;

/// Standby value that stops rotation.
pub const USER_CMD_STANDBY_STOP: u32 = 1;

/// The four bytes that open every frame.
pub open spec fn spec_frame_header() -> Seq<u8> {
    seq![0x55u8, 0xaau8, 0x05u8, 0x0au8]
}

/// Whether a frame header starts at `i` in `s`.
pub open spec fn header_at(s: Seq<u8>, i: int) -> bool {
    &&& 0 <= i
    &&& i + 4 <= s.len()
    &&& s[i] == 0x55u8
    &&& s[i + 1] == 0xaau8
    &&& s[i + 2] == 0x05u8
    &&& s[i + 3] == 0x0au8
}

/// The first position at or after `i` where a header starts.
pub open spec fn header_search(s: Seq<u8>, i: int) -> Option<int>
    decreases s.len() - i,
{
    if i < 0 || i + 4 > s.len() {
        None
    } else if header_at(s, i) {
        Some(i)
    } else {
        header_search(s, i + 1)
    }
}

/// What a header search finds: the first header at or after `i`, or, when
/// it finds none, that no header starts at or after `i`.
pub proof fn lemma_header_search(s: Seq<u8>, i: int)
    requires
        0 <= i,
    ensures
        match header_search(s, i) {
            Some(p) => i <= p && header_at(s, p) && forall|j: int|
                i <= j < p ==> !#[trigger] header_at(s, j),
            None => forall|j: int| i <= j ==> !#[trigger] header_at(s, j),
        },
    decreases s.len() - i,
{
    if i + 4 > s.len() {
    } else if header_at(s, i) {
    } else {
        lemma_header_search(s, i + 1);
    }
}

/// The first position in `s` where a header starts.
pub open spec fn spec_first_header(s: Seq<u8>) -> Option<int> {
    header_search(s, 0)
}

/// What one step of frame extraction does to the buffered bytes `s`: the
/// bytes left buffered, and the frame taken out, if a whole one was there.
///
/// Bytes before the first header are dropped (all bytes stay when there is
/// no header at all); a header whose size field lies outside
/// `MIN_FRAME_SIZE..=MAX_FRAME_SIZE` is dropped; a frame that has not
/// fully arrived stays buffered.
pub open spec fn spec_next_frame(s: Seq<u8>) -> (Seq<u8>, Option<Seq<u8>>) {
    match spec_first_header(s) {
        None => (s, None),
        Some(p) => {
            let t = s.skip(p);
            if t.len() < 12 {
                (t, None)
            } else {
                let size = spec_le_u32(t, 8);
                if size < 24 || size > 6000 {
                    (t.skip(4), None)
                } else if t.len() < size {
                    (t, None)
                } else {
                    (t.skip(size), Some(t.take(size)))
                }
            }
        },
    }
}

/// A frame as the reader hands it out: a header, then a size field in range
/// that equals the frame's length.
pub open spec fn spec_well_formed_frame(f: Seq<u8>) -> bool {
    &&& header_at(f, 0)
    &&& 24 <= f.len() <= 6000
    &&& spec_le_u32(f, 8) == f.len()
}

/// The view of an optional byte vector.
pub open spec fn option_bytes(o: Option<Vec<u8>>) -> Option<Seq<u8>> {
    match o {
        Some(v) => Some(v@),
        None => None,
    }
}

/// Finds the first position where a frame header starts.
pub fn find_header(buf: &[u8]) -> (r: Option<usize>)
    ensures
        match r {
            Some(p) => spec_first_header(buf@) == Some(p as int),
            None => spec_first_header(buf@) is None,
        },
{
    let len = buf.len();
    let mut i: usize = 0;
    while i < len && len - i >= 4
        invariant
            len == buf@.len(),
            i <= len,
            header_search(buf@, 0) == header_search(buf@, i as int),
        decreases len - i,
    {
        if buf[i] == 0x55 && buf[i + 1] == 0xaa && buf[i + 2] == 0x05 && buf[i + 3] == 0x0a {
            return Some(i);
        }
        i += 1;
    }
    None
}

/// Removes the first `n` bytes of `buf` and returns them.
fn take_front(buf: &mut Vec<u8>, n: usize) -> (front: Vec<u8>)
    requires
        n <= old(buf)@.len(),
    ensures
        front@ == old(buf)@.take(n as int),
        final(buf)@ == old(buf)@.skip(n as int),
{
    let mut rest = buf.split_off(n);
    std::mem::swap(buf, &mut rest);
    rest
}

/// Takes the next whole frame out of the buffered bytes, resynchronising on
/// the frame header: see `spec_next_frame`.
pub fn next_frame(buf: &mut Vec<u8>) -> (r: Option<Vec<u8>>)
    ensures
        (final(buf)@, option_bytes(r)) == spec_next_frame(old(buf)@),
{
    proof {
        lemma_header_search(buf@, 0);
    }
    let header_pos = match find_header(buf.as_slice()) {
        Some(p) => p,
        None => return None,
    };
    if header_pos > 0 {
        let _ = take_front(buf, header_pos);
    }
    if buf.len() < 12 {
        return None;
    }
    let size = le_u32(buf.as_slice(), 8) as usize;
    if size < MIN_FRAME_SIZE || size > MAX_FRAME_SIZE {
        let _ = take_front(buf, 4);
        return None;
    }
    if buf.len() < size {
        return None;
    }
    Some(take_front(buf, size))
}

/// Reads the packet type of a frame.
pub fn packet_type(frame: &[u8]) -> (r: u32)
    requires
        frame@.len() >= 8,
    ensures
        r == spec_le_u32(frame@, 4),
{
    le_u32(frame, 4)
}

/// A byte stream cut into frames.
pub struct FrameReader {
    buf: Vec<u8>,
}

impl View for FrameReader {
    type V = Seq<u8>;

    /// The bytes received and not yet taken out as frames or dropped.
    closed spec fn view(&self) -> Seq<u8> {
        self.buf@
    }
}

impl FrameReader {
    /// A reader with nothing buffered.
    pub fn new() -> (r: Self)
        ensures
            r@ == Seq::<u8>::empty(),
    {
        FrameReader { buf: Vec::new() }
    }

    /// Takes the next whole frame out of what is buffered.
    pub fn next_frame(&mut self) -> (r: Option<Vec<u8>>)
        ensures
            (final(self)@, option_bytes(r)) == spec_next_frame(old(self)@),
    {
        next_frame(&mut self.buf)
    }

    /// Buffers the bytes of `chunk` behind those already there, then takes
    /// the next whole frame out.
    pub fn receive(&mut self, chunk: &[u8]) -> (r: Option<Vec<u8>>)
        ensures
            (final(self)@, option_bytes(r)) == spec_next_frame(old(self)@ + chunk@),
    {
        let ghost before = self.buf@;
        self.buf.extend_from_slice(chunk);
        assert(self.buf@ =~= before + chunk@);
        next_frame(&mut self.buf)
    }
}

/// The bytes of a command frame that carries `data` as packet `packet_type`:
/// header, type, size, data, the CRC-32 of data, six zero bytes, then `00 ff`.
pub open spec fn spec_command_frame(packet_type: u32, data: Seq<u8>) -> Seq<u8> {
    spec_frame_header() + spec_u32_le_bytes(packet_type) + spec_u32_le_bytes(
        (data.len() + 24) as u32,
    ) + data + spec_u32_le_bytes(spec_crc32(data)) + seq![0u8, 0u8, 0u8, 0u8, 0u8, 0u8, 0u8, 0xffu8]
}

/// Builds the command frame that carries `data` as packet `packet_type`.
fn command_frame(packet_type: u32, data: &[u8]) -> (r: Vec<u8>)
    requires
        data@.len() <= MAX_FRAME_SIZE - MIN_FRAME_SIZE,
    ensures
        r@ == spec_command_frame(packet_type, data@),
{
    let crc = crc32(data);
    let mut frame: Vec<u8> = Vec::new();
    frame.push(0x55);
    frame.push(0xaa);
    frame.push(0x05);
    frame.push(0x0a);
    push_le_u32(&mut frame, packet_type);
    push_le_u32(&mut frame, (data.len() + 24) as u32);
    let ghost before = frame@;
    frame.extend_from_slice(data);
    assert(frame@ =~= before + data@);
    push_le_u32(&mut frame, crc);
    let mut k: usize = 0;
    while k < 7
        invariant
            k <= 7,
            frame@ == spec_frame_header() + spec_u32_le_bytes(packet_type) + spec_u32_le_bytes(
                (data@.len() + 24) as u32,
            ) + data@ + spec_u32_le_bytes(spec_crc32(data@)) + Seq::new(k as nat, |i: int| 0u8),
        decreases 7 - k,
    {
        let ghost prev = frame@;
        frame.push(0);
        assert(frame@ =~= spec_frame_header() + spec_u32_le_bytes(packet_type)
            + spec_u32_le_bytes((data@.len() + 24) as u32) + data@ + spec_u32_le_bytes(
            spec_crc32(data@),
        ) + Seq::new((k + 1) as nat, |i: int| 0u8));
        k += 1;
    }
    frame.push(0xff);
    assert(frame@ =~= spec_command_frame(packet_type, data@));
    frame
}

/// The payload of a work-mode command: the low 22 bits of the mode.
pub open spec fn spec_work_mode_payload(mode: u32) -> Seq<u8> {
    spec_u32_le_bytes(mode & 0x003f_ffffu32)
}

/// Builds the frame that sets the lidar's work mode (only the low 22 bits of
/// `mode` are sent).
pub fn work_mode_command_frame(mode: u32) -> (r: Vec<u8>)
    ensures
        r@ == spec_command_frame(LIDAR_WORK_MODE_COMMAND_PACKET_TYPE, spec_work_mode_payload(mode)),
        r@.len() == 28,
        spec_le_u32(r@, 4) == LIDAR_WORK_MODE_COMMAND_PACKET_TYPE,
        spec_le_u32(r@, 12) == mode & 0x003f_ffffu32,
        spec_le_u32(r@, 16) == spec_crc32(r@.subrange(12, 16)),
{
    proof {
        lemma_work_mode_frame_fields(mode);
    }
    let mut data: Vec<u8> = Vec::new();
    push_le_u32(&mut data, mode & 0x003f_ffff);
    assert(data@ =~= spec_work_mode_payload(mode));
    command_frame(LIDAR_WORK_MODE_COMMAND_PACKET_TYPE, data.as_slice())
}

/// The payload of a user control command.
pub open spec fn spec_user_control_payload(cmd_type: u32, cmd_value: u32) -> Seq<u8> {
    spec_u32_le_bytes(cmd_type) + spec_u32_le_bytes(cmd_value)
}

/// Builds a user control command frame (reset, standby start, standby stop).
pub fn user_control_command_frame(cmd_type: u32, cmd_value: u32) -> (r: Vec<u8>)
    ensures
        r@ == spec_command_frame(
            LIDAR_USER_CMD_PACKET_TYPE,
            spec_user_control_payload(cmd_type, cmd_value),
        ),
        r@.len() == 32,
        spec_le_u32(r@, 4) == LIDAR_USER_CMD_PACKET_TYPE,
        spec_le_u32(r@, 12) == cmd_type,
        spec_le_u32(r@, 16) == cmd_value,
        spec_le_u32(r@, 20) == spec_crc32(r@.subrange(12, 20)),
{
    proof {
        lemma_user_control_frame_fields(cmd_type, cmd_value);
    }
    let mut data: Vec<u8> = Vec::new();
    push_le_u32(&mut data, cmd_type);
    push_le_u32(&mut data, cmd_value);
    assert(data@ =~= spec_user_control_payload(cmd_type, cmd_value));
    command_frame(LIDAR_USER_CMD_PACKET_TYPE, data.as_slice())
}

/// The payload of a time-stamp command: seconds, then nanoseconds.
pub open spec fn spec_timestamp_payload(sec: u32, nsec: u32) -> Seq<u8> {
    spec_u32_le_bytes(sec) + spec_u32_le_bytes(nsec)
}

/// Builds a frame meant to set the lidar's clock to `sec` seconds and `nsec`
/// nanoseconds. The layout (packet type 106 carrying seconds then
/// nanoseconds, in the common command frame) is an assumption: no
/// documentation here describes the lidar's time-stamp command.
pub fn timestamp_command_frame(sec: u32, nsec: u32) -> (r: Vec<u8>)
    ensures
        r@ == spec_command_frame(LIDAR_TIME_STAMP_PACKET_TYPE, spec_timestamp_payload(sec, nsec)),
        r@.len() == 32,
        spec_le_u32(r@, 4) == LIDAR_TIME_STAMP_PACKET_TYPE,
        spec_le_u32(r@, 12) == sec,
        spec_le_u32(r@, 16) == nsec,
        spec_le_u32(r@, 20) == spec_crc32(r@.subrange(12, 20)),
{
    proof {
        lemma_timestamp_frame_fields(sec, nsec);
    }
    let mut data: Vec<u8> = Vec::new();
    push_le_u32(&mut data, sec);
    push_le_u32(&mut data, nsec);
    assert(data@ =~= spec_timestamp_payload(sec, nsec));
    command_frame(LIDAR_TIME_STAMP_PACKET_TYPE, data.as_slice())
}

/// The payload of a network configuration command: lidar address, host
/// address, gateway `0.0.0.0`, mask `255.255.255.0`, lidar port, host port.
pub open spec fn spec_udp_config_payload(
    lidar_ip: Seq<u8>,
    local_ip: Seq<u8>,
    lidar_port: u16,
    local_port: u16,
) -> Seq<u8> {
    lidar_ip + local_ip + seq![0u8, 0u8, 0u8, 0u8] + seq![255u8, 255u8, 255u8, 0u8]
        + spec_u16_le_bytes(lidar_port) + spec_u16_le_bytes(local_port)
}

/// Builds the frame that sets the lidar's network configuration.
pub fn encode_udp_config_frame(
    lidar_ip: [u8; 4],
    local_ip: [u8; 4],
    lidar_port: u16,
    local_port: u16,
) -> (r: Vec<u8>)
    ensures
        r@ == spec_command_frame(
            LIDAR_IP_ADDRESS_CONFIG_PACKET_TYPE,
            spec_udp_config_payload(lidar_ip@, local_ip@, lidar_port, local_port),
        ),
        r@.len() == 44,
        spec_le_u32(r@, 4) == LIDAR_IP_ADDRESS_CONFIG_PACKET_TYPE,
        r@.subrange(12, 16) == lidar_ip@,
        r@.subrange(16, 20) == local_ip@,
        r@.subrange(20, 24) == seq![0u8, 0u8, 0u8, 0u8],
        r@.subrange(24, 28) == seq![255u8, 255u8, 255u8, 0u8],
        spec_le_u16(r@, 28) == lidar_port,
        spec_le_u16(r@, 30) == local_port,
        spec_le_u32(r@, 32) == spec_crc32(r@.subrange(12, 32)),
{
    proof {
        lemma_udp_config_frame_fields(lidar_ip@, local_ip@, lidar_port, local_port);
    }
    let mut data: Vec<u8> = Vec::new();
    data.push(lidar_ip[0]);
    data.push(lidar_ip[1]);
    data.push(lidar_ip[2]);
    data.push(lidar_ip[3]);
    data.push(local_ip[0]);
    data.push(local_ip[1]);
    data.push(local_ip[2]);
    data.push(local_ip[3]);
    data.push(0);
    data.push(0);
    data.push(0);
    data.push(0);
    data.push(255);
    data.push(255);
    data.push(255);
    data.push(0);
    push_le_u16(&mut data, lidar_port);
    push_le_u16(&mut data, local_port);
    assert(data@ =~= spec_udp_config_payload(lidar_ip@, local_ip@, lidar_port, local_port));
    command_frame(LIDAR_IP_ADDRESS_CONFIG_PACKET_TYPE, data.as_slice())
}

/// The search from `i` finds `q` when a header starts at `q` and none starts
/// between `i` and `q`.
pub proof fn lemma_header_search_first(s: Seq<u8>, i: int, q: int)
    requires
        0 <= i <= q,
        header_at(s, q),
        forall|j: int| i <= j < q ==> !#[trigger] header_at(s, j),
    ensures
        header_search(s, i) == Some(q),
    decreases q - i,
{
    if i < q {
        assert(!header_at(s, i));
        lemma_header_search_first(s, i + 1, q);
    }
}

/// Reading a little-endian `u32` inside `s` reads the same four bytes as
/// reading it from their subrange.
proof fn lemma_le_u32_subrange(s: Seq<u8>, off: int)
    requires
        0 <= off,
        off + 4 <= s.len(),
    ensures
        spec_le_u32(s, off) == spec_le_u32(s.subrange(off, off + 4), 0),
{
}

/// A well-formed frame at the front of the buffer is taken out whole, and
/// exactly the bytes behind it stay buffered.
pub proof fn lemma_well_formed_frame_is_taken(f: Seq<u8>, rest: Seq<u8>)
    requires
        spec_well_formed_frame(f),
    ensures
        spec_next_frame(f + rest) == (rest, Some(f)),
{
    let s = f + rest;
    assert(header_at(s, 0));
    lemma_header_search_first(s, 0, 0);
    assert(s.skip(0) =~= s);
    assert(spec_le_u32(s, 8) == spec_le_u32(f, 8));
    assert(s.skip(f.len() as int) =~= rest);
    assert(s.take(f.len() as int) =~= f);
}

/// Until all of a frame's bytes have arrived, nothing is taken out and all
/// bytes stay buffered.
pub proof fn lemma_partial_frame_waits(f: Seq<u8>, k: int)
    requires
        spec_well_formed_frame(f),
        0 <= k < f.len(),
    ensures
        spec_next_frame(f.take(k)) == (f.take(k), None::<Seq<u8>>),
{
    let s = f.take(k);
    if k < 4 {
        lemma_header_search(s, 0);
    } else {
        assert(header_at(s, 0));
        lemma_header_search_first(s, 0, 0);
        assert(s.skip(0) =~= s);
        if k >= 12 {
            assert(spec_le_u32(s, 8) == spec_le_u32(f, 8));
        }
    }
}

/// A frame whose bytes arrive in two reads is held back after the first and
/// delivered whole after the second, with what followed it still buffered.
pub proof fn lemma_frame_split_across_reads(f: Seq<u8>, k: int, rest: Seq<u8>)
    requires
        spec_well_formed_frame(f),
        0 <= k < f.len(),
    ensures
        spec_next_frame(f.take(k)) == (f.take(k), None::<Seq<u8>>),
        spec_next_frame(f.take(k) + (f.skip(k) + rest)) == (rest, Some(f)),
{
    lemma_partial_frame_waits(f, k);
    assert(f.take(k) + (f.skip(k) + rest) =~= f + rest);
    lemma_well_formed_frame_is_taken(f, rest);
}

/// Bytes in front of a frame header that start no header themselves are
/// discarded: extraction goes on as if they had never arrived.
pub proof fn lemma_garbage_before_header_is_skipped(junk: Seq<u8>, g: Seq<u8>)
    requires
        forall|i: int| 0 <= i < junk.len() ==> !#[trigger] header_at(junk + g, i),
        spec_first_header(g) is Some,
    ensures
        spec_next_frame(junk + g) == spec_next_frame(g),
{
    let s = junk + g;
    let p = spec_first_header(g)->0;
    lemma_header_search(g, 0);
    let n = junk.len() as int;
    assert forall|j: int| 0 <= j < n + p implies !#[trigger] header_at(s, j) by {
        if j >= n {
            assert(!header_at(g, j - n));
            if header_at(s, j) {
                assert(header_at(g, j - n));
            }
        }
    }
    assert(header_at(g, p));
    assert(header_at(s, n + p));
    lemma_header_search_first(s, 0, n + p);
    assert(s.skip(n + p) =~= g.skip(p));
}

/// One extraction step never reorders or invents bytes: what stays buffered
/// is the tail of what was buffered, a frame taken out sits right in front
/// of it, and every frame taken out is well formed.
pub proof fn lemma_next_frame_consumes_in_order(s: Seq<u8>)
    ensures
        ({
            let (r, f) = spec_next_frame(s);
            &&& r.len() <= s.len()
            &&& r =~= s.skip(s.len() - r.len())
            &&& f matches Some(fr) ==> {
                &&& spec_well_formed_frame(fr)
                &&& fr.len() + r.len() <= s.len()
                &&& fr + r =~= s.skip(s.len() - r.len() - fr.len())
            }
        }),
{
    lemma_header_search(s, 0);
    match spec_first_header(s) {
        None => {},
        Some(p) => {
            let t = s.skip(p);
            if t.len() >= 12 {
                let size = spec_le_u32(t, 8);
                if 24 <= size <= 6000 && t.len() >= size {
                    assert(header_at(t, 0));
                    assert(spec_le_u32(t.take(size), 8) == spec_le_u32(t, 8));
                }
            }
        },
    }
}

/// Facts about the bytes of a command frame: its length, its packet type,
/// that it is well formed, and where its payload and the payload's CRC-32
/// stand.
pub proof fn lemma_command_frame_layout(packet_type: u32, data: Seq<u8>)
    requires
        data.len() <= 5976,
    ensures
        ({
            let f = spec_command_frame(packet_type, data);
            let n = data.len() as int;
            &&& f.len() == n + 24
            &&& spec_well_formed_frame(f)
            &&& spec_le_u32(f, 4) == packet_type
            &&& f.subrange(12, 12 + n) =~= data
            &&& spec_le_u32(f, 12 + n) == spec_crc32(data)
            &&& f[n + 23] == 0xffu8
        }),
{
    let f = spec_command_frame(packet_type, data);
    let n = data.len() as int;
    lemma_le_u32_round_trip(packet_type);
    lemma_le_u32_round_trip((n + 24) as u32);
    lemma_le_u32_round_trip(spec_crc32(data));
    lemma_le_u32_subrange(f, 4);
    lemma_le_u32_subrange(f, 8);
    lemma_le_u32_subrange(f, 12 + n);
    assert(f.subrange(4, 8) =~= spec_u32_le_bytes(packet_type));
    assert(f.subrange(8, 12) =~= spec_u32_le_bytes((n + 24) as u32));
    assert(f.subrange(12 + n, 16 + n) =~= spec_u32_le_bytes(spec_crc32(data)));
}

/// A command frame sent to the lidar is exactly what the frame reader takes
/// back out of a stream that starts with it: the same bytes, with the same
/// packet type, and the bytes behind it left buffered.
pub proof fn lemma_command_frame_read_back(packet_type: u32, data: Seq<u8>, rest: Seq<u8>)
    requires
        data.len() <= 5976,
    ensures
        spec_next_frame(spec_command_frame(packet_type, data) + rest) == (
            rest,
            Some(spec_command_frame(packet_type, data)),
        ),
        spec_le_u32(spec_command_frame(packet_type, data), 4) == packet_type,
{
    lemma_command_frame_layout(packet_type, data);
    lemma_well_formed_frame_is_taken(spec_command_frame(packet_type, data), rest);
}

/// A `u32` written into the payload of a command frame reads back from the
/// frame at the payload's offset (12) plus its own.
pub proof fn lemma_command_frame_payload_u32(packet_type: u32, data: Seq<u8>, k: int, x: u32)
    requires
        data.len() <= 5976,
        0 <= k,
        k + 4 <= data.len(),
        data.subrange(k, k + 4) == spec_u32_le_bytes(x),
    ensures
        spec_le_u32(spec_command_frame(packet_type, data), 12 + k) == x,
{
    let f = spec_command_frame(packet_type, data);
    lemma_command_frame_layout(packet_type, data);
    lemma_le_u32_round_trip(x);
    assert(f.subrange(12, 12 + data.len() as int) =~= data);
    assert(f[12 + k] == data[k]);
    assert(f[12 + k + 1] == data[k + 1]);
    assert(f[12 + k + 2] == data[k + 2]);
    assert(f[12 + k + 3] == data[k + 3]);
    assert(data[k] == data.subrange(k, k + 4)[0]);
    assert(data[k + 1] == data.subrange(k, k + 4)[1]);
    assert(data[k + 2] == data.subrange(k, k + 4)[2]);
    assert(data[k + 3] == data.subrange(k, k + 4)[3]);
}

/// A `u16` written into the payload of a command frame reads back from the
/// frame at the payload's offset (12) plus its own.
pub proof fn lemma_command_frame_payload_u16(packet_type: u32, data: Seq<u8>, k: int, x: u16)
    requires
        data.len() <= 5976,
        0 <= k,
        k + 2 <= data.len(),
        data.subrange(k, k + 2) == spec_u16_le_bytes(x),
    ensures
        spec_le_u16(spec_command_frame(packet_type, data), 12 + k) == x,
{
    let f = spec_command_frame(packet_type, data);
    lemma_command_frame_layout(packet_type, data);
    lemma_le_u16_round_trip(x);
    assert(f.subrange(12, 12 + data.len() as int) =~= data);
    assert(f[12 + k] == data[k]);
    assert(f[12 + k + 1] == data[k + 1]);
    assert(data[k] == data.subrange(k, k + 2)[0]);
    assert(data[k + 1] == data.subrange(k, k + 2)[1]);
}

/// A user control frame carries its command type at byte 12 and its command
/// value at byte 16, both little endian, then the CRC-32 of those eight
/// bytes: frames for different commands or values differ.
pub proof fn lemma_user_control_frame_fields(cmd_type: u32, cmd_value: u32)
    ensures
        ({
            let f = spec_command_frame(
                LIDAR_USER_CMD_PACKET_TYPE,
                spec_user_control_payload(cmd_type, cmd_value),
            );
            &&& f.len() == 32
            &&& spec_le_u32(f, 4) == LIDAR_USER_CMD_PACKET_TYPE
            &&& spec_le_u32(f, 12) == cmd_type
            &&& spec_le_u32(f, 16) == cmd_value
            &&& spec_le_u32(f, 20) == spec_crc32(f.subrange(12, 20))
        }),
{
    let d = spec_user_control_payload(cmd_type, cmd_value);
    assert(d.subrange(0, 4) =~= spec_u32_le_bytes(cmd_type));
    assert(d.subrange(4, 8) =~= spec_u32_le_bytes(cmd_value));
    lemma_command_frame_payload_u32(LIDAR_USER_CMD_PACKET_TYPE, d, 0, cmd_type);
    lemma_command_frame_payload_u32(LIDAR_USER_CMD_PACKET_TYPE, d, 4, cmd_value);
    lemma_command_frame_layout(LIDAR_USER_CMD_PACKET_TYPE, d);
}

/// A work-mode frame carries the low 22 bits of the mode at byte 12, then
/// the CRC-32 of those four bytes.
pub proof fn lemma_work_mode_frame_fields(mode: u32)
    ensures
        ({
            let f = spec_command_frame(
                LIDAR_WORK_MODE_COMMAND_PACKET_TYPE,
                spec_work_mode_payload(mode),
            );
            &&& f.len() == 28
            &&& spec_le_u32(f, 4) == LIDAR_WORK_MODE_COMMAND_PACKET_TYPE
            &&& spec_le_u32(f, 12) == mode & 0x003f_ffffu32
            &&& spec_le_u32(f, 16) == spec_crc32(f.subrange(12, 16))
        }),
{
    let d = spec_work_mode_payload(mode);
    assert(d.subrange(0, 4) =~= spec_u32_le_bytes(mode & 0x003f_ffffu32));
    lemma_command_frame_payload_u32(LIDAR_WORK_MODE_COMMAND_PACKET_TYPE, d, 0, mode & 0x003f_ffffu32);
    lemma_command_frame_layout(LIDAR_WORK_MODE_COMMAND_PACKET_TYPE, d);
}

/// A time-stamp frame carries the seconds at byte 12 and the nanoseconds at
/// byte 16, then the CRC-32 of those eight bytes.
pub proof fn lemma_timestamp_frame_fields(sec: u32, nsec: u32)
    ensures
        ({
            let f = spec_command_frame(LIDAR_TIME_STAMP_PACKET_TYPE, spec_timestamp_payload(sec, nsec));
            &&& f.len() == 32
            &&& spec_le_u32(f, 4) == LIDAR_TIME_STAMP_PACKET_TYPE
            &&& spec_le_u32(f, 12) == sec
            &&& spec_le_u32(f, 16) == nsec
            &&& spec_le_u32(f, 20) == spec_crc32(f.subrange(12, 20))
        }),
{
    let d = spec_timestamp_payload(sec, nsec);
    assert(d.subrange(0, 4) =~= spec_u32_le_bytes(sec));
    assert(d.subrange(4, 8) =~= spec_u32_le_bytes(nsec));
    lemma_command_frame_payload_u32(LIDAR_TIME_STAMP_PACKET_TYPE, d, 0, sec);
    lemma_command_frame_payload_u32(LIDAR_TIME_STAMP_PACKET_TYPE, d, 4, nsec);
    lemma_command_frame_layout(LIDAR_TIME_STAMP_PACKET_TYPE, d);
}

/// A network configuration frame carries the lidar's address at bytes
/// 12..16, the host's at 16..20, gateway `0.0.0.0`, mask `255.255.255.0`,
/// the lidar's port at byte 28 and the host's at byte 30, then the CRC-32 of
/// those twenty bytes.
pub proof fn lemma_udp_config_frame_fields(
    lidar_ip: Seq<u8>,
    local_ip: Seq<u8>,
    lidar_port: u16,
    local_port: u16,
)
    requires
        lidar_ip.len() == 4,
        local_ip.len() == 4,
    ensures
        ({
            let f = spec_command_frame(
                LIDAR_IP_ADDRESS_CONFIG_PACKET_TYPE,
                spec_udp_config_payload(lidar_ip, local_ip, lidar_port, local_port),
            );
            &&& f.len() == 44
            &&& spec_le_u32(f, 4) == LIDAR_IP_ADDRESS_CONFIG_PACKET_TYPE
            &&& f.subrange(12, 16) == lidar_ip
            &&& f.subrange(16, 20) == local_ip
            &&& f.subrange(20, 24) == seq![0u8, 0u8, 0u8, 0u8]
            &&& f.subrange(24, 28) == seq![255u8, 255u8, 255u8, 0u8]
            &&& spec_le_u16(f, 28) == lidar_port
            &&& spec_le_u16(f, 30) == local_port
            &&& spec_le_u32(f, 32) == spec_crc32(f.subrange(12, 32))
        }),
{
    let d = spec_udp_config_payload(lidar_ip, local_ip, lidar_port, local_port);
    let f = spec_command_frame(LIDAR_IP_ADDRESS_CONFIG_PACKET_TYPE, d);
    assert(d.subrange(16, 18) =~= spec_u16_le_bytes(lidar_port));
    assert(d.subrange(18, 20) =~= spec_u16_le_bytes(local_port));
    lemma_command_frame_payload_u16(LIDAR_IP_ADDRESS_CONFIG_PACKET_TYPE, d, 16, lidar_port);
    lemma_command_frame_payload_u16(LIDAR_IP_ADDRESS_CONFIG_PACKET_TYPE, d, 18, local_port);
    lemma_command_frame_layout(LIDAR_IP_ADDRESS_CONFIG_PACKET_TYPE, d);
    assert(f.subrange(12, 32) =~= d);
    assert(f.subrange(12, 16) =~= lidar_ip);
    assert(f.subrange(16, 20) =~= local_ip);
    assert(f.subrange(20, 24) =~= seq![0u8, 0u8, 0u8, 0u8]);
    assert(f.subrange(24, 28) =~= seq![255u8, 255u8, 255u8, 0u8]);
}

} // verus!
