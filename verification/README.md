# unilidar_sdk2_cxx

A driver for the Unitree L2 lidar, split in two:

- `src/` is the verified core, checked by Verus: the serial wire format
  (little-endian fields, CRC-32, frame resynchronisation, the command frames
  sent to the lidar, the layouts of point-cloud and IMU payloads), the mapping
  of packet codes to packet kinds, the tally of packets, the choice of serial
  device and baud rate, and the decisions of a lidar session (which path
  commands take, what a direct read leaves for the caller, how UDP streaming
  starts).
- `app/` holds what Verus does not check: the vendor C++ SDK bound through
  `cxx`, the serial device and `stty`, IPv4 parsing, and the floating-point
  geometry that turns a scan into points.

Tests under `tests/` exercise the core on concrete inputs.
