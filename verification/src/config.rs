//! Choosing the serial device and its settings from the command line and the
//! environment, and the settings handed to `stty`.

use vstd::prelude::*;
use vstd::string::*;

use crate::error::DirectSerialError;
use crate::frame::encode_udp_config_frame;
use crate::frame::spec_command_frame;
use crate::frame::spec_udp_config_payload;
use crate::packet::LIDAR_IP_ADDRESS_CONFIG_PACKET_TYPE;
use crate::text::{decimal, lemma_decimal_parses_back, spec_decimal, spec_parse_u32};

verus! {

/// Serial device used when nothing else is named.
pub const DEFAULT_SERIAL_PORT: &'static str = "/dev/ttyACM0";

/// Stable device path of the lidar's USB serial adapter.
pub const LIDAR_SERIAL_BY_ID: &'static str = "/dev/serial/by-id/usb-1a86_USB_Single_Serial_5A2A026768-if00";

/// Baud rate of the lidar's serial link.
pub const DEFAULT_BAUDRATE: u32 = 4000000;

/// Number of scans the SDK gathers into one cloud, by default.
pub const DEFAULT_CLOUD_SCAN_NUM: u16 = 18;

/// Views of a sequence of strings.
pub open spec fn string_views(args: Seq<String>) -> Seq<Seq<char>> {
    args.map_values(|a: String| a@)
}

/// The view of an optional string.
pub open spec fn option_string(o: Option<String>) -> Option<Seq<char>> {
    match o {
        Some(s) => Some(s@),
        None => None,
    }
}

/// The argument that follows the first occurrence of `name` at or after `i`
/// that has an argument after it.
pub open spec fn spec_arg_value_from(args: Seq<Seq<char>>, name: Seq<char>, i: int) -> Option<
    Seq<char>,
>
    decreases args.len() - i,
{
    if i < 0 || i + 1 >= args.len() {
        None
    } else if args[i] == name {
        Some(args[i + 1])
    } else {
        spec_arg_value_from(args, name, i + 1)
    }
}

/// The value of the option `name` in `args`: the argument right after its
/// first occurrence (an occurrence as the last argument has no value).
pub open spec fn spec_arg_value(args: Seq<Seq<char>>, name: Seq<char>) -> Option<Seq<char>> {
    spec_arg_value_from(args, name, 0)
}

/// Finds the value of the option `name` in `args`.
pub fn arg_value(args: &[String], name: &str) -> (r: Option<String>)
    ensures
        option_string(r) == spec_arg_value(string_views(args@), name@),
{
    let ghost views = string_views(args@);
    let name_owned = name.to_owned();
    let len = args.len();
    let mut i: usize = 0;
    while i < len && len - i >= 2
        invariant
            len == args@.len(),
            i <= len,
            views == string_views(args@),
            name_owned@ == name@,
            spec_arg_value_from(views, name@, 0) == spec_arg_value_from(views, name@, i as int),
        decreases len - i,
    {
        if args[i] == name_owned {
            assert(views[i as int] == args@[i as int]@);
            assert(views[i + 1] == args@[i + 1]@);
            return Some(args[i + 1].clone());
        }
        assert(views[i as int] == args@[i as int]@);
        i += 1;
    }
    None
}

/// The serial device to use: the `--port` option, else the environment's
/// choice, else the lidar's stable device path when it exists, else the
/// default device.
pub open spec fn spec_serial_port(
    args: Seq<Seq<char>>,
    env_port: Option<Seq<char>>,
    by_id_exists: bool,
) -> Seq<char> {
    match spec_arg_value(args, "--port"@) {
        Some(p) => p,
        None => match env_port {
            Some(p) => p,
            None => if by_id_exists {
                LIDAR_SERIAL_BY_ID@
            } else {
                DEFAULT_SERIAL_PORT@
            },
        },
    }
}

/// Chooses the serial device; `env_port` is the value of
/// `UNILIDAR_SERIAL_PORT`, `by_id_exists` whether the lidar's stable device
/// path exists.
pub fn serial_port(args: &[String], env_port: Option<String>, by_id_exists: bool) -> (r: String)
    ensures
        r@ == spec_serial_port(string_views(args@), option_string(env_port), by_id_exists),
{
    if let Some(port) = arg_value(args, "--port") {
        return port;
    }
    if let Some(port) = env_port {
        return port;
    }
    if by_id_exists {
        return LIDAR_SERIAL_BY_ID.to_owned();
    }
    DEFAULT_SERIAL_PORT.to_owned()
}

/// The text of the baud rate: the `--baud` option, else the environment's
/// choice, else the default baud rate in decimal.
pub open spec fn spec_baudrate_text(args: Seq<Seq<char>>, env_baud: Option<Seq<char>>) -> Seq<
    char,
> {
    match spec_arg_value(args, "--baud"@) {
        Some(b) => b,
        None => match env_baud {
            Some(b) => b,
            None => spec_decimal(DEFAULT_BAUDRATE as nat),
        },
    }
}

/// Calls std's `str::parse::<u32>` (the `FromStr` of `u32`). Its contract
/// claims what the documentation of `u32::from_str_radix` says: the call
/// succeeds exactly when the text is an optional `+` followed by one or more
/// ASCII digits whose value fits in a `u32`, and then returns that value.
/// Nothing is claimed of the error value beyond its existence.
#[verifier::external_body]
fn parse_u32(text: &str) -> (r: Result<u32, std::num::ParseIntError>)
    ensures
        match r {
            Ok(v) => spec_parse_u32(text@) == Some(v),
            Err(_) => spec_parse_u32(text@) is None,
        },
{
    text.parse::<u32>()
}

/// Chooses the baud rate; `env_baud` is the value of `UNILIDAR_SERIAL_BAUD`.
/// Fails with `InvalidBaudrate`, carrying the text, exactly when the chosen
/// text is not a `u32`.
pub fn serial_baudrate(args: &[String], env_baud: Option<String>) -> (r: Result<
    u32,
    DirectSerialError,
>)
    ensures
        match r {
            Ok(v) => spec_parse_u32(spec_baudrate_text(string_views(args@), option_string(env_baud)))
                == Some(v),
            Err(e) => {
                &&& spec_parse_u32(
                    spec_baudrate_text(string_views(args@), option_string(env_baud)),
                ) is None
                &&& e matches DirectSerialError::InvalidBaudrate { baudrate, .. }
                    && baudrate@ == spec_baudrate_text(string_views(args@), option_string(env_baud))
            },
        },
{
    let text = match arg_value(args, "--baud") {
        Some(b) => b,
        None => match env_baud {
            Some(b) => b,
            None => decimal(DEFAULT_BAUDRATE as u64),
        },
    };
    match parse_u32(text.as_str()) {
        Ok(v) => Ok(v),
        Err(source) => Err(DirectSerialError::InvalidBaudrate { baudrate: text, source }),
    }
}

/// The arguments of the `stty` call that puts the serial device in raw mode
/// at `baudrate`.
pub open spec fn spec_stty_arguments(port: Seq<char>, baudrate: u32) -> Seq<Seq<char>> {
    seq![
        "-F"@,
        port,
        spec_decimal(baudrate as nat),
        "raw"@,
        "-echo"@,
        "-ixon"@,
        "-ixoff"@,
        "-crtscts"@,
    ]
}

/// Builds the arguments of the `stty` call for `port` at `baudrate`.
pub fn stty_arguments(port: &str, baudrate: u32) -> (r: Vec<String>)
    ensures
        string_views(r@) == spec_stty_arguments(port@, baudrate),
{
    let mut r: Vec<String> = Vec::new();
    r.push("-F".to_owned());
    r.push(port.to_owned());
    r.push(decimal(baudrate as u64));
    r.push("raw".to_owned());
    r.push("-echo".to_owned());
    r.push("-ixon".to_owned());
    r.push("-ixoff".to_owned());
    r.push("-crtscts".to_owned());
    assert(string_views(r@) =~= spec_stty_arguments(port@, baudrate));
    r
}

/// With no `--baud` option and nothing in the environment, the baud rate
/// chosen is the default one.
pub proof fn lemma_default_baudrate(args: Seq<Seq<char>>, env_baud: Option<Seq<char>>)
    requires
        spec_arg_value(args, "--baud"@) is None,
        env_baud is None,
    ensures
        spec_parse_u32(spec_baudrate_text(args, env_baud)) == Some(DEFAULT_BAUDRATE),
{
    lemma_decimal_parses_back(DEFAULT_BAUDRATE);
}

/// The baud rate handed to `stty` is the decimal text of the chosen rate,
/// which parses back to that rate.
pub proof fn lemma_stty_baudrate_parses_back(port: Seq<char>, baudrate: u32)
    ensures
        spec_parse_u32(spec_stty_arguments(port, baudrate)[2]) == Some(baudrate),
{
    lemma_decimal_parses_back(baudrate);
}

/// The octets of an address, or `InvalidIpv4` naming it when it did not
/// parse as an IPv4 address.
pub fn ipv4_octets(parsed: Option<[u8; 4]>, address: &str) -> (r: Result<[u8; 4], DirectSerialError>)
    ensures
        match parsed {
            Some(o) => r == Ok::<[u8; 4], DirectSerialError>(o),
            None => r matches Err(DirectSerialError::InvalidIpv4 { address: a }) && a@ == address@,
        },
{
    match parsed {
        Some(octets) => Ok(octets),
        None => Err(DirectSerialError::InvalidIpv4 { address: address.to_owned() }),
    }
}

/// Builds the frame that sets the lidar's network configuration from the
/// parsed addresses: fails with `InvalidIpv4` naming the lidar's address if
/// it did not parse, else naming the host's address if that did not parse.
pub fn udp_config_command_frame(
    lidar_ip: Option<[u8; 4]>,
    lidar_ip_text: &str,
    local_ip: Option<[u8; 4]>,
    local_ip_text: &str,
    lidar_port: u16,
    local_port: u16,
) -> (r: Result<Vec<u8>, DirectSerialError>)
    ensures
        match (lidar_ip, local_ip) {
            (Some(a), Some(b)) => r matches Ok(f) && f@ == spec_command_frame(
                LIDAR_IP_ADDRESS_CONFIG_PACKET_TYPE,
                spec_udp_config_payload(a@, b@, lidar_port, local_port),
            ),
            (None, _) => r matches Err(DirectSerialError::InvalidIpv4 { address: a }) && a@
                == lidar_ip_text@,
            (Some(_), None) => r matches Err(DirectSerialError::InvalidIpv4 { address: a }) && a@
                == local_ip_text@,
        },
{
    let lidar = match ipv4_octets(lidar_ip, lidar_ip_text) {
        Ok(o) => o,
        Err(e) => return Err(e),
    };
    let local = match ipv4_octets(local_ip, local_ip_text) {
        Ok(o) => o,
        Err(e) => return Err(e),
    };
    Ok(encode_udp_config_frame(lidar, local, lidar_port, local_port))
}

} // verus!
