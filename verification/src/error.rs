//! Errors of the library, and how the SDK's status codes map onto them.

use vstd::prelude::*;
use vstd::string::*;

verus! {

/// Declares std's `std::io::Error`, carried opaquely in the errors of the
/// direct serial path.
#[verifier::external_type_specification]
#[verifier::external_body]
pub struct ExIoError(std::io::Error);

/// Declares std's `std::num::ParseIntError`, carried opaquely when a baud
/// rate does not parse.
#[verifier::external_type_specification]
#[verifier::external_body]
pub struct ExParseIntError(std::num::ParseIntError);

/// Errors of the direct serial path.
#[derive(Debug)]
#[allow(inconsistent_fields)]
pub enum DirectSerialError {
    /// The `stty` command could not be run.
    ConfigureIo { port: String, source: std::io::Error },
    /// The `stty` command ran and failed.
    ConfigureFailed { port: String },
    /// The serial device could not be opened.
    Open { port: String, source: std::io::Error },
    /// Reading from the serial device failed.
    Read { port: String, source: std::io::Error },
    /// Writing to the serial device failed.
    Write { port: String, source: std::io::Error },
    /// The baud rate given is not a `u32`.
    InvalidBaudrate { baudrate: String, source: std::num::ParseIntError },
    /// An address given is not an IPv4 address.
    InvalidIpv4 { address: String },
}

/// Some sort of serial initialization error. The C++ SDK does not expose
/// more than this.
#[derive(Debug)]
pub struct SerialInitializationError;

/// Some sort of UDP initialization error.
#[derive(Debug)]
pub struct UdpInitializationError;

impl SerialInitializationError {
    /// The error's message.
    pub fn message(&self) -> (r: String)
        ensures
            r@ == "initialziation err"@,
    {
        String::from_str("initialziation err")
    }
}

impl UdpInitializationError {
    /// The error's message.
    pub fn message(&self) -> (r: String)
        ensures
            r@ == "udp initialization err"@,
    {
        String::from_str("udp initialization err")
    }
}

/// The SDK's serial initialization reports `0` for success and `-1` for
/// failure; it returns no other code.
pub fn serial_initialization_outcome(code: i32) -> (r: Result<(), SerialInitializationError>)
    requires
        code == 0 || code == -1,
    ensures
        r is Ok <==> code == 0,
{
    if code == 0 {
        Ok(())
    } else {
        Err(SerialInitializationError)
    }
}

/// The SDK's UDP initialization reports `0` for success and `-1` for
/// failure; it returns no other code.
pub fn udp_initialization_outcome(code: i32) -> (r: Result<(), UdpInitializationError>)
    requires
        code == 0 || code == -1,
    ensures
        r is Ok <==> code == 0,
{
    if code == 0 {
        Ok(())
    } else {
        Err(UdpInitializationError)
    }
}

} // verus!
