//! Build-time configuration values that need interpreting at run time.
use vstd::prelude::*;

use crate::text::{parse_unsigned, parse_unsigned_bytes};
use vstd::string::StringSliceAdditionalSpecFns;

verus! {

/// Broker port used when the configured one does not parse (MQTT over TLS).
pub const DEFAULT_MQTT_PORT: u16 = 8883;

/// The port a configured port string stands for.
pub open spec fn mqtt_port_of(port: Seq<u8>) -> u16 {
    match parse_unsigned(port, 65535) {
        Some(v) => v as u16,
        None => DEFAULT_MQTT_PORT,
    }
}

/// Parse the configured broker port into a `u16`, falling back to 8883
/// (TLS) when it is empty or not a valid port number, so that a missing
/// setting does not stop the firmware at boot.
pub fn mqtt_port(port: &str) -> (p: u16)
    ensures
        p == mqtt_port_of(port.spec_bytes()),
{
    match parse_unsigned_bytes(port.as_bytes(), 65535) {
        Some(v) => v as u16,
        None => DEFAULT_MQTT_PORT,
    }
}

} // verus!
