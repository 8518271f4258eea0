//! Battery status: how the raw contents of a battery device's `capacity`
//! and `status` files become a level and a charging flag.

use vstd::prelude::*;
use vstd::string::StringSliceAdditionalSpecFns;
use crate::bytes::{trim_spec, trim_bytes, eq_bytes};
use crate::digits::{parse_u8_spec, parse_u8};

verus! {

/// What a battery reading means: the trimmed capacity file must parse as a
/// percentage, and charging holds exactly when the trimmed status file says
/// `Charging`.
pub open spec fn battery_spec(capacity: Seq<u8>, status: Seq<u8>) -> Option<(u8, bool)> {
    match parse_u8_spec(trim_spec(capacity)) {
        Some(level) => Some((level, trim_spec(status) == "Charging".spec_bytes())),
        None => None,
    }
}

/// Read a battery observation out of the two sysfs file contents.
pub fn parse_battery(capacity: &[u8], status: &[u8]) -> (r: Option<(u8, bool)>)
    ensures
        r == battery_spec(capacity@, status@),
{
    let cap = trim_bytes(capacity);
    match parse_u8(cap.as_slice()) {
        Some(level) => {
            let st = trim_bytes(status);
            let charging = eq_bytes(st.as_slice(), "Charging".as_bytes());
            Some((level, charging))
        },
        None => None,
    }
}

} // verus!
