//! Brightness status: how the machine-readable output of the brightness
//! tool becomes a percentage.

use vstd::prelude::*;
use crate::bytes::{split_on, split_bytes, strip_trailing, strip_trailing_bytes};
use crate::digits::{parse_u8_spec, parse_u8};

verus! {

/// What the tool's `device,class,current,max,percentage` line means: the
/// fourth comma-separated field, trailing percent signs dropped, parsed as
/// a percentage; fewer than four fields mean no reading.
pub open spec fn brightness_spec(out: Seq<u8>) -> Option<u8> {
    let parts = split_on(out, 44);
    if parts.len() >= 4 {
        parse_u8_spec(strip_trailing(parts[3], 37))
    } else {
        None
    }
}

/// Read the brightness percentage out of the tool's output.
pub fn parse_brightness(out: &[u8]) -> (r: Option<u8>)
    ensures
        r == brightness_spec(out@),
{
    let parts = split_bytes(out, 44);
    proof {
        assert(parts.deep_view().len() == parts@.len());
    }
    if parts.len() >= 4 {
        proof {
            assert(parts.deep_view()[3] =~= parts@[3]@);
        }
        let field = strip_trailing_bytes(parts[3].as_slice(), 37);
        parse_u8(field.as_slice())
    } else {
        None
    }
}

} // verus!
