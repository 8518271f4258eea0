//! WiFi status: how the network tool's terse `ACTIVE:SSID:SIGNAL` listing
//! becomes a typed snapshot.

use vstd::prelude::*;
use vstd::string::StringSliceAdditionalSpecFns;
use crate::bytes::{split_on, split_bytes, line_seq, lines_bytes, eq_bytes, copy_range};
use crate::digits::{parse_u8_spec, parse_u8};

verus! {

/// Network status.
#[derive(Clone, Debug)]
pub struct NetworkInfo {
    pub connected: bool,
    pub ssid: Option<Vec<u8>>,
    pub strength: Option<u8>,
}

/// The mathematical shape of a network snapshot.
pub struct NetworkInfoV {
    pub connected: bool,
    pub ssid: Option<Seq<u8>>,
    pub strength: Option<u8>,
}

impl View for NetworkInfo {
    type V = NetworkInfoV;

    open spec fn view(&self) -> NetworkInfoV {
        NetworkInfoV {
            connected: self.connected,
            ssid: match self.ssid {
                Some(ref s) => Some(s@),
                None => None,
            },
            strength: self.strength,
        }
    }
}

/// Not connected: what the scan reports when no line is active.
pub open spec fn no_wifi() -> NetworkInfoV {
    NetworkInfoV { connected: false, ssid: None, strength: None }
}

/// The first line whose colon-separated fields start with `yes` wins: its
/// SSID and signal strength are the connection's. No such line means not
/// connected.
pub open spec fn wifi_of_lines(ls: Seq<Seq<u8>>) -> NetworkInfoV
    decreases ls.len(),
{
    if ls.len() == 0 {
        no_wifi()
    } else {
        let ps = split_on(ls[0], 58);
        if ps.len() >= 3 && ps[0] == "yes".spec_bytes() {
            NetworkInfoV { connected: true, ssid: Some(ps[1]), strength: parse_u8_spec(ps[2]) }
        } else {
            wifi_of_lines(ls.skip(1))
        }
    }
}

/// What the whole tool output means.
pub open spec fn wifi_spec(out: Seq<u8>) -> NetworkInfoV {
    wifi_of_lines(line_seq(out))
}

/// Read the WiFi snapshot out of the tool's output.
pub fn parse_wifi(out: &[u8]) -> (r: NetworkInfo)
    ensures
        r@ == wifi_spec(out@),
{
    let ls = lines_bytes(out);
    let ghost lines = ls.deep_view();
    let n: usize = ls.len();
    let mut i: usize = 0;
    proof {
        assert(lines.skip(0) =~~= lines);
    }
    while i < n
        invariant
            n == ls@.len(),
            lines == ls.deep_view(),
            lines == line_seq(out@),
            0 <= i <= n,
            wifi_of_lines(lines) == wifi_of_lines(lines.skip(i as int)),
        decreases n - i,
    {
        proof {
            assert(ls.deep_view()[i as int] =~= ls@[i as int]@);
        }
        let parts = split_bytes(ls[i].as_slice(), 58);
        proof {
            assert(parts.deep_view().len() == parts@.len());
        }
        if parts.len() >= 3 {
            proof {
                assert(parts.deep_view()[0] =~= parts@[0]@);
                assert(parts.deep_view()[1] =~= parts@[1]@);
                assert(parts.deep_view()[2] =~= parts@[2]@);
            }
            if eq_bytes(parts[0].as_slice(), "yes".as_bytes()) {
                let ssid = copy_range(parts[1].as_slice(), 0, parts[1].len());
                let strength = parse_u8(parts[2].as_slice());
                let r = NetworkInfo { connected: true, ssid: Some(ssid), strength };
                proof {
                    let rest = lines.skip(i as int);
                    assert(rest[0] == lines[i as int]);
                    let ps = split_on(rest[0], 58);
                    assert(ps == parts.deep_view());
                    assert(ps.len() >= 3 && ps[0] == "yes".spec_bytes());
                    assert(wifi_of_lines(rest) == (NetworkInfoV {
                        connected: true,
                        ssid: Some(ps[1]),
                        strength: parse_u8_spec(ps[2]),
                    }));
                    assert(ssid@ =~= parts@[1]@);
                    assert(r@.ssid == Some(ps[1]));
                    assert(r@.strength == parse_u8_spec(ps[2]));
                }
                return r;
            }
        }
        proof {
            assert(lines.skip(i as int)[0] == lines[i as int]);
            assert(lines.skip(i as int).skip(1) =~~= lines.skip(i + 1));
        }
        i = i + 1;
    }
    proof {
        assert(lines.skip(n as int) =~~= Seq::<Seq<u8>>::empty());
    }
    NetworkInfo { connected: false, ssid: None, strength: None }
}

} // verus!
