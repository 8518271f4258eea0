//! Decimal numerals: formatting integers for the JSON replies and parsing
//! the numeric arguments of requests and event payloads.

use vstd::prelude::*;

verus! {

pub open spec fn is_digit(b: u8) -> bool {
    48 <= b && b <= 57
}

pub open spec fn all_digits(s: Seq<u8>) -> bool {
    forall|k: int| 0 <= k < s.len() ==> is_digit(s[k])
}

/// The decimal digits of `n`, most significant first, no leading zeros.
pub open spec fn dec_rep(n: nat) -> Seq<u8>
    decreases n,
{
    if n < 10 {
        seq![(48 + n) as u8]
    } else {
        dec_rep(n / 10) + seq![(48 + n % 10) as u8]
    }
}

/// The decimal form of a signed value: a minus sign for negatives.
pub open spec fn int_rep(v: int) -> Seq<u8> {
    if v >= 0 {
        dec_rep(v as nat)
    } else {
        seq![45u8] + dec_rep((-v) as nat)
    }
}

/// The number a digit string denotes.
pub open spec fn dec_val(s: Seq<u8>) -> nat
    decreases s.len(),
{
    if s.len() == 0 {
        0
    } else {
        dec_val(s.drop_last()) * 10 + (s.last() - 48) as nat
    }
}

/// What `str::parse` to an unsigned type accepts: an optional leading `+`,
/// then at least one digit; the value itself, range left to the caller.
pub open spec fn parse_uint_spec(s: Seq<u8>) -> Option<nat> {
    let body = if s.len() > 0 && s[0] == 43 {
        s.skip(1)
    } else {
        s
    };
    if body.len() > 0 && all_digits(body) {
        Some(dec_val(body))
    } else {
        None
    }
}

/// What `str::parse::<u8>` returns on these bytes.
pub open spec fn parse_u8_spec(s: Seq<u8>) -> Option<u8> {
    match parse_uint_spec(s) {
        Some(v) => if v <= 255 {
            Some(v as u8)
        } else {
            None
        },
        None => None,
    }
}

/// What `str::parse::<i32>` returns on these bytes.
pub open spec fn parse_i32_spec(s: Seq<u8>) -> Option<i32> {
    if s.len() > 0 && s[0] == 45 {
        let body = s.skip(1);
        if body.len() > 0 && all_digits(body) && dec_val(body) <= 2147483648 {
            Some((-(dec_val(body) as int)) as i32)
        } else {
            None
        }
    } else {
        match parse_uint_spec(s) {
            Some(v) => if v <= 2147483647 {
                Some(v as i32)
            } else {
                None
            },
            None => None,
        }
    }
}

/// A digit string is worth at least any of its prefixes.
pub proof fn lemma_dec_val_prefix_le(s: Seq<u8>, i: int)
    requires
        0 <= i <= s.len(),
        forall|k: int| i <= k < s.len() ==> is_digit(s[k]),
    ensures
        dec_val(s.take(i)) <= dec_val(s),
    decreases s.len() - i,
{
    if i == s.len() {
        assert(s.take(i) =~= s);
    } else {
        lemma_dec_val_prefix_le(s, i + 1);
        assert(s.take(i + 1).drop_last() =~= s.take(i));
        assert(dec_val(s.take(i + 1)) == dec_val(s.take(i)) * 10 + (s[i] - 48) as nat);
    }
}

/// Scans the digits of `s` from `start` on. `Some` exactly when there is at
/// least one byte and every byte is a digit; the payload is the value, capped
/// just above `i32`'s range so that callers can reject overflow.
fn dec_val_capped(s: &[u8], start: usize) -> (r: Option<u64>)
    requires
        start <= s@.len(),
    ensures
        r is Some <==> s@.skip(start as int).len() > 0 && all_digits(s@.skip(start as int)),
        r is Some ==> {
            let v = dec_val(s@.skip(start as int));
            (v <= 2147483648 ==> r->Some_0 == v) && (v > 2147483648 ==> r->Some_0 == 2147483649)
        },
{
    let n: usize = s.len();
    if start == n {
        return None;
    }
    let ghost body = s@.skip(start as int);
    let mut acc: u64 = 0;
    let mut k: usize = start;
    while k < n
        invariant
            start <= k <= n,
            n == s@.len(),
            body == s@.skip(start as int),
            forall|t: int| start <= t < k ==> is_digit(s@[t]),
            dec_val(s@.subrange(start as int, k as int)) <= 2147483648 ==> acc == dec_val(
                s@.subrange(start as int, k as int),
            ),
            dec_val(s@.subrange(start as int, k as int)) > 2147483648 ==> acc == 2147483649,
            acc <= 2147483649,
        decreases n - k,
    {
        let b = s[k];
        if b < 48 || b > 57 {
            proof {
                assert(!is_digit(body[k - start]));
            }
            return None;
        }
        let ghost pre = s@.subrange(start as int, k as int);
        let ghost post = s@.subrange(start as int, k + 1);
        proof {
            assert(post.drop_last() =~= pre);
            assert(dec_val(post) == dec_val(pre) * 10 + (b - 48) as nat);
        }
        acc = acc * 10 + ((b - 48) as u64);
        if acc > 2147483648 {
            acc = 2147483649;
        }
        k = k + 1;
    }
    proof {
        assert(body =~= s@.subrange(start as int, n as int));
    }
    Some(acc)
}

/// What `str::parse::<u8>` would return on these bytes.
pub fn parse_u8(s: &[u8]) -> (r: Option<u8>)
    ensures
        r == parse_u8_spec(s@),
{
    let start: usize = if s.len() > 0 && s[0] == 43 {
        1
    } else {
        0
    };
    proof {
        if start == 0 {
            assert(s@.skip(0) =~= s@);
        }
    }
    match dec_val_capped(s, start) {
        Some(v) => if v <= 255 {
            Some(v as u8)
        } else {
            None
        },
        None => None,
    }
}

/// What `str::parse::<i32>` would return on these bytes.
pub fn parse_i32(s: &[u8]) -> (r: Option<i32>)
    ensures
        r == parse_i32_spec(s@),
{
    if s.len() > 0 && s[0] == 45 {
        match dec_val_capped(s, 1) {
            Some(v) => if v <= 2147483648 {
                let m: i64 = -(v as i64);
                Some(m as i32)
            } else {
                None
            },
            None => None,
        }
    } else {
        let start: usize = if s.len() > 0 && s[0] == 43 {
            1
        } else {
            0
        };
        proof {
            if start == 0 {
                assert(s@.skip(0) =~= s@);
            }
        }
        match dec_val_capped(s, start) {
            Some(v) => if v <= 2147483647 {
                Some(v as i32)
            } else {
                None
            },
            None => None,
        }
    }
}

/// The decimal digits of `n`.
pub fn fmt_u64(n: u64) -> (r: Vec<u8>)
    ensures
        r@ == dec_rep(n as nat),
{
    let mut buf: Vec<u8> = Vec::new();
    let mut cur: u64 = n;
    proof {
        assert(dec_rep(n as nat) =~= dec_rep(n as nat) + buf@.reverse());
    }
    while cur >= 10
        invariant
            dec_rep(n as nat) == dec_rep(cur as nat) + buf@.reverse(),
        decreases cur,
    {
        let d: u8 = 48 + ((cur % 10) as u8);
        let ghost old_buf = buf@;
        buf.push(d);
        proof {
            assert(dec_rep(cur as nat) == dec_rep((cur as nat) / 10) + seq![d]);
            assert(buf@.reverse() =~= seq![d] + old_buf.reverse());
            assert(dec_rep((cur / 10) as nat) + buf@.reverse() =~= dec_rep(cur as nat)
                + old_buf.reverse());
        }
        cur = cur / 10;
    }
    let ghost old_buf = buf@;
    buf.push(48 + (cur as u8));
    proof {
        assert(dec_rep(cur as nat) == seq![(48 + cur) as u8]);
        assert(buf@.reverse() =~= dec_rep(cur as nat) + old_buf.reverse());
        assert(buf@.reverse() =~= dec_rep(n as nat));
    }
    let m: usize = buf.len();
    let mut out: Vec<u8> = Vec::new();
    let mut j: usize = m;
    while j > 0
        invariant
            0 <= j <= m,
            m == buf@.len(),
            out@ == buf@.reverse().take(m - j),
        decreases j,
    {
        out.push(buf[j - 1]);
        proof {
            assert(out@ =~= buf@.reverse().take(m - (j - 1)));
        }
        j = j - 1;
    }
    proof {
        assert(out@ =~= buf@.reverse());
    }
    out
}

/// The decimal digits of `n`.
pub fn fmt_u8(n: u8) -> (r: Vec<u8>)
    ensures
        r@ == dec_rep(n as nat),
{
    fmt_u64(n as u64)
}

/// The decimal digits of `n`.
pub fn fmt_u32(n: u32) -> (r: Vec<u8>)
    ensures
        r@ == dec_rep(n as nat),
{
    fmt_u64(n as u64)
}

/// The decimal form of `v`, minus sign included for negatives.
pub fn fmt_i32(v: i32) -> (r: Vec<u8>)
    ensures
        r@ == int_rep(v as int),
{
    if v >= 0 {
        fmt_u64(v as u64)
    } else {
        let mag: u64 = (-(v as i64)) as u64;
        let mut out: Vec<u8> = Vec::new();
        out.push(45);
        let mut digits = fmt_u64(mag);
        out.append(&mut digits);
        proof {
            assert(out@ =~= seq![45u8] + dec_rep(mag as nat));
        }
        out
    }
}

} // verus!
