//! Percent-decoding of query components: `%XX` escapes become one byte,
//! `+` becomes a space, anything else passes through. A `%` not followed
//! by two hexadecimal digits fails the whole decode.

use vstd::prelude::*;

use crate::hex::{hex_value_any, spec_hex_value_any};

verus! {

/// The decoding of a percent-encoded byte sequence, or `None` when a `%`
/// is not followed by two (lowercase or uppercase is decided by
/// [`spec_hex_value_any`]) hexadecimal digits.
pub open spec fn spec_percent_decoding(s: Seq<u8>) -> Option<Seq<u8>>
    decreases s.len(),
{
    if s.len() == 0 {
        Some(Seq::empty())
    } else if s[0] == 0x25 {
        if s.len() >= 3 {
            match (spec_hex_value_any(s[1]), spec_hex_value_any(s[2])) {
                (Some(h), Some(l)) => match spec_percent_decoding(s.skip(3)) {
                    Some(r) => Some(seq![(16 * h + l) as u8] + r),
                    None => None,
                },
                _ => None,
            }
        } else {
            None
        }
    } else if s[0] == 0x2b {
        match spec_percent_decoding(s.skip(1)) {
            Some(r) => Some(seq![0x20 as u8] + r),
            None => None,
        }
    } else {
        match spec_percent_decoding(s.skip(1)) {
            Some(r) => Some(seq![s[0]] + r),
            None => None,
        }
    }
}

/// Decodes a percent-encoded byte sequence; fails exactly when the
/// specification does.
pub fn percent_decode(s: &[u8]) -> (r: Result<Vec<u8>, ()>)
    ensures
        match r {
            Ok(v) => spec_percent_decoding(s@) == Some(v@),
            Err(()) => spec_percent_decoding(s@) is None,
        },
{
    let n = s.len();
    let mut out: Vec<u8> = Vec::new();
    let mut i: usize = 0;
    proof {
        assert(s@.skip(0) =~= s@);
        match spec_percent_decoding(s@) {
            Some(r) => {
                assert(out@ + r =~= r);
            },
            None => {},
        }
    }
    while i < n
        invariant
            i <= n,
            n == s@.len(),
            spec_percent_decoding(s@) == match spec_percent_decoding(s@.skip(i as int)) {
                Some(r) => Some(out@ + r),
                None => None::<Seq<u8>>,
            },
        decreases n - i,
    {
        let ghost rem = s@.skip(i as int);
        assert(rem[0] == s@[i as int]);
        let b = s[i];
        if b == 0x25 {
            if n - i < 3 {
                assert(rem.len() < 3);
                assert(spec_percent_decoding(rem) is None);
                return Err(());
            }
            let h = hex_value_any(s[i + 1]);
            let l = hex_value_any(s[i + 2]);
            assert(rem[1] == s@[i + 1] && rem[2] == s@[i + 2]);
            match (h, l) {
                (Some(hv), Some(lv)) => {
                    assert(hv < 16 && lv < 16);
                    let decoded: u8 = 16 * hv + lv;
                    let ghost prev = out@;
                    out.push(decoded);
                    proof {
                        assert(rem.skip(3) =~= s@.skip(i + 3));
                        match spec_percent_decoding(s@.skip(i + 3)) {
                            Some(rr) => {
                                assert(spec_percent_decoding(rem) == Some(seq![decoded] + rr));
                                assert(prev.push(decoded) + rr =~= prev + (seq![decoded] + rr));
                            },
                            None => {
                                assert(spec_percent_decoding(rem) is None);
                            },
                        }
                    }
                    i += 3;
                },
                _ => {
                    assert(spec_percent_decoding(rem) is None);
                    return Err(());
                },
            }
        } else {
            let decoded: u8 = if b == 0x2b {
                0x20
            } else {
                b
            };
            let ghost prev = out@;
            out.push(decoded);
            proof {
                assert(rem.skip(1) =~= s@.skip(i + 1));
                match spec_percent_decoding(s@.skip(i + 1)) {
                    Some(rr) => {
                        assert(spec_percent_decoding(rem) == Some(seq![decoded] + rr));
                        assert(prev.push(decoded) + rr =~= prev + (seq![decoded] + rr));
                    },
                    None => {
                        assert(spec_percent_decoding(rem) is None);
                    },
                }
            }
            i += 1;
        }
    }
    proof {
        assert(s@.skip(n as int) =~= Seq::<u8>::empty());
        assert(spec_percent_decoding(Seq::<u8>::empty()) == Some(Seq::<u8>::empty()));
        assert(out@ + Seq::<u8>::empty() =~= out@);
    }
    Ok(out)
}

} // verus!
