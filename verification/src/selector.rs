//! The capture-target selector wire protocol.
//!
//! A selector is a short textual token carried inside the remote-call
//! name and in the server's single positional argument: `"display"`,
//! `"monitor"` followed by a decimal id, or `"window"` followed by a
//! decimal id. Ids are printed in canonical decimal without leading
//! zeros; the reader also tolerates redundant leading zeros, as
//! numeric parsers commonly do.

use vstd::prelude::*;

verus! {

use crate::numerals::{all_dec_digits, dec_chars, dec_val, lemma_dec_chars_val, parse_dec_u32,
    u32_to_dec};
use vstd::string::StringExecFns;

/// Which region of the remote screen a session captures.
#[derive(Clone, Copy, Debug, PartialEq, Eq)]
pub enum CaptureTarget {
    WholeDisplay,
    Monitor { id: u32 },
    Window { id: u32 },
}

/// Why a selector (or a selection of arguments) was rejected.
#[derive(Clone, Copy, Debug, PartialEq, Eq)]
pub enum ProtocolError {
    /// More than one selection method was supplied at once.
    MutuallyExclusive,
    /// The selector matches none of the known tokens.
    UnknownToken,
    /// The id suffix is empty, non-numeric, or does not fit in 32 bits.
    BadNumber,
}

pub open spec fn spec_starts_with(s: Seq<char>, p: Seq<char>) -> bool {
    s.len() >= p.len() && s.take(p.len() as int) == p
}

/// `true` on the first `p@.len()` characters of `s` matching `p`.
pub fn str_starts_with(s: &str, p: &str) -> (r: bool)
    ensures
        r == spec_starts_with(s@, p@),
{
    let n = p.unicode_len();
    if s.unicode_len() < n {
        return false;
    }
    let mut i: usize = 0;
    while i < n
        invariant
            n == p@.len() <= s@.len(),
            0 <= i <= n,
            forall|j: int| 0 <= j < i ==> s@[j] == p@[j],
        decreases n - i,
    {
        if s.get_char(i) != p.get_char(i) {
            proof {
                assert(s@.take(p@.len() as int)[i as int] != p@[i as int]);
            }
            return false;
        }
        i += 1;
    }
    proof {
        assert(s@.take(p@.len() as int) =~= p@);
    }
    true
}

/// The canonical selector text of a target.
pub open spec fn spec_selector(t: CaptureTarget) -> Seq<char> {
    match t {
        CaptureTarget::WholeDisplay => "display"@,
        CaptureTarget::Monitor { id } => "monitor"@ + dec_chars(id as nat),
        CaptureTarget::Window { id } => "window"@ + dec_chars(id as nat),
    }
}

/// Reads a decimal id suffix, as [`spec_decode`] does.
pub open spec fn spec_parse_id(s: Seq<char>) -> Result<u32, ProtocolError> {
    if s.len() > 0 && all_dec_digits(s) && dec_val(s) <= u32::MAX {
        Ok(dec_val(s) as u32)
    } else {
        Err(ProtocolError::BadNumber)
    }
}

/// What a selector string denotes.
pub open spec fn spec_decode(s: Seq<char>) -> Result<CaptureTarget, ProtocolError> {
    if s == "display"@ {
        Ok(CaptureTarget::WholeDisplay)
    } else if spec_starts_with(s, "monitor"@) {
        match spec_parse_id(s.skip("monitor"@.len() as int)) {
            Ok(id) => Ok(CaptureTarget::Monitor { id }),
            Err(e) => Err(e),
        }
    } else if spec_starts_with(s, "window"@) {
        match spec_parse_id(s.skip("window"@.len() as int)) {
            Ok(id) => Ok(CaptureTarget::Window { id }),
            Err(e) => Err(e),
        }
    } else {
        Err(ProtocolError::UnknownToken)
    }
}

/// Prints the selector token for a target.
pub fn encode(t: &CaptureTarget) -> (r: String)
    ensures
        r@ == spec_selector(*t),
{
    match t {
        CaptureTarget::WholeDisplay => String::from_str("display"),
        CaptureTarget::Monitor { id } => {
            let mut s = String::from_str("monitor");
            let d = u32_to_dec(*id);
            s.append(d.as_str());
            s
        },
        CaptureTarget::Window { id } => {
            let mut s = String::from_str("window");
            let d = u32_to_dec(*id);
            s.append(d.as_str());
            s
        },
    }
}

/// Reads a selector token back into a target; rejects unknown tokens
/// and empty, non-numeric or overflowing id suffixes.
pub fn decode(s: &str) -> (r: Result<CaptureTarget, ProtocolError>)
    ensures
        r == spec_decode(s@),
{
    let len = s.unicode_len();
    if str_starts_with(s, "display") && len == 7 {
        proof {
            reveal_strlit("display");
            assert(s@ =~= "display"@);
        }
        Ok(CaptureTarget::WholeDisplay)
    } else if str_starts_with(s, "monitor") {
        proof {
            reveal_strlit("monitor");
            reveal_strlit("display");
            assert(s@ != "display"@) by {
                assert(s@.take("monitor"@.len() as int)[0] == s@[0]);
                assert(s@[0] == 'm');
            }
        }
        let suffix = s.substring_char(7, len);
        proof {
            assert(suffix@ =~= s@.skip("monitor"@.len() as int));
        }
        match parse_dec_u32(suffix) {
            Some(id) => Ok(CaptureTarget::Monitor { id }),
            None => Err(ProtocolError::BadNumber),
        }
    } else if str_starts_with(s, "window") {
        proof {
            reveal_strlit("window");
            reveal_strlit("display");
            assert(s@ != "display"@) by {
                assert(s@.take("window"@.len() as int)[0] == s@[0]);
                assert(s@[0] == 'w');
            }
        }
        let suffix = s.substring_char(6, len);
        proof {
            assert(suffix@ =~= s@.skip("window"@.len() as int));
        }
        match parse_dec_u32(suffix) {
            Some(id) => Ok(CaptureTarget::Window { id }),
            None => Err(ProtocolError::BadNumber),
        }
    } else {
        proof {
            reveal_strlit("display");
            assert(s@ != "display"@) by {
                if s@ == "display"@ {
                    assert(s@.take("display"@.len() as int) =~= "display"@);
                }
            }
        }
        Err(ProtocolError::UnknownToken)
    }
}

/// Round trip: every selector that `encode` prints reads back as the
/// same target.
pub proof fn lemma_selector_roundtrip(t: CaptureTarget)
    ensures
        spec_decode(spec_selector(t)) == Ok::<CaptureTarget, ProtocolError>(t),
{
    reveal_strlit("display");
    reveal_strlit("monitor");
    reveal_strlit("window");
    match t {
        CaptureTarget::WholeDisplay => {
        },
        CaptureTarget::Monitor { id } => {
            let s = spec_selector(t);
            lemma_dec_chars_val(id as nat);
            assert(s.len() > 7);
            assert(s != "display"@);
            assert(s.take(7) =~= "monitor"@);
            assert(s.skip(7) =~= dec_chars(id as nat));
        },
        CaptureTarget::Window { id } => {
            let s = spec_selector(t);
            lemma_dec_chars_val(id as nat);
            assert(s.len() > 6);
            assert(s != "display"@);
            assert(s[0] == 'w');
            assert(!spec_starts_with(s, "monitor"@)) by {
                if spec_starts_with(s, "monitor"@) {
                    assert(s.take(7)[0] == 'm');
                }
            }
            assert(s.take(6) =~= "window"@);
            assert(s.skip(6) =~= dec_chars(id as nat));
        },
    }
}

/// A string that chains two selector tokens is always rejected: the
/// second token begins with a letter where a decimal id (or nothing)
/// is required.
pub proof fn lemma_decode_rejects_double(t1: CaptureTarget, t2: CaptureTarget)
    ensures
        spec_decode(spec_selector(t1) + spec_selector(t2)) is Err,
{
    reveal_strlit("display");
    reveal_strlit("monitor");
    reveal_strlit("window");
    let s1 = spec_selector(t1);
    let s2 = spec_selector(t2);
    let s = s1 + s2;
    match t1 {
        CaptureTarget::Monitor { id } => lemma_dec_chars_val(id as nat),
        CaptureTarget::Window { id } => lemma_dec_chars_val(id as nat),
        CaptureTarget::WholeDisplay => (),
    }
    assert(s2[0] == 'd' || s2[0] == 'm' || s2[0] == 'w');
    match t1 {
        CaptureTarget::WholeDisplay => {
            assert(s.len() > 7);
            assert(s != "display"@);
            assert(s[0] == 'd');
            assert(!spec_starts_with(s, "monitor"@)) by {
                if spec_starts_with(s, "monitor"@) {
                    assert(s.take(7)[0] == 'm');
                }
            }
            assert(!spec_starts_with(s, "window"@)) by {
                if spec_starts_with(s, "window"@) {
                    assert(s.take(6)[0] == 'w');
                }
            }
        },
        CaptureTarget::Monitor { id } => {
            let k = 7 + dec_chars(id as nat).len();
            assert(s[k as int] == s2[0]);
            assert(s != "display"@);
            if spec_starts_with(s, "monitor"@) {
                assert(s.skip(7)[k - 7] == s2[0]);
                assert(!all_dec_digits(s.skip(7)));
            }
            if spec_starts_with(s, "window"@) {
                assert(s.take(6)[0] == 'w');
                assert(s[0] == 'm');
            }
        },
        CaptureTarget::Window { id } => {
            let k = 6 + dec_chars(id as nat).len();
            assert(s[k as int] == s2[0]);
            assert(s != "display"@);
            if spec_starts_with(s, "monitor"@) {
                assert(s.take(7)[0] == 'm');
                assert(s[0] == 'w');
            }
            if spec_starts_with(s, "window"@) {
                assert(s.skip(6)[k - 6] == s2[0]);
                assert(!all_dec_digits(s.skip(6)));
            }
        },
    }
}

} // verus!
