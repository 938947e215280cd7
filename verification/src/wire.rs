//! The probe result's wire form.
//!
//! A probe result crosses the call channel as text, and the two sides
//! are built independently, so the format must be exact and stable. It
//! is deliberately plain: the record is flattened to a sequence of
//! 64-bit values — counts first, then each window's fields, then each
//! monitor's — and every value is printed as exactly sixteen lower-case
//! hexadecimal digits. Signed coordinates are carried with a fixed
//! bias; an optional name is a presence flag, a byte count, and the
//! name's UTF-8 bytes, one value each. The reader rejects anything the
//! writer cannot produce, including trailing data.

use vstd::prelude::*;

verus! {

use crate::numerals::{all_hex_digits, hex_chars_fixed, hex_val, lemma_hex_chars_fixed_val,
    lemma_hex_val_bound, lemma_pow16_16, pow16, u64_to_hex16};
use crate::probe::{view_of_opt_string, Monitor, Probe, ProbeView, Window, WindowView};
use vstd::string::StrSliceExecFns;
use vstd::string::StringExecFns;
use vstd::utf8::{decode_utf8, encode_utf8, encode_utf8_decode_utf8, encode_utf8_valid_utf8,
    valid_utf8};

/// Offset added to a signed 32-bit coordinate on the wire.
pub const BIAS32: u64 = 0x8000_0000;

/// Offset added to a signed 16-bit coordinate on the wire.
pub const BIAS16: u64 = 0x8000;

pub open spec fn spec_bias32(x: i32) -> u64 {
    (x + BIAS32) as u64
}

pub open spec fn spec_unbias32(t: u64) -> i32 {
    (t - BIAS32) as i32
}

pub open spec fn spec_bias16(x: i16) -> u64 {
    (x + BIAS16) as u64
}

pub open spec fn spec_unbias16(t: u64) -> i16 {
    (t - BIAS16) as i16
}

// ---------------------------------------------------------------------------
// Record -> values
// ---------------------------------------------------------------------------

/// An absent name is a single zero; a present one is a one, the byte
/// count, then one value per UTF-8 byte.
pub open spec fn spec_tokens_of_opt_name(n: Option<Seq<char>>) -> Seq<u64> {
    match n {
        None => seq![0u64],
        Some(cs) => seq![1u64, encode_utf8(cs).len() as u64] + encode_utf8(cs).map_values(
            |b: u8| b as u64,
        ),
    }
}

pub open spec fn spec_tokens_of_window(w: WindowView) -> Seq<u64> {
    seq![w.id, spec_bias32(w.x), spec_bias32(w.y), spec_bias32(w.width), spec_bias32(w.height)]
        + spec_tokens_of_opt_name(w.name) + spec_tokens_of_opt_name(w.wm_name)
}

pub open spec fn spec_tokens_of_windows(ws: Seq<WindowView>) -> Seq<u64>
    decreases ws.len(),
{
    if ws.len() == 0 {
        Seq::<u64>::empty()
    } else {
        spec_tokens_of_window(ws[0]) + spec_tokens_of_windows(ws.drop_first())
    }
}

pub open spec fn spec_tokens_of_monitor(m: Monitor) -> Seq<u64> {
    seq![
        spec_bias32(m.id),
        spec_bias16(m.x),
        spec_bias16(m.y),
        spec_bias16(m.width),
        spec_bias16(m.height),
    ]
}

pub open spec fn spec_tokens_of_monitors(ms: Seq<Monitor>) -> Seq<u64>
    decreases ms.len(),
{
    if ms.len() == 0 {
        Seq::<u64>::empty()
    } else {
        spec_tokens_of_monitor(ms[0]) + spec_tokens_of_monitors(ms.drop_first())
    }
}

/// The whole record: window count, windows, monitor count, monitors.
pub open spec fn spec_tokens_of_probe(p: ProbeView) -> Seq<u64> {
    seq![p.windows.len() as u64] + spec_tokens_of_windows(p.windows) + seq![
        p.monitors.len() as u64,
    ] + spec_tokens_of_monitors(p.monitors)
}

// ---------------------------------------------------------------------------
// Values -> text
// ---------------------------------------------------------------------------

/// Every value as sixteen hex digits, concatenated.
pub open spec fn spec_hex16_stream(ts: Seq<u64>) -> Seq<char>
    decreases ts.len(),
{
    if ts.len() == 0 {
        Seq::<char>::empty()
    } else {
        hex_chars_fixed(ts[0] as nat, 16) + spec_hex16_stream(ts.drop_first())
    }
}

/// The full wire text of a probe result.
pub open spec fn spec_serialize_probe(p: ProbeView) -> Seq<char> {
    spec_hex16_stream(spec_tokens_of_probe(p))
}

// ---------------------------------------------------------------------------
// Serializer
// ---------------------------------------------------------------------------

/// Appends one name's values.
fn push_opt_name(toks: &mut Vec<u64>, name: &Option<String>)
    ensures
        final(toks)@ == old(toks)@ + spec_tokens_of_opt_name(view_of_opt_string(*name)),
{
    let ghost start = toks@;
    match name {
        None => {
            toks.push(0);
            proof {
                assert(toks@ =~= start + spec_tokens_of_opt_name(view_of_opt_string(*name)));
            }
        },
        Some(s) => {
            let bytes = s.as_str().as_bytes_vec();
            toks.push(1);
            toks.push(bytes.len() as u64);
            let n = bytes.len();
            let mut k: usize = 0;
            while k < n
                invariant
                    n == bytes@.len(),
                    0 <= k <= n,
                    bytes@ == encode_utf8(s@),
                    toks@ == start + seq![1u64, bytes@.len() as u64] + bytes@.take(
                        k as int,
                    ).map_values(|b: u8| b as u64),
                decreases n - k,
            {
                toks.push(bytes[k]as u64);
                k += 1;
                proof {
                    assert(bytes@.take(k as int).map_values(|b: u8| b as u64) =~= bytes@.take(k - 1)
                        .map_values(|b: u8| b as u64).push(bytes@[k - 1] as u64));
                    assert(toks@ =~= start + seq![1u64, bytes@.len() as u64] + bytes@.take(
                        k as int,
                    ).map_values(|b: u8| b as u64));
                }
            }
            proof {
                assert(bytes@.take(n as int) =~= bytes@);
                assert(toks@ =~= start + spec_tokens_of_opt_name(view_of_opt_string(*name)));
            }
        },
    }
}

fn bias32(x: i32) -> (r: u64)
    ensures
        r == spec_bias32(x),
{
    ((x as i64) + (BIAS32 as i64)) as u64
}

fn bias16(x: i16) -> (r: u64)
    ensures
        r == spec_bias16(x),
{
    ((x as i64) + (BIAS16 as i64)) as u64
}

/// Appends one window's values.
fn push_window(toks: &mut Vec<u64>, w: &Window)
    ensures
        final(toks)@ == old(toks)@ + spec_tokens_of_window(w@),
{
    let ghost start = toks@;
    toks.push(w.id);
    toks.push(bias32(w.x));
    toks.push(bias32(w.y));
    toks.push(bias32(w.width));
    toks.push(bias32(w.height));
    push_opt_name(toks, &w.name);
    push_opt_name(toks, &w.wm_name);
    proof {
        assert(toks@ =~= start + spec_tokens_of_window(w@));
    }
}

/// Appends one monitor's values.
fn push_monitor(toks: &mut Vec<u64>, m: &Monitor)
    ensures
        final(toks)@ == old(toks)@ + spec_tokens_of_monitor(*m),
{
    let ghost start = toks@;
    toks.push(bias32(m.id));
    toks.push(bias16(m.x));
    toks.push(bias16(m.y));
    toks.push(bias16(m.width));
    toks.push(bias16(m.height));
    proof {
        assert(toks@ =~= start + spec_tokens_of_monitor(*m));
    }
}

/// Flattens a probe result to its wire values.
fn tokens_of_probe(p: &Probe) -> (toks: Vec<u64>)
    ensures
        toks@ == spec_tokens_of_probe(p@),
{
    let mut toks: Vec<u64> = Vec::new();
    toks.push(p.windows.len() as u64);
    let ghost wviews = p@.windows;
    let nw = p.windows.len();
    let mut i: usize = 0;
    proof {
        assert(wviews.skip(0) =~= wviews);
        assert(toks@ + spec_tokens_of_windows(wviews) =~= seq![wviews.len() as u64]
            + spec_tokens_of_windows(wviews));
    }
    while i < nw
        invariant
            nw == p.windows@.len(),
            wviews == p@.windows,
            0 <= i <= nw,
            toks@ + spec_tokens_of_windows(wviews.skip(i as int)) == seq![wviews.len() as u64]
                + spec_tokens_of_windows(wviews),
        decreases nw - i,
    {
        let ghost before = wviews.skip(i as int);
        push_window(&mut toks, &p.windows[i]);
        i += 1;
        proof {
            assert(before[0] == wviews[i - 1]);
            assert(before.drop_first() =~= wviews.skip(i as int));
            assert(toks@ + spec_tokens_of_windows(wviews.skip(i as int)) =~= seq![
                wviews.len() as u64,
            ] + spec_tokens_of_windows(wviews));
        }
    }
    proof {
        assert(wviews.skip(nw as int) =~= Seq::<WindowView>::empty());
    }
    toks.push(p.monitors.len() as u64);
    let ghost mseq = p@.monitors;
    let ghost mid = toks@;
    let nm = p.monitors.len();
    let mut j: usize = 0;
    proof {
        assert(mseq.skip(0) =~= mseq);
        assert(toks@ + spec_tokens_of_monitors(mseq) =~= mid + spec_tokens_of_monitors(mseq));
    }
    while j < nm
        invariant
            nm == p.monitors@.len(),
            mseq == p@.monitors,
            0 <= j <= nm,
            toks@ + spec_tokens_of_monitors(mseq.skip(j as int)) == mid + spec_tokens_of_monitors(
                mseq,
            ),
        decreases nm - j,
    {
        let ghost before = mseq.skip(j as int);
        let m = p.monitors[j];
        push_monitor(&mut toks, &m);
        j += 1;
        proof {
            assert(before[0] == mseq[j - 1]);
            assert(before.drop_first() =~= mseq.skip(j as int));
            assert(toks@ + spec_tokens_of_monitors(mseq.skip(j as int)) =~= mid
                + spec_tokens_of_monitors(mseq));
        }
    }
    proof {
        assert(mseq.skip(nm as int) =~= Seq::<Monitor>::empty());
        assert(toks@ =~= spec_tokens_of_probe(p@));
    }
    toks
}

/// Prints a probe result in its wire form.
pub fn serialize_probe(p: &Probe) -> (r: String)
    ensures
        r@ == spec_serialize_probe(p@),
{
    let toks = tokens_of_probe(p);
    let mut s = String::new();
    let n = toks.len();
    let mut i: usize = 0;
    proof {
        assert(toks@.skip(0) =~= toks@);
        assert(s@ + spec_hex16_stream(toks@) =~= spec_hex16_stream(toks@));
    }
    while i < n
        invariant
            n == toks@.len(),
            toks@ == spec_tokens_of_probe(p@),
            0 <= i <= n,
            s@ + spec_hex16_stream(toks@.skip(i as int)) == spec_hex16_stream(toks@),
        decreases n - i,
    {
        let ghost before = toks@.skip(i as int);
        let h = u64_to_hex16(toks[i]);
        s.append(h.as_str());
        i += 1;
        proof {
            assert(before[0] == toks@[i - 1]);
            assert(before.drop_first() =~= toks@.skip(i as int));
            assert(s@ + spec_hex16_stream(toks@.skip(i as int)) =~= spec_hex16_stream(toks@));
        }
    }
    proof {
        assert(toks@.skip(n as int) =~= Seq::<u64>::empty());
        assert(s@ =~= spec_hex16_stream(toks@));
    }
    s
}

// ---------------------------------------------------------------------------
// Text -> values
// ---------------------------------------------------------------------------

/// Splits the wire text back into its values: the length must be a
/// multiple of sixteen and every character a hex digit.
pub open spec fn spec_tokens_of_stream(s: Seq<char>) -> Option<Seq<u64>>
    decreases s.len(),
{
    if s.len() == 0 {
        Some(Seq::<u64>::empty())
    } else if s.len() < 16 {
        None
    } else if !all_hex_digits(s.take(16)) {
        None
    } else {
        match spec_tokens_of_stream(s.skip(16)) {
            Some(ts) => Some(seq![hex_val(s.take(16)) as u64] + ts),
            None => None,
        }
    }
}

pub open spec fn spec_join_tokens(prefix: Seq<u64>, rest: Option<Seq<u64>>) -> Option<Seq<u64>> {
    match rest {
        Some(ts) => Some(prefix + ts),
        None => None,
    }
}

proof fn lemma_pow16_mono(a: nat, b: nat)
    requires
        a <= b,
    ensures
        pow16(a) <= pow16(b),
    decreases b - a,
{
    if a < b {
        lemma_pow16_mono(a, (b - 1) as nat);
    }
}

/// Reads the wire text back into its values.
fn stream_tokens(s: &str) -> (r: Option<Vec<u64>>)
    ensures
        match spec_tokens_of_stream(s@) {
            Some(ts) => r matches Some(v) && v@ == ts,
            None => r is None,
        },
{
    let len = s.unicode_len();
    let mut toks: Vec<u64> = Vec::new();
    let mut i: usize = 0;
    proof {
        assert(s@.skip(0) =~= s@);
        assert(spec_tokens_of_stream(s@) == spec_join_tokens(
            toks@,
            spec_tokens_of_stream(s@),
        )) by {
            match spec_tokens_of_stream(s@) {
                Some(ts) => {
                    assert(toks@ + ts =~= ts);
                },
                None => {
                },
            }
        }
    }
    while i < len
        invariant
            len == s@.len(),
            0 <= i <= len,
            spec_tokens_of_stream(s@) == spec_join_tokens(
                toks@,
                spec_tokens_of_stream(s@.skip(i as int)),
            ),
        decreases len - i,
    {
        if len - i < 16 {
            proof {
                assert(s@.skip(i as int).len() == len - i);
                assert(spec_tokens_of_stream(s@.skip(i as int)) is None);
            }
            return None;
        }
        let mut val: u64 = 0;
        let mut j: usize = 0;
        while j < 16
            invariant
                len == s@.len(),
                0 <= i,
                i + 16 <= len,
                0 <= j <= 16,
                all_hex_digits(s@.subrange(i as int, i + j)),
                val as nat == hex_val(s@.subrange(i as int, i + j)),
                spec_tokens_of_stream(s@) == spec_join_tokens(
                    toks@,
                    spec_tokens_of_stream(s@.skip(i as int)),
                ),
            decreases 16 - j,
        {
            let c = s.get_char(i + j);
            let d: u64 = match c {
                '0' => 0,
                '1' => 1,
                '2' => 2,
                '3' => 3,
                '4' => 4,
                '5' => 5,
                '6' => 6,
                '7' => 7,
                '8' => 8,
                '9' => 9,
                'a' | 'A' => 10,
                'b' | 'B' => 11,
                'c' | 'C' => 12,
                'd' | 'D' => 13,
                'e' | 'E' => 14,
                'f' | 'F' => 15,
                _ => {
                    proof {
                        assert(!crate::numerals::is_hex_digit(s@[i + j]));
                        assert(!all_hex_digits(s@.skip(i as int).take(16))) by {
                            assert(s@.skip(i as int).take(16)[j as int] == s@[i + j]);
                        }
                        assert(s@.skip(i as int).len() >= 16);
                        assert(spec_tokens_of_stream(s@.skip(i as int)) is None);
                    }
                    return None;
                },
            };
            proof {
                lemma_hex_val_bound(s@.subrange(i as int, i + j));
                lemma_pow16_mono(j as nat, 15);
                lemma_pow16_16();
                assert(pow16(15) * 16 == pow16(16));
                assert(val * 16 + d < pow16(16)) by {
                    assert(val as nat <= pow16(15) - 1);
                    assert(val * 16 <= (pow16(15) - 1) * 16) by (nonlinear_arith)
                        requires
                            val as nat <= pow16(15) - 1,
                    ;
                }
                assert(s@.subrange(i as int, i + j + 1).drop_last() =~= s@.subrange(
                    i as int,
                    i + j,
                ));
                assert(s@.subrange(i as int, i + j + 1).last() == s@[i + j]);
                assert(forall|k: int|
                    0 <= k < j + 1 ==> #[trigger] s@.subrange(i as int, i + j + 1)[k] == s@.subrange(
                        i as int,
                        i + j,
                    ).push(s@[i + j])[k]);
            }
            val = val * 16 + d;
            j += 1;
        }
        let ghost sub = s@.subrange(i as int, i + 16);
        proof {
            assert(s@.skip(i as int).take(16) =~= sub);
            assert(s@.skip(i as int).skip(16) =~= s@.skip(i + 16));
            assert(s@.skip(i as int).len() >= 16);
            assert(hex_val(sub) as u64 == val);
        }
        let ghost toks_before = toks@;
        toks.push(val);
        i = i + 16;
        proof {
            assert(spec_tokens_of_stream(s@) == spec_join_tokens(
                toks@,
                spec_tokens_of_stream(s@.skip(i as int)),
            )) by {
                match spec_tokens_of_stream(s@.skip(i as int)) {
                    Some(rest) => {
                        assert(toks_before + (seq![val] + rest) =~= toks@ + rest);
                    },
                    None => {
                    },
                }
            }
        }
    }
    proof {
        assert(s@.skip(len as int) =~= Seq::<char>::empty());
        assert(spec_tokens_of_stream(s@) matches Some(ts) && toks@ =~= ts);
    }
    Some(toks)
}

// ---------------------------------------------------------------------------
// Values -> record
// ---------------------------------------------------------------------------

/// Reads one optional name; yields the rest of the values.
pub open spec fn spec_take_opt_name(ts: Seq<u64>) -> Option<(Option<Seq<char>>, Seq<u64>)> {
    if ts.len() == 0 {
        None
    } else if ts[0] == 0 {
        Some((None, ts.drop_first()))
    } else if ts[0] == 1 {
        if ts.len() >= 2 + ts[1] {
            let btoks = ts.subrange(2, 2 + ts[1]);
            if forall|k: int| 0 <= k < btoks.len() ==> btoks[k] < 256 {
                if valid_utf8(btoks.map_values(|t: u64| t as u8)) {
                    Some(
                        (
                            Some(decode_utf8(btoks.map_values(|t: u64| t as u8))),
                            ts.skip(2 + ts[1]),
                        ),
                    )
                } else {
                    None
                }
            } else {
                None
            }
        } else {
            None
        }
    } else {
        None
    }
}

/// Reads one window.
pub open spec fn spec_take_window(ts: Seq<u64>) -> Option<(WindowView, Seq<u64>)> {
    if ts.len() >= 5 && ts[1] <= 0xFFFF_FFFFu64 && ts[2] <= 0xFFFF_FFFFu64 && ts[3]
        <= 0xFFFF_FFFFu64 && ts[4] <= 0xFFFF_FFFFu64 {
        match spec_take_opt_name(ts.skip(5)) {
            Some((name, ts2)) => match spec_take_opt_name(ts2) {
                Some((wm_name, rest)) => Some(
                    (
                        WindowView {
                            id: ts[0],
                            x: spec_unbias32(ts[1]),
                            y: spec_unbias32(ts[2]),
                            width: spec_unbias32(ts[3]),
                            height: spec_unbias32(ts[4]),
                            name,
                            wm_name,
                        },
                        rest,
                    ),
                ),
                None => None,
            },
            None => None,
        }
    } else {
        None
    }
}

/// Reads `n` windows.
pub open spec fn spec_take_windows(ts: Seq<u64>, n: nat) -> Option<(Seq<WindowView>, Seq<u64>)>
    decreases n,
{
    if n == 0 {
        Some((Seq::<WindowView>::empty(), ts))
    } else {
        match spec_take_window(ts) {
            Some((w, rest)) => match spec_take_windows(rest, (n - 1) as nat) {
                Some((ws, rest2)) => Some((seq![w] + ws, rest2)),
                None => None,
            },
            None => None,
        }
    }
}

/// Reads one monitor.
pub open spec fn spec_take_monitor(ts: Seq<u64>) -> Option<(Monitor, Seq<u64>)> {
    if ts.len() >= 5 && ts[0] <= 0xFFFF_FFFFu64 && ts[1] <= 0xFFFFu64 && ts[2] <= 0xFFFFu64
        && ts[3] <= 0xFFFFu64 && ts[4] <= 0xFFFFu64 {
        Some(
            (
                Monitor {
                    id: spec_unbias32(ts[0]),
                    x: spec_unbias16(ts[1]),
                    y: spec_unbias16(ts[2]),
                    width: spec_unbias16(ts[3]),
                    height: spec_unbias16(ts[4]),
                },
                ts.skip(5),
            ),
        )
    } else {
        None
    }
}

/// Reads `n` monitors.
pub open spec fn spec_take_monitors(ts: Seq<u64>, n: nat) -> Option<(Seq<Monitor>, Seq<u64>)>
    decreases n,
{
    if n == 0 {
        Some((Seq::<Monitor>::empty(), ts))
    } else {
        match spec_take_monitor(ts) {
            Some((m, rest)) => match spec_take_monitors(rest, (n - 1) as nat) {
                Some((ms, rest2)) => Some((seq![m] + ms, rest2)),
                None => None,
            },
            None => None,
        }
    }
}

/// Reads the whole record; trailing values are rejected.
pub open spec fn spec_probe_of_tokens(ts: Seq<u64>) -> Option<ProbeView> {
    if ts.len() >= 1 {
        match spec_take_windows(ts.drop_first(), ts[0] as nat) {
            Some((ws, ts2)) => if ts2.len() >= 1 {
                match spec_take_monitors(ts2.drop_first(), ts2[0] as nat) {
                    Some((ms, rest)) => if rest.len() == 0 {
                        Some(ProbeView { windows: ws, monitors: ms })
                    } else {
                        None
                    },
                    None => None,
                }
            } else {
                None
            },
            None => None,
        }
    } else {
        None
    }
}

/// What a wire text denotes, if anything.
pub open spec fn spec_parse_probe(s: Seq<char>) -> Option<ProbeView> {
    match spec_tokens_of_stream(s) {
        Some(ts) => spec_probe_of_tokens(ts),
        None => None,
    }
}

// ---------------------------------------------------------------------------
// Parser
// ---------------------------------------------------------------------------

/// Relies on String::from_utf8: it succeeds exactly on well-formed
/// UTF-8 input, and the returned string's bytes are the input bytes.
#[verifier::external_body]
fn string_from_utf8(v: Vec<u8>) -> (r: Option<String>)
    ensures
        r is Some <==> valid_utf8(v@),
        r matches Some(s) ==> encode_utf8(s@) == v@,
{
    String::from_utf8(v).ok()
}

/// Reads one optional name starting at value `i`.
fn take_opt_name(ts: &Vec<u64>, i: usize) -> (r: Option<(Option<String>, usize)>)
    requires
        i <= ts@.len(),
    ensures
        match spec_take_opt_name(ts@.skip(i as int)) {
            Some((nv, rest)) => r matches Some((n, j)) && view_of_opt_string(n) == nv && i < j
                <= ts@.len() && ts@.skip(j as int) == rest,
            None => r is None,
        },
{
    let len = ts.len();
    if i >= len {
        return None;
    }
    let t0 = ts[i];
    if t0 == 0 {
        proof {
            assert(ts@.skip(i as int).drop_first() =~= ts@.skip(i + 1));
        }
        Some((None, i + 1))
    } else if t0 == 1 {
        if len - i < 2 {
            proof {
                assert(ts@.skip(i as int).len() < 2 + ts@.skip(i as int)[1]);
            }
            return None;
        }
        let n64 = ts[i + 1];
        if n64 > (len - i - 2) as u64 {
            proof {
                assert(ts@.skip(i as int).len() < 2 + ts@.skip(i as int)[1]);
            }
            return None;
        }
        let n = n64 as usize;
        let ghost btoks = ts@.skip(i as int).subrange(2, 2 + ts@.skip(i as int)[1]);
        proof {
            assert(btoks =~= ts@.subrange(i + 2, i + 2 + n));
        }
        let mut bytes: Vec<u8> = Vec::new();
        let mut k: usize = 0;
        while k < n
            invariant
                i + 2 + n <= ts@.len(),
                ts@.len() <= usize::MAX,
                ts@[i as int] == 1,
                ts@[i + 1] == n as u64,
                btoks == ts@.subrange(i + 2, i + 2 + n),
                0 <= k <= n,
                forall|q: int| 0 <= q < k ==> btoks[q] < 256,
                bytes@ == btoks.take(k as int).map_values(|t: u64| t as u8),
            decreases n - k,
        {
            let b = ts[i + 2 + k];
            if b > 255 {
                proof {
                    assert(ts@.skip(i as int)[0] == 1);
                    assert(ts@.skip(i as int)[1] == n as u64);
                    assert(ts@.skip(i as int).subrange(2, 2 + ts@.skip(i as int)[1]) =~= btoks);
                    assert(btoks[k as int] == b);
                }
                return None;
            }
            bytes.push(b as u8);
            k += 1;
            proof {
                assert(btoks.take(k as int).map_values(|t: u64| t as u8) =~= btoks.take(k - 1)
                    .map_values(|t: u64| t as u8).push(btoks[k - 1] as u8));
            }
        }
        proof {
            assert(btoks.take(n as int) =~= btoks);
            assert(forall|q: int| 0 <= q < btoks.len() ==> btoks[q] < 256);
        }
        match string_from_utf8(bytes) {
            Some(st) => {
                proof {
                    encode_utf8_decode_utf8(st@);
                    assert(bytes@ == btoks.map_values(|t: u64| t as u8));
                    assert(st@ == decode_utf8(btoks.map_values(|t: u64| t as u8)));
                    assert(ts@.skip(i as int).skip(2 + ts@.skip(i as int)[1]) =~= ts@.skip(
                        i + 2 + n,
                    ));
                }
                Some((Some(st), i + 2 + n))
            },
            None => {
                proof {
                    assert(bytes@ == btoks.map_values(|t: u64| t as u8));
                }
                None
            },
        }
    } else {
        None
    }
}

fn unbias32(t: u64) -> (r: i32)
    requires
        t <= 0xFFFF_FFFFu64,
    ensures
        r == spec_unbias32(t),
{
    ((t as i64) - (BIAS32 as i64)) as i32
}

fn unbias16(t: u64) -> (r: i16)
    requires
        t <= 0xFFFFu64,
    ensures
        r == spec_unbias16(t),
{
    ((t as i64) - (BIAS16 as i64)) as i16
}

/// Reads one window starting at value `i`.
fn take_window(ts: &Vec<u64>, i: usize) -> (r: Option<(Window, usize)>)
    requires
        i <= ts@.len(),
    ensures
        match spec_take_window(ts@.skip(i as int)) {
            Some((wv, rest)) => r matches Some((w, j)) && w@ == wv && i < j <= ts@.len()
                && ts@.skip(j as int) == rest,
            None => r is None,
        },
{
    let len = ts.len();
    if len - i < 5 {
        return None;
    }
    if ts[i + 1] > 0xFFFF_FFFF || ts[i + 2] > 0xFFFF_FFFF || ts[i + 3] > 0xFFFF_FFFF || ts[i + 4]
        > 0xFFFF_FFFF {
        return None;
    }
    proof {
        assert(ts@.skip(i as int).skip(5) =~= ts@.skip(i + 5));
    }
    match take_opt_name(ts, i + 5) {
        Some((name, j2)) => {
            match take_opt_name(ts, j2) {
                Some((wm_name, j3)) => {
                    let w = Window {
                        id: ts[i],
                        x: unbias32(ts[i + 1]),
                        y: unbias32(ts[i + 2]),
                        width: unbias32(ts[i + 3]),
                        height: unbias32(ts[i + 4]),
                        name,
                        wm_name,
                    };
                    Some((w, j3))
                },
                None => None,
            }
        },
        None => None,
    }
}

/// Reads one monitor starting at value `i`.
fn take_monitor(ts: &Vec<u64>, i: usize) -> (r: Option<(Monitor, usize)>)
    requires
        i <= ts@.len(),
    ensures
        match spec_take_monitor(ts@.skip(i as int)) {
            Some((mv, rest)) => r matches Some((m, j)) && m == mv && i < j <= ts@.len()
                && ts@.skip(j as int) == rest,
            None => r is None,
        },
{
    let len = ts.len();
    if len - i < 5 {
        return None;
    }
    if ts[i] > 0xFFFF_FFFF || ts[i + 1] > 0xFFFF || ts[i + 2] > 0xFFFF || ts[i + 3] > 0xFFFF || ts[i
        + 4] > 0xFFFF {
        return None;
    }
    proof {
        assert(ts@.skip(i as int).skip(5) =~= ts@.skip(i + 5));
    }
    let m = Monitor {
        id: unbias32(ts[i]),
        x: unbias16(ts[i + 1]),
        y: unbias16(ts[i + 2]),
        width: unbias16(ts[i + 3]),
        height: unbias16(ts[i + 4]),
    };
    Some((m, i + 5))
}

/// Reads a probe result back from its wire text; rejects anything the
/// writer cannot have produced, including trailing data.
pub fn parse_probe(s: &str) -> (r: Option<Probe>)
    ensures
        match spec_parse_probe(s@) {
            Some(pv) => r matches Some(p) && p@ == pv,
            None => r is None,
        },
{
    let toks = match stream_tokens(s) {
        Some(t) => t,
        None => {
            return None;
        },
    };
    if toks.len() == 0 {
        return None;
    }
    let nw = toks[0];
    let ghost after_count = toks@.drop_first();
    proof {
        assert(after_count =~= toks@.skip(1));
    }
    let mut windows: Vec<Window> = Vec::new();
    let mut i: usize = 1;
    let mut k: u64 = 0;
    while k < nw
        invariant
            1 <= i <= toks@.len(),
            0 <= k <= nw,
            nw == toks@[0],
            toks@.len() >= 1,
            toks@.len() <= usize::MAX,
            spec_tokens_of_stream(s@) == Some(toks@),
            spec_take_windows(toks@.skip(1), nw as nat) == match spec_take_windows(
                toks@.skip(i as int),
                (nw - k) as nat,
            ) {
                Some((ws, rest)) => Some::<(Seq<WindowView>, Seq<u64>)>(
                    (windows@.map_values(|w: Window| w@) + ws, rest),
                ),
                None => None::<(Seq<WindowView>, Seq<u64>)>,
            },
        decreases nw - k,
    {
        match take_window(&toks, i) {
            Some((w, j)) => {
                windows.push(w);
                i = j;
                k += 1;
                proof {
                    match spec_take_windows(toks@.skip(i as int), (nw - k) as nat) {
                        Some((ws, rest)) => {
                            assert(windows@.drop_last().map_values(|w0: Window| w0@).push(w@)
                                =~= windows@.map_values(|w0: Window| w0@));
                            assert(windows@.drop_last().map_values(|w0: Window| w0@) + (seq![w@]
                                + ws) =~= windows@.map_values(|w0: Window| w0@) + ws);
                        },
                        None => {
                        },
                    }
                }
            },
            None => {
                proof {
                    assert(toks@.drop_first() =~= toks@.skip(1));
                }
                return None;
            },
        }
    }
    if toks.len() - i < 1 {
        proof {
            assert(toks@.drop_first() =~= toks@.skip(1));
            assert(toks@.skip(i as int).len() == 0);
        }
        return None;
    }
    let nm = toks[i];
    let ghost mon_start = i;
    proof {
        assert(toks@.skip(mon_start as int).drop_first() =~= toks@.skip(mon_start + 1));
        assert(toks@.skip(i as int).len() == toks@.len() - i);
        assert(spec_take_windows(toks@.skip(1), nw as nat) == Some::<(Seq<WindowView>, Seq<u64>)>(
            (windows@.map_values(|w: Window| w@), toks@.skip(mon_start as int)),
        )) by {
            assert(windows@.map_values(|w: Window| w@) + Seq::<WindowView>::empty() =~= windows@
                .map_values(|w: Window| w@));
        }
    }
    let mut monitors: Vec<Monitor> = Vec::new();
    let mut q: u64 = 0;
    let mut j: usize = i + 1;
    while q < nm
        invariant
            1 <= j <= toks@.len(),
            0 <= q <= nm,
            toks@.len() >= 1,
            nw == toks@[0],
            spec_tokens_of_stream(s@) == Some(toks@),
            1 <= mon_start < toks@.len(),
            nm == toks@[mon_start as int],
            spec_take_windows(toks@.skip(1), nw as nat) == Some::<(Seq<WindowView>, Seq<u64>)>(
                (windows@.map_values(|w: Window| w@), toks@.skip(mon_start as int)),
            ),
            spec_take_monitors(toks@.skip(mon_start + 1), nm as nat) == match spec_take_monitors(
                toks@.skip(j as int),
                (nm - q) as nat,
            ) {
                Some((ms, rest)) => Some::<(Seq<Monitor>, Seq<u64>)>((monitors@ + ms, rest)),
                None => None::<(Seq<Monitor>, Seq<u64>)>,
            },
        decreases nm - q,
    {
        match take_monitor(&toks, j) {
            Some((m, j2)) => {
                monitors.push(m);
                j = j2;
                q += 1;
                proof {
                    match spec_take_monitors(toks@.skip(j as int), (nm - q) as nat) {
                        Some((ms, rest)) => {
                            assert(monitors@.drop_last() + (seq![m] + ms) =~= monitors@ + ms);
                        },
                        None => {
                        },
                    }
                }
            },
            None => {
                proof {
                    assert(toks@.drop_first() =~= toks@.skip(1));
                    assert(toks@.skip(mon_start as int).drop_first() =~= toks@.skip(
                        mon_start + 1,
                    ));
                }
                return None;
            },
        }
    }
    if j != toks.len() {
        proof {
            assert(toks@.drop_first() =~= toks@.skip(1));
            assert(toks@.skip(mon_start as int).drop_first() =~= toks@.skip(mon_start + 1));
            assert(toks@.skip(j as int).len() != 0);
        }
        return None;
    }
    proof {
        assert(toks@.drop_first() =~= toks@.skip(1));
        assert(toks@.skip(mon_start as int).drop_first() =~= toks@.skip(mon_start + 1));
        assert(toks@.skip(j as int).len() == 0);
        assert(toks@.skip(j as int) =~= Seq::<u64>::empty());
        assert(monitors@ + Seq::<Monitor>::empty() =~= monitors@);
    }
    let p = Probe { windows, monitors };
    Some(p)
}

// ---------------------------------------------------------------------------
// Round trip
// ---------------------------------------------------------------------------

/// A name the wire can carry: its byte count fits the count value.
/// Every name held in memory satisfies this.
pub open spec fn spec_name_encodable(n: Option<Seq<char>>) -> bool {
    match n {
        None => true,
        Some(cs) => encode_utf8(cs).len() <= u64::MAX,
    }
}

pub open spec fn spec_window_encodable(w: WindowView) -> bool {
    spec_name_encodable(w.name) && spec_name_encodable(w.wm_name)
}

/// A record the wire can carry: counts fit their values. Every record
/// held in memory satisfies this.
pub open spec fn spec_probe_encodable(p: ProbeView) -> bool {
    p.windows.len() <= u64::MAX && p.monitors.len() <= u64::MAX && (forall|i: int|
        0 <= i < p.windows.len() ==> spec_window_encodable(#[trigger] p.windows[i]))
}

proof fn lemma_take_opt_name_roundtrip(nm: Option<Seq<char>>, rest: Seq<u64>)
    requires
        spec_name_encodable(nm),
    ensures
        spec_take_opt_name(spec_tokens_of_opt_name(nm) + rest) == Some((nm, rest)),
{
    let ts = spec_tokens_of_opt_name(nm) + rest;
    match nm {
        None => {
            assert(ts[0] == 0);
            assert(ts.drop_first() =~= rest);
        },
        Some(cs) => {
            let bytes = encode_utf8(cs);
            let l = bytes.len() as int;
            assert(ts[0] == 1);
            assert(ts[1] == l as u64);
            assert(ts.len() == 2 + l + rest.len());
            let btoks = ts.subrange(2, 2 + ts[1]);
            assert(btoks =~= bytes.map_values(|b: u8| b as u64));
            assert(forall|q: int| 0 <= q < btoks.len() ==> btoks[q] < 256);
            assert(btoks.map_values(|t: u64| t as u8) =~= bytes);
            encode_utf8_valid_utf8(cs);
            encode_utf8_decode_utf8(cs);
            assert(ts.skip(2 + ts[1]) =~= rest);
        },
    }
}

proof fn lemma_take_window_roundtrip(w: WindowView, rest: Seq<u64>)
    requires
        spec_window_encodable(w),
    ensures
        spec_take_window(spec_tokens_of_window(w) + rest) == Some((w, rest)),
{
    let ts = spec_tokens_of_window(w) + rest;
    let toks_name = spec_tokens_of_opt_name(w.name);
    let toks_wm = spec_tokens_of_opt_name(w.wm_name);
    assert(ts[0] == w.id);
    assert(ts[1] == spec_bias32(w.x));
    assert(ts[2] == spec_bias32(w.y));
    assert(ts[3] == spec_bias32(w.width));
    assert(ts[4] == spec_bias32(w.height));
    assert(ts.len() >= 5);
    assert(ts.skip(5) =~= toks_name + (toks_wm + rest));
    lemma_take_opt_name_roundtrip(w.name, toks_wm + rest);
    lemma_take_opt_name_roundtrip(w.wm_name, rest);
    assert(spec_unbias32(spec_bias32(w.x)) == w.x);
    assert(spec_unbias32(spec_bias32(w.y)) == w.y);
    assert(spec_unbias32(spec_bias32(w.width)) == w.width);
    assert(spec_unbias32(spec_bias32(w.height)) == w.height);
}

proof fn lemma_take_windows_roundtrip(ws: Seq<WindowView>, rest: Seq<u64>)
    requires
        forall|i: int| 0 <= i < ws.len() ==> spec_window_encodable(#[trigger] ws[i]),
    ensures
        spec_take_windows(spec_tokens_of_windows(ws) + rest, ws.len()) == Some((ws, rest)),
    decreases ws.len(),
{
    if ws.len() == 0 {
        assert(spec_tokens_of_windows(ws) + rest =~= rest);
        assert(Seq::<WindowView>::empty() =~= ws);
    } else {
        let tok0 = spec_tokens_of_window(ws[0]);
        let toksrest = spec_tokens_of_windows(ws.drop_first());
        assert(spec_tokens_of_windows(ws) + rest =~= tok0 + (toksrest + rest));
        lemma_take_window_roundtrip(ws[0], toksrest + rest);
        lemma_take_windows_roundtrip(ws.drop_first(), rest);
        assert(seq![ws[0]] + ws.drop_first() =~= ws);
    }
}

proof fn lemma_take_monitor_roundtrip(m: Monitor, rest: Seq<u64>)
    ensures
        spec_take_monitor(spec_tokens_of_monitor(m) + rest) == Some((m, rest)),
{
    let ts = spec_tokens_of_monitor(m) + rest;
    assert(ts[0] == spec_bias32(m.id));
    assert(ts[1] == spec_bias16(m.x));
    assert(ts[2] == spec_bias16(m.y));
    assert(ts[3] == spec_bias16(m.width));
    assert(ts[4] == spec_bias16(m.height));
    assert(ts.skip(5) =~= rest);
    assert(spec_unbias32(spec_bias32(m.id)) == m.id);
    assert(spec_unbias16(spec_bias16(m.x)) == m.x);
    assert(spec_unbias16(spec_bias16(m.y)) == m.y);
    assert(spec_unbias16(spec_bias16(m.width)) == m.width);
    assert(spec_unbias16(spec_bias16(m.height)) == m.height);
}

proof fn lemma_take_monitors_roundtrip(ms: Seq<Monitor>, rest: Seq<u64>)
    ensures
        spec_take_monitors(spec_tokens_of_monitors(ms) + rest, ms.len()) == Some((ms, rest)),
    decreases ms.len(),
{
    if ms.len() == 0 {
        assert(spec_tokens_of_monitors(ms) + rest =~= rest);
        assert(Seq::<Monitor>::empty() =~= ms);
    } else {
        let tok0 = spec_tokens_of_monitor(ms[0]);
        let toksrest = spec_tokens_of_monitors(ms.drop_first());
        assert(spec_tokens_of_monitors(ms) + rest =~= tok0 + (toksrest + rest));
        lemma_take_monitor_roundtrip(ms[0], toksrest + rest);
        lemma_take_monitors_roundtrip(ms.drop_first(), rest);
        assert(seq![ms[0]] + ms.drop_first() =~= ms);
    }
}

proof fn lemma_probe_tokens_roundtrip(p: ProbeView)
    requires
        spec_probe_encodable(p),
    ensures
        spec_probe_of_tokens(spec_tokens_of_probe(p)) == Some(p),
{
    let ts = spec_tokens_of_probe(p);
    let wtoks = spec_tokens_of_windows(p.windows);
    let mtoks = spec_tokens_of_monitors(p.monitors);
    let tail = seq![p.monitors.len() as u64] + mtoks;
    assert(ts[0] == p.windows.len() as u64);
    assert(ts.drop_first() =~= wtoks + tail);
    lemma_take_windows_roundtrip(p.windows, tail);
    assert((p.windows.len() as u64) as nat == p.windows.len());
    assert(tail[0] == p.monitors.len() as u64);
    assert(tail.drop_first() =~= mtoks + Seq::<u64>::empty());
    assert(mtoks + Seq::<u64>::empty() =~= mtoks);
    lemma_take_monitors_roundtrip(p.monitors, Seq::<u64>::empty());
    assert((p.monitors.len() as u64) as nat == p.monitors.len());
}

proof fn lemma_hex16_stream_roundtrip(ts: Seq<u64>)
    ensures
        spec_tokens_of_stream(spec_hex16_stream(ts)) == Some(ts),
    decreases ts.len(),
{
    if ts.len() == 0 {
        assert(Seq::<u64>::empty() =~= ts);
    } else {
        let s = spec_hex16_stream(ts);
        lemma_pow16_16();
        lemma_hex_chars_fixed_val(ts[0] as nat, 16);
        assert(s.take(16) =~= hex_chars_fixed(ts[0] as nat, 16));
        assert(s.len() >= 16);
        assert(hex_val(s.take(16)) as u64 == ts[0]);
        assert(s.skip(16) =~= spec_hex16_stream(ts.drop_first()));
        lemma_hex16_stream_roundtrip(ts.drop_first());
        assert(seq![ts[0]] + ts.drop_first() =~= ts);
    }
}

/// Round trip: the wire text printed for any representable probe
/// result reads back as exactly that result. Every result actually
/// held in memory is representable, so the two independently built
/// sides agree on the format.
pub proof fn lemma_probe_wire_roundtrip(p: ProbeView)
    requires
        spec_probe_encodable(p),
    ensures
        spec_parse_probe(spec_serialize_probe(p)) == Some(p),
{
    lemma_hex16_stream_roundtrip(spec_tokens_of_probe(p));
    lemma_probe_tokens_roundtrip(p);
}

} // verus!
