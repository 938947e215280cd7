//! Decimal and hexadecimal numerals over character sequences.
//!
//! The selector protocol prints ids in decimal and reads decimal and
//! `0x`-prefixed hexadecimal; the probe wire format carries every value
//! as a fixed-width hexadecimal group. Everything here is ordinary
//! verified code: the spec functions say what a numeral denotes and the
//! executable functions are proved against them.

use vstd::prelude::*;

verus! {

use vstd::string::StringExecFns;

// ---------------------------------------------------------------------------
// Digits
// ---------------------------------------------------------------------------

pub open spec fn is_dec_digit(c: char) -> bool {
    c == '0' || c == '1' || c == '2' || c == '3' || c == '4' || c == '5' || c == '6' || c == '7'
        || c == '8' || c == '9'
}

pub open spec fn dec_digit_val(c: char) -> nat {
    if c == '0' {
        0
    } else if c == '1' {
        1
    } else if c == '2' {
        2
    } else if c == '3' {
        3
    } else if c == '4' {
        4
    } else if c == '5' {
        5
    } else if c == '6' {
        6
    } else if c == '7' {
        7
    } else if c == '8' {
        8
    } else {
        9
    }
}

pub open spec fn dec_digit_char(d: nat) -> char {
    if d == 0 {
        '0'
    } else if d == 1 {
        '1'
    } else if d == 2 {
        '2'
    } else if d == 3 {
        '3'
    } else if d == 4 {
        '4'
    } else if d == 5 {
        '5'
    } else if d == 6 {
        '6'
    } else if d == 7 {
        '7'
    } else if d == 8 {
        '8'
    } else {
        '9'
    }
}

pub open spec fn is_hex_digit(c: char) -> bool {
    is_dec_digit(c) || c == 'a' || c == 'b' || c == 'c' || c == 'd' || c == 'e' || c == 'f'
        || c == 'A' || c == 'B' || c == 'C' || c == 'D' || c == 'E' || c == 'F'
}

pub open spec fn hex_digit_val(c: char) -> nat {
    if is_dec_digit(c) {
        dec_digit_val(c)
    } else if c == 'a' || c == 'A' {
        10
    } else if c == 'b' || c == 'B' {
        11
    } else if c == 'c' || c == 'C' {
        12
    } else if c == 'd' || c == 'D' {
        13
    } else if c == 'e' || c == 'E' {
        14
    } else {
        15
    }
}

/// Lower-case digit used when printing hexadecimal.
pub open spec fn hex_digit_char(d: nat) -> char {
    if d < 10 {
        dec_digit_char(d)
    } else if d == 10 {
        'a'
    } else if d == 11 {
        'b'
    } else if d == 12 {
        'c'
    } else if d == 13 {
        'd'
    } else if d == 14 {
        'e'
    } else {
        'f'
    }
}

pub proof fn lemma_dec_digit_roundtrip(d: nat)
    requires
        d < 10,
    ensures
        is_dec_digit(dec_digit_char(d)),
        dec_digit_val(dec_digit_char(d)) == d,
{
}

pub proof fn lemma_hex_digit_roundtrip(d: nat)
    requires
        d < 16,
    ensures
        is_hex_digit(hex_digit_char(d)),
        hex_digit_val(hex_digit_char(d)) == d,
{
}

fn dec_digit_string(d: u64) -> (r: String)
    requires
        d < 10,
    ensures
        r@ == seq![dec_digit_char(d as nat)],
{
    proof {
        reveal_strlit("0");
        reveal_strlit("1");
        reveal_strlit("2");
        reveal_strlit("3");
        reveal_strlit("4");
        reveal_strlit("5");
        reveal_strlit("6");
        reveal_strlit("7");
        reveal_strlit("8");
        reveal_strlit("9");
    }
    let r = match d {
        0 => String::from_str("0"),
        1 => String::from_str("1"),
        2 => String::from_str("2"),
        3 => String::from_str("3"),
        4 => String::from_str("4"),
        5 => String::from_str("5"),
        6 => String::from_str("6"),
        7 => String::from_str("7"),
        8 => String::from_str("8"),
        _ => String::from_str("9"),
    };
    proof {
        assert(r@ =~= seq![dec_digit_char(d as nat)]);
    }
    r
}

fn hex_digit_string(d: u64) -> (r: String)
    requires
        d < 16,
    ensures
        r@ == seq![hex_digit_char(d as nat)],
{
    if d < 10 {
        dec_digit_string(d)
    } else {
        proof {
            reveal_strlit("a");
            reveal_strlit("b");
            reveal_strlit("c");
            reveal_strlit("d");
            reveal_strlit("e");
            reveal_strlit("f");
        }
        let r = match d {
            10 => String::from_str("a"),
            11 => String::from_str("b"),
            12 => String::from_str("c"),
            13 => String::from_str("d"),
            14 => String::from_str("e"),
            _ => String::from_str("f"),
        };
        proof {
            assert(r@ =~= seq![hex_digit_char(d as nat)]);
        }
        r
    }
}

// ---------------------------------------------------------------------------
// Printing decimal numerals
// ---------------------------------------------------------------------------

/// The decimal numeral of `n`, most significant digit first, no leading
/// zeros (the numeral of zero is "0").
pub open spec fn dec_chars(n: nat) -> Seq<char>
    decreases n,
{
    if n < 10 {
        seq![dec_digit_char(n)]
    } else {
        dec_chars(n / 10).push(dec_digit_char(n % 10))
    }
}

pub fn u64_to_dec(n: u64) -> (r: String)
    ensures
        r@ == dec_chars(n as nat),
    decreases n,
{
    if n < 10 {
        dec_digit_string(n)
    } else {
        let mut s = u64_to_dec(n / 10);
        let d = dec_digit_string(n % 10);
        s.append(d.as_str());
        proof {
            assert(s@ =~= dec_chars((n / 10) as nat).push(dec_digit_char((n % 10) as nat)));
        }
        s
    }
}

pub fn u32_to_dec(n: u32) -> (r: String)
    ensures
        r@ == dec_chars(n as nat),
{
    u64_to_dec(n as u64)
}

// ---------------------------------------------------------------------------
// Reading numerals
// ---------------------------------------------------------------------------

pub open spec fn all_dec_digits(s: Seq<char>) -> bool {
    forall|i: int| 0 <= i < s.len() ==> is_dec_digit(#[trigger] s[i])
}

pub open spec fn all_hex_digits(s: Seq<char>) -> bool {
    forall|i: int| 0 <= i < s.len() ==> is_hex_digit(#[trigger] s[i])
}

/// Value denoted by a decimal numeral (0 for the empty sequence).
pub open spec fn dec_val(s: Seq<char>) -> nat
    decreases s.len(),
{
    if s.len() == 0 {
        0
    } else {
        dec_val(s.drop_last()) * 10 + dec_digit_val(s.last())
    }
}

/// Value denoted by a hexadecimal numeral (0 for the empty sequence).
pub open spec fn hex_val(s: Seq<char>) -> nat
    decreases s.len(),
{
    if s.len() == 0 {
        0
    } else {
        hex_val(s.drop_last()) * 16 + hex_digit_val(s.last())
    }
}

proof fn lemma_dec_val_take_succ(s: Seq<char>, i: int)
    requires
        0 <= i < s.len(),
    ensures
        dec_val(s.take(i + 1)) == dec_val(s.take(i)) * 10 + dec_digit_val(s[i]),
{
    assert(s.take(i + 1).drop_last() =~= s.take(i));
    assert(s.take(i + 1).last() == s[i]);
}

proof fn lemma_hex_val_take_succ(s: Seq<char>, i: int)
    requires
        0 <= i < s.len(),
    ensures
        hex_val(s.take(i + 1)) == hex_val(s.take(i)) * 16 + hex_digit_val(s[i]),
{
    assert(s.take(i + 1).drop_last() =~= s.take(i));
    assert(s.take(i + 1).last() == s[i]);
}

proof fn lemma_dec_val_take_mono(s: Seq<char>, i: int, j: int)
    requires
        0 <= i <= j <= s.len(),
    ensures
        dec_val(s.take(i)) <= dec_val(s.take(j)),
    decreases j - i,
{
    if i < j {
        lemma_dec_val_take_mono(s, i, j - 1);
        lemma_dec_val_take_succ(s, j - 1);
    }
}

proof fn lemma_hex_val_take_mono(s: Seq<char>, i: int, j: int)
    requires
        0 <= i <= j <= s.len(),
    ensures
        hex_val(s.take(i)) <= hex_val(s.take(j)),
    decreases j - i,
{
    if i < j {
        lemma_hex_val_take_mono(s, i, j - 1);
        lemma_hex_val_take_succ(s, j - 1);
    }
}

/// A printed decimal numeral reads back as the number it was printed
/// from.
pub proof fn lemma_dec_chars_val(n: nat)
    ensures
        dec_chars(n).len() >= 1,
        all_dec_digits(dec_chars(n)),
        dec_val(dec_chars(n)) == n,
    decreases n,
{
    if n < 10 {
        lemma_dec_digit_roundtrip(n);
        assert(dec_chars(n).drop_last() =~= Seq::<char>::empty());
        assert(dec_chars(n).last() == dec_digit_char(n));
        assert(dec_val(dec_chars(n)) == dec_val(Seq::<char>::empty()) * 10 + dec_digit_val(
            dec_digit_char(n),
        ));
    } else {
        lemma_dec_chars_val(n / 10);
        lemma_dec_digit_roundtrip(n % 10);
        assert(dec_chars(n).drop_last() =~= dec_chars(n / 10));
        assert(dec_chars(n).last() == dec_digit_char(n % 10));
        assert(dec_val(dec_chars(n)) == (n / 10) * 10 + (n % 10));
        assert(forall|i: int|
            0 <= i < dec_chars(n).len() ==> is_dec_digit(#[trigger] dec_chars(n)[i]));
    }
}

/// Reads a decimal numeral; rejects the empty string, non-digits, and
/// values that do not fit in 32 bits.
pub fn parse_dec_u32(s: &str) -> (r: Option<u32>)
    ensures
        r is Some <==> (s@.len() > 0 && all_dec_digits(s@) && dec_val(s@) <= u32::MAX),
        r matches Some(v) ==> v as nat == dec_val(s@),
{
    let len = s.unicode_len();
    if len == 0 {
        return None;
    }
    let mut i: usize = 0;
    let mut val: u64 = 0;
    while i < len
        invariant
            0 < len == s@.len(),
            0 <= i <= len,
            all_dec_digits(s@.take(i as int)),
            val as nat == dec_val(s@.take(i as int)),
            val <= u32::MAX,
        decreases len - i,
    {
        let c = s.get_char(i);
        let d: u64 = match c {
            '0' => 0,
            '1' => 1,
            '2' => 2,
            '3' => 3,
            '4' => 4,
            '5' => 5,
            '6' => 6,
            '7' => 7,
            '8' => 8,
            '9' => 9,
            _ => {
                proof {
                    assert(!is_dec_digit(s@[i as int]));
                }
                return None;
            },
        };
        proof {
            lemma_dec_val_take_succ(s@, i as int);
        }
        let next: u64 = val * 10 + d;
        if next > 0xFFFF_FFFF {
            proof {
                lemma_dec_val_take_mono(s@, i as int + 1, s@.len() as int);
                assert(s@.take(s@.len() as int) =~= s@);
            }
            return None;
        }
        val = next;
        i += 1;
    }
    proof {
        assert(s@.take(len as int) =~= s@);
    }
    Some(val as u32)
}

/// Reads a hexadecimal numeral (either letter case); rejects the empty
/// string, non-digits, and values that do not fit in 32 bits.
pub fn parse_hex_u32(s: &str) -> (r: Option<u32>)
    ensures
        r is Some <==> (s@.len() > 0 && all_hex_digits(s@) && hex_val(s@) <= u32::MAX),
        r matches Some(v) ==> v as nat == hex_val(s@),
{
    let len = s.unicode_len();
    if len == 0 {
        return None;
    }
    let mut i: usize = 0;
    let mut val: u64 = 0;
    while i < len
        invariant
            0 < len == s@.len(),
            0 <= i <= len,
            all_hex_digits(s@.take(i as int)),
            val as nat == hex_val(s@.take(i as int)),
            val <= u32::MAX,
        decreases len - i,
    {
        let c = s.get_char(i);
        let d: u64 = match c {
            '0' => 0,
            '1' => 1,
            '2' => 2,
            '3' => 3,
            '4' => 4,
            '5' => 5,
            '6' => 6,
            '7' => 7,
            '8' => 8,
            '9' => 9,
            'a' | 'A' => 10,
            'b' | 'B' => 11,
            'c' | 'C' => 12,
            'd' | 'D' => 13,
            'e' | 'E' => 14,
            'f' | 'F' => 15,
            _ => {
                proof {
                    assert(!is_hex_digit(s@[i as int]));
                }
                return None;
            },
        };
        proof {
            lemma_hex_val_take_succ(s@, i as int);
        }
        let next: u64 = val * 16 + d;
        if next > 0xFFFF_FFFF {
            proof {
                lemma_hex_val_take_mono(s@, i as int + 1, s@.len() as int);
                assert(s@.take(s@.len() as int) =~= s@);
            }
            return None;
        }
        val = next;
        i += 1;
    }
    proof {
        assert(s@.take(len as int) =~= s@);
    }
    Some(val as u32)
}

// ---------------------------------------------------------------------------
// Fixed-width hexadecimal groups (the probe wire carrier)
// ---------------------------------------------------------------------------

pub open spec fn pow16(w: nat) -> nat
    decreases w,
{
    if w == 0 {
        1
    } else {
        16 * pow16((w - 1) as nat)
    }
}

pub proof fn lemma_pow16_16()
    ensures
        pow16(16) == 0x1_0000_0000_0000_0000,
{
    reveal_with_fuel(pow16, 17);
}

/// The numeral of `v` padded to exactly `w` hexadecimal digits.
pub open spec fn hex_chars_fixed(v: nat, w: nat) -> Seq<char>
    decreases w,
{
    if w == 0 {
        Seq::<char>::empty()
    } else {
        hex_chars_fixed(v / 16, (w - 1) as nat).push(hex_digit_char(v % 16))
    }
}

pub proof fn lemma_hex_chars_fixed_val(v: nat, w: nat)
    requires
        v < pow16(w),
    ensures
        hex_chars_fixed(v, w).len() == w,
        all_hex_digits(hex_chars_fixed(v, w)),
        hex_val(hex_chars_fixed(v, w)) == v,
    decreases w,
{
    if w == 0 {
    } else {
        lemma_hex_chars_fixed_val(v / 16, (w - 1) as nat);
        lemma_hex_digit_roundtrip(v % 16);
        assert(hex_chars_fixed(v, w).drop_last() =~= hex_chars_fixed(v / 16, (w - 1) as nat));
        assert(forall|i: int|
            0 <= i < hex_chars_fixed(v, w).len()
                ==> is_hex_digit(#[trigger] hex_chars_fixed(v, w)[i]));
    }
}

pub proof fn lemma_hex_val_bound(s: Seq<char>)
    ensures
        hex_val(s) < pow16(s.len()),
    decreases s.len(),
{
    if s.len() > 0 {
        lemma_hex_val_bound(s.drop_last());
    }
}

fn u64_to_hex_fixed(v: u64, w: usize) -> (r: String)
    ensures
        r@ == hex_chars_fixed(v as nat, w as nat),
    decreases w,
{
    if w == 0 {
        String::new()
    } else {
        let mut s = u64_to_hex_fixed(v / 16, w - 1);
        let d = hex_digit_string(v % 16);
        s.append(d.as_str());
        proof {
            assert(s@ =~= hex_chars_fixed((v / 16) as nat, (w - 1) as nat).push(
                hex_digit_char((v % 16) as nat),
            ));
        }
        s
    }
}

/// One wire group: the value printed as exactly sixteen hex digits.
pub fn u64_to_hex16(v: u64) -> (r: String)
    ensures
        r@ == hex_chars_fixed(v as nat, 16),
        r@.len() == 16,
{
    let r = u64_to_hex_fixed(v, 16);
    proof {
        lemma_pow16_16();
        lemma_hex_chars_fixed_val(v as nat, 16);
    }
    r
}

} // verus!
