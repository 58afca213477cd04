//! Verified numeric text handling: parsing decimal and radix integer
//! literals, and rendering an integer back to its plain decimal digits.

use vstd::prelude::*;

verus! {

pub open spec fn is_digit(c: char) -> bool {
    48 <= c as u32 && c as u32 <= 57
}

pub open spec fn digit_val(c: char) -> int {
    c as u32 - 48
}

pub open spec fn all_digits(t: Seq<char>) -> bool {
    forall|i: int| 0 <= i < t.len() ==> is_digit(#[trigger] t[i])
}

/// The value of a digit string read in base ten; junk characters contribute
/// their offset from `'0'` and are ruled out by the parsers' side conditions.
pub open spec fn dec_val(t: Seq<char>) -> int
    decreases t.len(),
{
    if t.len() == 0 {
        0
    } else {
        dec_val(t.drop_last()) * 10 + digit_val(t.last())
    }
}

/// What parsing a decimal integer literal yields: the digits' value when the
/// text is one or more digits and the value fits in an `i64`, nothing
/// otherwise.
pub open spec fn parse_dec_i64(t: Seq<char>) -> Option<i64> {
    if t.len() > 0 && all_digits(t) && dec_val(t) <= i64::MAX {
        Some(dec_val(t) as i64)
    } else {
        None
    }
}

/// Parsing an unsigned decimal, as used for a radix literal's base part.
pub open spec fn parse_dec_u32(t: Seq<char>) -> Option<u32> {
    if t.len() > 0 && all_digits(t) && dec_val(t) <= u32::MAX {
        Some(dec_val(t) as u32)
    } else {
        None
    }
}

/// The value of one character read as a digit in a base up to 36, or -1 when
/// the character is no such digit.
pub open spec fn radix_digit_val(c: char) -> int {
    if is_digit(c) {
        digit_val(c)
    } else if 65 <= c as u32 && c as u32 <= 90 {
        c as u32 - 55
    } else if 97 <= c as u32 && c as u32 <= 122 {
        c as u32 - 87
    } else {
        -1
    }
}

pub open spec fn all_radix_digits(t: Seq<char>, base: int) -> bool {
    forall|i: int| 0 <= i < t.len() ==> 0 <= radix_digit_val(#[trigger] t[i]) < base
}

pub open spec fn radix_val(t: Seq<char>, base: int) -> int
    decreases t.len(),
{
    if t.len() == 0 {
        0
    } else {
        radix_val(t.drop_last(), base) * base + radix_digit_val(t.last())
    }
}

/// What parsing the digit part of a radix integer literal yields: the value
/// of the digits in the given base when each digit is valid for that base
/// and the value fits in an `i64`, nothing otherwise.
pub open spec fn parse_radix_i64(t: Seq<char>, base: int) -> Option<i64> {
    if t.len() > 0 && all_radix_digits(t, base) && radix_val(t, base) <= i64::MAX {
        Some(radix_val(t, base) as i64)
    } else {
        None
    }
}

/// The decimal digits of a nonnegative value, most significant first.
pub open spec fn spec_udec(n: nat) -> Seq<char>
    decreases n,
{
    if n < 10 {
        seq![char_of_digit(n as int)]
    } else {
        spec_udec(n / 10).push(char_of_digit((n % 10) as int))
    }
}

/// The plain decimal rendering of an integer: a minus sign for a negative
/// value, then the digits of its magnitude with no leading zero.
pub open spec fn spec_dec_str(v: int) -> Seq<char> {
    if v < 0 {
        seq!['-'] + spec_udec((-v) as nat)
    } else {
        spec_udec(v as nat)
    }
}

pub open spec fn char_of_digit(d: int) -> char {
    if d == 0 {
        '0'
    } else if d == 1 {
        '1'
    } else if d == 2 {
        '2'
    } else if d == 3 {
        '3'
    } else if d == 4 {
        '4'
    } else if d == 5 {
        '5'
    } else if d == 6 {
        '6'
    } else if d == 7 {
        '7'
    } else if d == 8 {
        '8'
    } else {
        '9'
    }
}

proof fn lemma_dec_val_nonneg(t: Seq<char>)
    requires
        all_digits(t),
    ensures
        dec_val(t) >= 0,
    decreases t.len(),
{
    if t.len() > 0 {
        lemma_dec_val_nonneg(t.drop_last());
    }
}

/// Appending digits never shrinks the value of a digit string.
proof fn lemma_dec_val_prefix(t: Seq<char>, i: int)
    requires
        all_digits(t),
        0 <= i <= t.len(),
    ensures
        dec_val(t.take(i)) <= dec_val(t),
    decreases t.len() - i,
{
    if i < t.len() {
        lemma_dec_val_prefix(t, i + 1);
        assert(t.take(i + 1).drop_last() =~= t.take(i));
        lemma_dec_val_nonneg(t.take(i));
    } else {
        assert(t.take(i) =~= t);
    }
}

proof fn lemma_radix_val_nonneg(t: Seq<char>, base: int)
    requires
        all_radix_digits(t, base),
        base >= 2,
    ensures
        radix_val(t, base) >= 0,
    decreases t.len(),
{
    if t.len() > 0 {
        lemma_radix_val_nonneg(t.drop_last(), base);
        assert(radix_val(t.drop_last(), base) * base >= 0) by (nonlinear_arith)
            requires
                radix_val(t.drop_last(), base) >= 0,
                base >= 2,
        ;
    }
}

proof fn lemma_radix_val_prefix(t: Seq<char>, base: int, i: int)
    requires
        all_radix_digits(t, base),
        base >= 2,
        0 <= i <= t.len(),
    ensures
        radix_val(t.take(i), base) <= radix_val(t, base),
    decreases t.len() - i,
{
    if i < t.len() {
        lemma_radix_val_prefix(t, base, i + 1);
        assert(t.take(i + 1).drop_last() =~= t.take(i));
        lemma_radix_val_nonneg(t.take(i), base);
        assert(radix_val(t.take(i), base) * base >= radix_val(t.take(i), base))
            by (nonlinear_arith)
            requires
                radix_val(t.take(i), base) >= 0,
                base >= 2,
        ;
    } else {
        assert(t.take(i) =~= t);
    }
}

/// Parse the characters of `t` between `start` and `end` as an unsigned
/// decimal integer fitting in an `i64`.
pub fn parse_dec(t: &Vec<char>, start: usize, end: usize) -> (r: Option<i64>)
    requires
        start <= end <= t@.len(),
    ensures
        r == parse_dec_i64(t@.subrange(start as int, end as int)),
        r is Some ==> r->0 >= 0,
{
    let ghost text = t@.subrange(start as int, end as int);
    if start == end {
        return None;
    }
    let mut val: i64 = 0;
    let mut i: usize = start;
    while i < end
        invariant
            start <= i <= end <= t@.len(),
            text == t@.subrange(start as int, end as int),
            all_digits(text.take(i - start)),
            0 <= val,
            val == dec_val(text.take(i - start)),
        decreases end - i,
    {
        let c = t[i];
        let cv = c as u32;
        if cv < 48 || cv > 57 {
            assert(!is_digit(text[i - start]));
            return None;
        }
        let d = (cv - 48) as i64;
        proof {
            assert(text.take(i - start + 1).drop_last() =~= text.take(i - start));
            assert(text.take(i - start + 1).last() == text[i - start]);
        }
        if val > (i64::MAX - d) / 10 {
            proof {
                if all_digits(text) && dec_val(text) <= i64::MAX {
                    lemma_dec_val_prefix(text, i - start + 1);
                }
            }
            return None;
        }
        val = val * 10 + d;
        i += 1;
    }
    proof {
        assert(text.take(end - start) =~= text);
    }
    Some(val)
}

/// Parse an unsigned decimal fitting in a `u32`, as a radix literal's base.
pub fn parse_base(t: &Vec<char>, start: usize, end: usize) -> (r: Option<u32>)
    requires
        start <= end <= t@.len(),
    ensures
        r == parse_dec_u32(t@.subrange(start as int, end as int)),
{
    let ghost text = t@.subrange(start as int, end as int);
    if start == end {
        return None;
    }
    let mut val: u32 = 0;
    let mut i: usize = start;
    while i < end
        invariant
            start <= i <= end <= t@.len(),
            text == t@.subrange(start as int, end as int),
            all_digits(text.take(i - start)),
            val == dec_val(text.take(i - start)),
        decreases end - i,
    {
        let c = t[i];
        let cv = c as u32;
        if cv < 48 || cv > 57 {
            assert(!is_digit(text[i - start]));
            return None;
        }
        let d = cv - 48;
        proof {
            assert(text.take(i - start + 1).drop_last() =~= text.take(i - start));
            assert(text.take(i - start + 1).last() == text[i - start]);
        }
        if val > (u32::MAX - d) / 10 {
            proof {
                if all_digits(text) && dec_val(text) <= u32::MAX {
                    lemma_dec_val_prefix(text, i - start + 1);
                }
            }
            return None;
        }
        val = val * 10 + d;
        i += 1;
    }
    proof {
        assert(text.take(end - start) =~= text);
    }
    Some(val)
}

/// The value of one character as a digit in a base up to 36, or `None`.
fn radix_digit(c: char) -> (r: Option<u32>)
    ensures
        match r {
            Some(v) => radix_digit_val(c) == v,
            None => radix_digit_val(c) == -1,
        },
{
    let cv = c as u32;
    if 48 <= cv && cv <= 57 {
        Some(cv - 48)
    } else if 65 <= cv && cv <= 90 {
        Some(cv - 55)
    } else if 97 <= cv && cv <= 122 {
        Some(cv - 87)
    } else {
        None
    }
}

/// Parse the characters of `t` between `start` and `end` as an unsigned
/// integer in the given base, fitting in an `i64`.
pub fn parse_radix(t: &Vec<char>, start: usize, end: usize, base: u32) -> (r: Option<i64>)
    requires
        start <= end <= t@.len(),
        2 <= base <= 36,
    ensures
        r == parse_radix_i64(t@.subrange(start as int, end as int), base as int),
        r is Some ==> r->0 >= 0,
{
    let ghost text = t@.subrange(start as int, end as int);
    if start == end {
        return None;
    }
    let b = base as i64;
    let mut val: i64 = 0;
    let mut i: usize = start;
    while i < end
        invariant
            start <= i <= end <= t@.len(),
            2 <= base <= 36,
            b == base,
            text == t@.subrange(start as int, end as int),
            all_radix_digits(text.take(i - start), base as int),
            0 <= val,
            val == radix_val(text.take(i - start), base as int),
        decreases end - i,
    {
        let c = t[i];
        let d: i64 = match radix_digit(c) {
            Some(v) => {
                if v >= base {
                    assert(!(0 <= radix_digit_val(text[i - start]) < base));
                    return None;
                }
                v as i64
            },
            None => {
                assert(!(0 <= radix_digit_val(text[i - start]) < base));
                return None;
            },
        };
        proof {
            assert(text.take(i - start + 1).drop_last() =~= text.take(i - start));
            assert(text.take(i - start + 1).last() == text[i - start]);
        }
        if val > (i64::MAX - d) / b {
            proof {
                assert(val * b + d > i64::MAX) by (nonlinear_arith)
                    requires
                        val as int > (i64::MAX - d as int) / (b as int),
                        2 <= b <= 36,
                        0 <= d < b,
                        val >= 0,
                ;
                if all_radix_digits(text, base as int) && radix_val(text, base as int)
                    <= i64::MAX {
                    lemma_radix_val_prefix(text, base as int, i - start + 1);
                }
            }
            return None;
        }
        proof {
            assert(val * b + d <= i64::MAX) by (nonlinear_arith)
                requires
                    val as int <= (i64::MAX - d as int) / (b as int),
                    2 <= b <= 36,
                    0 <= d < b,
                    val >= 0,
            ;
            assert(val * b >= 0) by (nonlinear_arith)
                requires
                    val >= 0,
                    b >= 2,
            ;
        }
        val = val * b + d;
        i += 1;
    }
    proof {
        assert(text.take(end - start) =~= text);
    }
    Some(val)
}

fn digit_char(d: u64) -> (c: char)
    requires
        d < 10,
    ensures
        c == char_of_digit(d as int),
{
    match d {
        0 => '0',
        1 => '1',
        2 => '2',
        3 => '3',
        4 => '4',
        5 => '5',
        6 => '6',
        7 => '7',
        8 => '8',
        _ => '9',
    }
}

/// The decimal digits of an unsigned value, most significant first.
fn udec_chars(n: u64) -> (v: Vec<char>)
    ensures
        v@ == spec_udec(n as nat),
    decreases n,
{
    if n < 10 {
        let mut v: Vec<char> = Vec::new();
        v.push(digit_char(n));
        proof {
            assert(v@ =~= spec_udec(n as nat));
        }
        v
    } else {
        let mut v = udec_chars(n / 10);
        v.push(digit_char(n % 10));
        v
    }
}

/// Render an integer as its plain decimal digits, with a leading minus sign
/// when it is negative.
pub fn dec_chars(v: i64) -> (r: Vec<char>)
    ensures
        r@ == spec_dec_str(v as int),
{
    if v >= 0 {
        udec_chars(v as u64)
    } else {
        let m = (-(v as i128)) as u64;
        let mut r: Vec<char> = Vec::new();
        r.push('-');
        let mut digits = udec_chars(m);
        r.append(&mut digits);
        proof {
            assert(r@ =~= spec_dec_str(v as int));
        }
        r
    }
}

/// Copy the characters of `v` between `start` and `end` into a `String`.
pub fn chars_range_to_string(v: &Vec<char>, start: usize, end: usize) -> (s: String)
    requires
        start <= end <= v@.len(),
    ensures
        s@ == v@.subrange(start as int, end as int),
{
    let mut s = String::new();
    let mut j = start;
    while j < end
        invariant
            start <= j <= end <= v@.len(),
            s@ =~= v@.subrange(start as int, j as int),
        decreases end - j,
    {
        push_char(&mut s, v[j]);
        proof {
            assert(s@ =~= v@.subrange(start as int, j + 1));
        }
        j += 1;
    }
    s
}

/// Relies on `String::push`: appends one character to the string.
#[verifier::external_body]
pub fn push_char(s: &mut String, c: char)
    ensures
        final(s)@ == old(s)@.push(c),
{
    s.push(c);
}

/// Copy a character vector into a `String`.
pub fn chars_to_string(v: &Vec<char>) -> (s: String)
    ensures
        s@ == v@,
{
    let mut s = String::new();
    let n = v.len();
    let mut i: usize = 0;
    while i < n
        invariant
            i <= n,
            n == v@.len(),
            s@ == v@.take(i as int),
        decreases n - i,
    {
        push_char(&mut s, v[i]);
        proof {
            assert(v@.take(i as int).push(v@[i as int]) =~= v@.take(i + 1));
        }
        i += 1;
    }
    proof {
        assert(v@.take(n as int) =~= v@);
    }
    s
}

} // verus!
