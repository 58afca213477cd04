//! The tokenizer: classifies source text into lexical units under
//! longest-match and priority rules.  At each position the first character
//! decides which literal forms compete; fixed keywords win over the generic
//! identifier only at equal length.  Unrecognized input yields a one-character
//! error token rather than stopping the stream, and whitespace is emitted as
//! its own kind so callers can filter it.

use vstd::prelude::*;
use crate::numbers::is_digit;

verus! {

#[derive(Clone, Copy, Debug, PartialEq, Eq, Structural)]
pub enum Token {
    Self_,
    Super,
    Nil,
    True,
    False,
    LParen,
    RParen,
    LBracket,
    RBracket,
    Period,
    Semicolon,
    Colon,
    Pipe,
    Caret,
    Plus,
    Minus,
    Star,
    Slash,
    Ampersand,
    LessThan,
    GreaterThan,
    LessThanEqual,
    GreaterThanEqual,
    DoubleEquals,
    Assignment,
    Identifier,
    Integer,
    Float,
    RadixNumber,
    String,
    Symbol,
    Character,
    Array,
    ByteArray,
    Comment,
    Whitespace,
    Error,
}

pub open spec fn is_ws(c: char) -> bool {
    c == ' ' || c == '\t' || c == '\r' || c == '\n'
}

pub open spec fn is_alpha(c: char) -> bool {
    (65 <= c as u32 && c as u32 <= 90) || (97 <= c as u32 && c as u32 <= 122)
}

pub open spec fn is_ident_char(c: char) -> bool {
    is_alpha(c) || is_digit(c) || c == '_'
}

/// A character admitted in a radix literal's value part: a decimal digit or
/// a letter, the digits of bases up to 36.  Which of them are valid for the
/// literal's own base is the evaluator's check, not the tokenizer's.
pub open spec fn is_radix_digit(c: char) -> bool {
    crate::numbers::radix_digit_val(c) >= 0
}

pub open spec fn ws_run(s: Seq<char>, i: int) -> int
    decreases s.len() - i,
{
    if 0 <= i < s.len() && is_ws(s[i]) {
        1 + ws_run(s, i + 1)
    } else {
        0
    }
}

pub open spec fn digit_run(s: Seq<char>, i: int) -> int
    decreases s.len() - i,
{
    if 0 <= i < s.len() && is_digit(s[i]) {
        1 + digit_run(s, i + 1)
    } else {
        0
    }
}

pub open spec fn radix_digit_run(s: Seq<char>, i: int) -> int
    decreases s.len() - i,
{
    if 0 <= i < s.len() && is_radix_digit(s[i]) {
        1 + radix_digit_run(s, i + 1)
    } else {
        0
    }
}

pub open spec fn ident_run(s: Seq<char>, i: int) -> int
    decreases s.len() - i,
{
    if 0 <= i < s.len() && is_ident_char(s[i]) {
        1 + ident_run(s, i + 1)
    } else {
        0
    }
}

/// The index of the first occurrence of `c` at or after `j`, or -1.
pub open spec fn find_char(s: Seq<char>, j: int, c: char) -> int
    decreases s.len() - j,
{
    if 0 <= j < s.len() {
        if s[j] == c {
            j
        } else {
            find_char(s, j + 1, c)
        }
    } else {
        -1
    }
}

/// Scanning the body of a single-quoted form from `j`: a doubled quote is an
/// embedded quote and the scan prefers to continue past it, falling back to
/// closing there when no later close exists; the result is the position just
/// after the closing quote of the longest match, or -1 when none closes.
pub open spec fn str_scan(s: Seq<char>, j: int) -> int
    decreases s.len() - j,
{
    if 0 <= j < s.len() {
        if s[j] != '\'' {
            str_scan(s, j + 1)
        } else if j + 1 < s.len() && s[j + 1] == '\'' {
            let rest = str_scan(s, j + 2);
            if rest >= 0 {
                rest
            } else {
                j + 1
            }
        } else {
            j + 1
        }
    } else {
        -1
    }
}

/// The length of an exponent part (`e` or `E`, optional sign, digits) at
/// `k`, or 0 when none matches there.
pub open spec fn exp_len(s: Seq<char>, k: int) -> int {
    if 0 <= k < s.len() && (s[k] == 'e' || s[k] == 'E') {
        let sg: int = if k + 1 < s.len() && (s[k + 1] == '+' || s[k + 1] == '-') {
            1
        } else {
            0
        };
        let dd = digit_run(s, k + 1 + sg);
        if dd > 0 {
            1 + sg + dd
        } else {
            0
        }
    } else {
        0
    }
}

/// The length of a floating-point literal at `i`: digits with a mandatory
/// fractional part and optional exponent, or digits with a mandatory
/// exponent; 0 when neither form matches.
pub open spec fn float_len(s: Seq<char>, i: int) -> int {
    let d = digit_run(s, i);
    if d == 0 {
        0
    } else {
        let j = i + d;
        if j < s.len() && s[j] == '.' && digit_run(s, j + 1) > 0 {
            let f = digit_run(s, j + 1);
            d + 1 + f + exp_len(s, j + 1 + f)
        } else {
            let e = exp_len(s, j);
            if e > 0 {
                d + e
            } else {
                0
            }
        }
    }
}

/// The length of a radix integer literal at `i`: decimal base digits, `r`,
/// then one or more digits or letters; 0 when none matches.
pub open spec fn radix_len(s: Seq<char>, i: int) -> int {
    let d = digit_run(s, i);
    if d > 0 && i + d < s.len() && s[i + d] == 'r' {
        let h = radix_digit_run(s, i + d + 1);
        if h > 0 {
            d + 1 + h
        } else {
            0
        }
    } else {
        0
    }
}

/// The keyword an identifier-shaped text denotes, if any: fixed keywords take
/// priority over the generic identifier when the lengths coincide.
pub open spec fn kw_token(t: Seq<char>) -> Option<Token> {
    if t.len() == 4 && t[0] == 's' && t[1] == 'e' && t[2] == 'l' && t[3] == 'f' {
        Some(Token::Self_)
    } else if t.len() == 5 && t[0] == 's' && t[1] == 'u' && t[2] == 'p' && t[3] == 'e' && t[4]
        == 'r' {
        Some(Token::Super)
    } else if t.len() == 3 && t[0] == 'n' && t[1] == 'i' && t[2] == 'l' {
        Some(Token::Nil)
    } else if t.len() == 4 && t[0] == 't' && t[1] == 'r' && t[2] == 'u' && t[3] == 'e' {
        Some(Token::True)
    } else if t.len() == 5 && t[0] == 'f' && t[1] == 'a' && t[2] == 'l' && t[3] == 's' && t[4]
        == 'e' {
        Some(Token::False)
    } else {
        None
    }
}

/// The punctuation or operator token at `i`, two-character operators first.
pub open spec fn punct_token(s: Seq<char>, i: int) -> (Token, int) {
    let c = s[i];
    if i + 1 < s.len() && c == '<' && s[i + 1] == '=' {
        (Token::LessThanEqual, i + 2)
    } else if i + 1 < s.len() && c == '>' && s[i + 1] == '=' {
        (Token::GreaterThanEqual, i + 2)
    } else if i + 1 < s.len() && c == '=' && s[i + 1] == '=' {
        (Token::DoubleEquals, i + 2)
    } else if i + 1 < s.len() && c == ':' && s[i + 1] == '=' {
        (Token::Assignment, i + 2)
    } else if c == '(' {
        (Token::LParen, i + 1)
    } else if c == ')' {
        (Token::RParen, i + 1)
    } else if c == '[' {
        (Token::LBracket, i + 1)
    } else if c == ']' {
        (Token::RBracket, i + 1)
    } else if c == '.' {
        (Token::Period, i + 1)
    } else if c == ';' {
        (Token::Semicolon, i + 1)
    } else if c == ':' {
        (Token::Colon, i + 1)
    } else if c == '|' {
        (Token::Pipe, i + 1)
    } else if c == '^' {
        (Token::Caret, i + 1)
    } else if c == '+' {
        (Token::Plus, i + 1)
    } else if c == '-' {
        (Token::Minus, i + 1)
    } else if c == '*' {
        (Token::Star, i + 1)
    } else if c == '/' {
        (Token::Slash, i + 1)
    } else if c == '&' {
        (Token::Ampersand, i + 1)
    } else if c == '<' {
        (Token::LessThan, i + 1)
    } else if c == '>' {
        (Token::GreaterThan, i + 1)
    } else {
        (Token::Error, i + 1)
    }
}

/// The token starting at position `i` and the position just after it.
pub open spec fn spec_token_at(s: Seq<char>, i: int) -> (Token, int) {
    let c = s[i];
    if is_ws(c) {
        (Token::Whitespace, i + ws_run(s, i))
    } else if is_digit(c) {
        let r = radix_len(s, i);
        let f = float_len(s, i);
        if r > 0 {
            (Token::RadixNumber, i + r)
        } else if f > 0 {
            (Token::Float, i + f)
        } else {
            (Token::Integer, i + digit_run(s, i))
        }
    } else if is_alpha(c) {
        let n = 1 + ident_run(s, i + 1);
        let t = s.subrange(i, i + n);
        (
            match kw_token(t) {
                Some(k) => k,
                None => Token::Identifier,
            },
            i + n,
        )
    } else if c == '\'' {
        let e = str_scan(s, i + 1);
        if e >= 0 {
            (Token::String, e)
        } else {
            (Token::Error, i + 1)
        }
    } else if c == '"' {
        let k = find_char(s, i + 1, '"');
        if k >= 0 {
            (Token::Comment, k + 1)
        } else {
            (Token::Error, i + 1)
        }
    } else if c == '#' {
        if i + 1 < s.len() {
            let c2 = s[i + 1];
            if c2 == '(' {
                let k = find_char(s, i + 2, ')');
                if k >= 0 {
                    (Token::Array, k + 1)
                } else {
                    (Token::Error, i + 1)
                }
            } else if c2 == '[' {
                let k = find_char(s, i + 2, ']');
                if k >= 0 {
                    (Token::ByteArray, k + 1)
                } else {
                    (Token::Error, i + 1)
                }
            } else if c2 == '\'' {
                let e = str_scan(s, i + 2);
                if e >= 0 {
                    (Token::Symbol, e)
                } else {
                    (Token::Error, i + 1)
                }
            } else if is_ident_char(c2) && !is_digit(c2) {
                (Token::Symbol, i + 2 + ident_run(s, i + 2))
            } else {
                (Token::Error, i + 1)
            }
        } else {
            (Token::Error, i + 1)
        }
    } else if c == '$' {
        if i + 1 < s.len() {
            (Token::Character, i + 2)
        } else {
            (Token::Error, i + 1)
        }
    } else {
        punct_token(s, i)
    }
}

pub(crate) fn is_ws_x(c: char) -> (r: bool)
    ensures
        r == is_ws(c),
{
    c == ' ' || c == '\t' || c == '\r' || c == '\n'
}

fn is_digit_x(c: char) -> (r: bool)
    ensures
        r == is_digit(c),
{
    let v = c as u32;
    48 <= v && v <= 57
}

fn is_alpha_x(c: char) -> (r: bool)
    ensures
        r == is_alpha(c),
{
    let v = c as u32;
    (65 <= v && v <= 90) || (97 <= v && v <= 122)
}

fn is_ident_char_x(c: char) -> (r: bool)
    ensures
        r == is_ident_char(c),
{
    let v = c as u32;
    (65 <= v && v <= 90) || (97 <= v && v <= 122) || (48 <= v && v <= 57) || c == '_'
}

fn is_radix_digit_x(c: char) -> (r: bool)
    ensures
        r == is_radix_digit(c),
{
    let v = c as u32;
    (48 <= v && v <= 57) || (65 <= v && v <= 90) || (97 <= v && v <= 122)
}

pub(crate) fn ws_run_x(s: &Vec<char>, i: usize) -> (r: usize)
    requires
        i <= s@.len(),
    ensures
        r == ws_run(s@, i as int),
        i + r <= s@.len(),
        i < s@.len() && is_ws(s@[i as int]) ==> r >= 1,
        i + r < s@.len() ==> !is_ws(s@[i + r]),
    decreases s@.len() - i,
{
    if i < s.len() && is_ws_x(s[i]) {
        1 + ws_run_x(s, i + 1)
    } else {
        0
    }
}

fn digit_run_x(s: &Vec<char>, i: usize) -> (r: usize)
    requires
        i <= s@.len(),
    ensures
        r == digit_run(s@, i as int),
        i + r <= s@.len(),
        i < s@.len() && is_digit(s@[i as int]) ==> r >= 1,
    decreases s@.len() - i,
{
    if i < s.len() && is_digit_x(s[i]) {
        1 + digit_run_x(s, i + 1)
    } else {
        0
    }
}

fn radix_digit_run_x(s: &Vec<char>, i: usize) -> (r: usize)
    requires
        i <= s@.len(),
    ensures
        r == radix_digit_run(s@, i as int),
        i + r <= s@.len(),
        i < s@.len() && is_radix_digit(s@[i as int]) ==> r >= 1,
    decreases s@.len() - i,
{
    if i < s.len() && is_radix_digit_x(s[i]) {
        1 + radix_digit_run_x(s, i + 1)
    } else {
        0
    }
}

fn ident_run_x(s: &Vec<char>, i: usize) -> (r: usize)
    requires
        i <= s@.len(),
    ensures
        r == ident_run(s@, i as int),
        i + r <= s@.len(),
        i < s@.len() && is_ident_char(s@[i as int]) ==> r >= 1,
    decreases s@.len() - i,
{
    if i < s.len() && is_ident_char_x(s[i]) {
        1 + ident_run_x(s, i + 1)
    } else {
        0
    }
}

pub(crate) fn find_char_x(s: &Vec<char>, j: usize, c: char) -> (r: Option<usize>)
    requires
        j <= s@.len(),
    ensures
        match r {
            Some(k) => find_char(s@, j as int, c) == k && j <= k < s@.len(),
            None => find_char(s@, j as int, c) == -1,
        },
    decreases s@.len() - j,
{
    if j < s.len() {
        if s[j] == c {
            Some(j)
        } else {
            find_char_x(s, j + 1, c)
        }
    } else {
        None
    }
}

fn str_scan_x(s: &Vec<char>, j: usize) -> (r: Option<usize>)
    requires
        j <= s@.len(),
    ensures
        match r {
            Some(e) => str_scan(s@, j as int) == e && j < e <= s@.len(),
            None => str_scan(s@, j as int) == -1,
        },
    decreases s@.len() - j,
{
    if j < s.len() {
        if s[j] != '\'' {
            str_scan_x(s, j + 1)
        } else if j + 1 < s.len() && s[j + 1] == '\'' {
            match str_scan_x(s, j + 2) {
                Some(e) => Some(e),
                None => Some(j + 1),
            }
        } else {
            Some(j + 1)
        }
    } else {
        None
    }
}

fn exp_len_x(s: &Vec<char>, k: usize) -> (r: usize)
    requires
        k <= s@.len(),
    ensures
        r == exp_len(s@, k as int),
        k + r <= s@.len(),
{
    if k < s.len() && (s[k] == 'e' || s[k] == 'E') {
        let sg: usize = if k + 1 < s.len() && (s[k + 1] == '+' || s[k + 1] == '-') {
            1
        } else {
            0
        };
        let dd = digit_run_x(s, k + 1 + sg);
        if dd > 0 {
            1 + sg + dd
        } else {
            0
        }
    } else {
        0
    }
}

fn float_len_x(s: &Vec<char>, i: usize) -> (r: usize)
    requires
        i <= s@.len(),
    ensures
        r == float_len(s@, i as int),
        i + r <= s@.len(),
{
    let _len = s.len();
    let d = digit_run_x(s, i);
    if d == 0 {
        return 0;
    }
    let j = i + d;
    if j < s.len() && s[j] == '.' && digit_run_x(s, j + 1) > 0 {
        let f = digit_run_x(s, j + 1);
        let e = exp_len_x(s, j + 1 + f);
        d + 1 + f + e
    } else {
        let e = exp_len_x(s, j);
        if e > 0 {
            d + e
        } else {
            0
        }
    }
}

fn radix_len_x(s: &Vec<char>, i: usize) -> (r: usize)
    requires
        i <= s@.len(),
    ensures
        r == radix_len(s@, i as int),
        i + r <= s@.len(),
{
    let _len = s.len();
    let d = digit_run_x(s, i);
    if d > 0 && i + d < s.len() && s[i + d] == 'r' {
        let h = radix_digit_run_x(s, i + d + 1);
        if h > 0 {
            d + 1 + h
        } else {
            0
        }
    } else {
        0
    }
}

/// The keyword denoted by `s[i..end]`, if any.
fn kw_token_x(s: &Vec<char>, i: usize, end: usize) -> (r: Option<Token>)
    requires
        i <= end <= s@.len(),
    ensures
        r == kw_token(s@.subrange(i as int, end as int)),
{
    let n = end - i;
    let r = if n == 4 && s[i] == 's' && s[i + 1] == 'e' && s[i + 2] == 'l' && s[i + 3] == 'f' {
        Some(Token::Self_)
    } else if n == 5 && s[i] == 's' && s[i + 1] == 'u' && s[i + 2] == 'p' && s[i + 3] == 'e' && s[i
        + 4] == 'r' {
        Some(Token::Super)
    } else if n == 3 && s[i] == 'n' && s[i + 1] == 'i' && s[i + 2] == 'l' {
        Some(Token::Nil)
    } else if n == 4 && s[i] == 't' && s[i + 1] == 'r' && s[i + 2] == 'u' && s[i + 3] == 'e' {
        Some(Token::True)
    } else if n == 5 && s[i] == 'f' && s[i + 1] == 'a' && s[i + 2] == 'l' && s[i + 3] == 's' && s[i
        + 4] == 'e' {
        Some(Token::False)
    } else {
        None
    };
    proof {
        let t = s@.subrange(i as int, end as int);
        assert(t.len() == n);
        assert(forall|k: int| 0 <= k < t.len() ==> t[k] == s@[i + k]);
    }
    r
}

/// The token starting at `i` and the position just after it.
fn token_at(s: &Vec<char>, i: usize) -> (r: (Token, usize))
    requires
        i < s@.len(),
    ensures
        (r.0, r.1 as int) == spec_token_at(s@, i as int),
        i < r.1 <= s@.len(),
{
    // an exec length binding keeps the index sums below within usize
    let _len = s.len();
    let c = s[i];
    if is_ws_x(c) {
        (Token::Whitespace, i + ws_run_x(s, i))
    } else if is_digit_x(c) {
        let r = radix_len_x(s, i);
        if r > 0 {
            (Token::RadixNumber, i + r)
        } else {
            let f = float_len_x(s, i);
            if f > 0 {
                (Token::Float, i + f)
            } else {
                (Token::Integer, i + digit_run_x(s, i))
            }
        }
    } else if is_alpha_x(c) {
        let n = 1 + ident_run_x(s, i + 1);
        let tok = match kw_token_x(s, i, i + n) {
            Some(k) => k,
            None => Token::Identifier,
        };
        (tok, i + n)
    } else if c == '\'' {
        match str_scan_x(s, i + 1) {
            Some(e) => (Token::String, e),
            None => (Token::Error, i + 1),
        }
    } else if c == '"' {
        match find_char_x(s, i + 1, '"') {
            Some(k) => (Token::Comment, k + 1),
            None => (Token::Error, i + 1),
        }
    } else if c == '#' {
        if i + 1 < s.len() {
            let c2 = s[i + 1];
            if c2 == '(' {
                match find_char_x(s, i + 2, ')') {
                    Some(k) => (Token::Array, k + 1),
                    None => (Token::Error, i + 1),
                }
            } else if c2 == '[' {
                match find_char_x(s, i + 2, ']') {
                    Some(k) => (Token::ByteArray, k + 1),
                    None => (Token::Error, i + 1),
                }
            } else if c2 == '\'' {
                match str_scan_x(s, i + 2) {
                    Some(e) => (Token::Symbol, e),
                    None => (Token::Error, i + 1),
                }
            } else if is_ident_char_x(c2) && !is_digit_x(c2) {
                (Token::Symbol, i + 2 + ident_run_x(s, i + 2))
            } else {
                (Token::Error, i + 1)
            }
        } else {
            (Token::Error, i + 1)
        }
    } else if c == '$' {
        if i + 1 < s.len() {
            (Token::Character, i + 2)
        } else {
            (Token::Error, i + 1)
        }
    } else {
        let r = if i + 1 < s.len() && c == '<' && s[i + 1] == '=' {
            (Token::LessThanEqual, i + 2)
        } else if i + 1 < s.len() && c == '>' && s[i + 1] == '=' {
            (Token::GreaterThanEqual, i + 2)
        } else if i + 1 < s.len() && c == '=' && s[i + 1] == '=' {
            (Token::DoubleEquals, i + 2)
        } else if i + 1 < s.len() && c == ':' && s[i + 1] == '=' {
            (Token::Assignment, i + 2)
        } else if c == '(' {
            (Token::LParen, i + 1)
        } else if c == ')' {
            (Token::RParen, i + 1)
        } else if c == '[' {
            (Token::LBracket, i + 1)
        } else if c == ']' {
            (Token::RBracket, i + 1)
        } else if c == '.' {
            (Token::Period, i + 1)
        } else if c == ';' {
            (Token::Semicolon, i + 1)
        } else if c == ':' {
            (Token::Colon, i + 1)
        } else if c == '|' {
            (Token::Pipe, i + 1)
        } else if c == '^' {
            (Token::Caret, i + 1)
        } else if c == '+' {
            (Token::Plus, i + 1)
        } else if c == '-' {
            (Token::Minus, i + 1)
        } else if c == '*' {
            (Token::Star, i + 1)
        } else if c == '/' {
            (Token::Slash, i + 1)
        } else if c == '&' {
            (Token::Ampersand, i + 1)
        } else if c == '<' {
            (Token::LessThan, i + 1)
        } else if c == '>' {
            (Token::GreaterThan, i + 1)
        } else {
            (Token::Error, i + 1)
        };
        r
    }
}

/// Copy the characters of a string slice into a vector.
pub(crate) fn str_chars(input: &str) -> (v: Vec<char>)
    ensures
        v@ == input@,
{
    broadcast use vstd::string::axiom_spec_iter;
    broadcast use vstd::string::next_postcondition;

    let mut it = input.chars();
    let mut v: Vec<char> = Vec::new();
    loop
        invariant
            vstd::std_specs::iter::IteratorSpec::obeys_prophetic_iter_laws(&it),
            vstd::std_specs::iter::IteratorSpec::decrease(&it) is Some,
            v@ + vstd::std_specs::iter::IteratorSpec::remaining(&it) == input@,
        ensures
            v@ == input@,
        decreases vstd::std_specs::iter::IteratorSpec::decrease(&it)->0,
    {
        match it.next() {
            Some(c) => {
                v.push(c);
            },
            None => {
                proof {
                    assert(v@ + vstd::std_specs::iter::IteratorSpec::remaining(&it) =~= v@);
                }
                break ;
            },
        }
    }
    v
}

/// A single forward cursor over the tokens of one source string.  Spans are
/// index ranges into the source's character sequence.
pub struct Lexer {
    chars: Vec<char>,
    pos: usize,
    tok_start: usize,
    tok_end: usize,
}

impl Lexer {
    /// The source as a character sequence.
    pub closed spec fn input(&self) -> Seq<char> {
        self.chars@
    }

    /// The cursor: the position where the next token starts.
    pub closed spec fn position(&self) -> int {
        self.pos as int
    }

    /// The span of the most recently produced token.
    pub closed spec fn token_span(&self) -> (int, int) {
        (self.tok_start as int, self.tok_end as int)
    }

    pub closed spec fn wf(&self) -> bool {
        self.pos <= self.chars@.len() && self.tok_start <= self.tok_end <= self.chars@.len()
    }

    pub fn new(input: &str) -> (l: Lexer)
        ensures
            l.wf(),
            l.input() == input@,
            l.position() == 0,
            l.token_span() == (0int, 0int),
    {
        Lexer { chars: str_chars(input), pos: 0, tok_start: 0, tok_end: 0 }
    }

    /// Produce the next token and its span, or signal end of input.  The
    /// token is the one `spec_token_at` assigns to the current position, and
    /// the cursor moves past it.
    pub fn next_token(&mut self) -> (r: Option<(Token, (usize, usize))>)
        requires
            old(self).wf(),
        ensures
            final(self).wf(),
            final(self).input() == old(self).input(),
            match r {
                None => {
                    &&& old(self).position() == old(self).input().len()
                    &&& *final(self) == *old(self)
                },
                Some((tok, span)) => {
                    &&& old(self).position() < old(self).input().len()
                    &&& (tok, span.1 as int) == spec_token_at(
                        old(self).input(),
                        old(self).position(),
                    )
                    &&& span.0 == old(self).position()
                    &&& old(self).position() < span.1 <= old(self).input().len()
                    &&& final(self).position() == span.1
                    &&& final(self).token_span() == (span.0 as int, span.1 as int)
                },
            },
    {
        if self.pos >= self.chars.len() {
            return None;
        }
        let start = self.pos;
        let (tok, end) = token_at(&self.chars, start);
        self.pos = end;
        self.tok_start = start;
        self.tok_end = end;
        Some((tok, (start, end)))
    }

    /// The characters of the most recently produced token.
    pub fn token_chars(&self) -> (v: Vec<char>)
        requires
            self.wf(),
        ensures
            v@ == self.input().subrange(self.token_span().0, self.token_span().1),
    {
        let mut v: Vec<char> = Vec::new();
        let mut j = self.tok_start;
        while j < self.tok_end
            invariant
                self.wf(),
                self.tok_start <= j <= self.tok_end,
                v@ =~= self.input().subrange(self.tok_start as int, j as int),
            decreases self.tok_end - j,
        {
            v.push(self.chars[j]);
            proof {
                assert(v@ =~= self.input().subrange(self.tok_start as int, j + 1));
            }
            j += 1;
        }
        v
    }

    /// The text of the most recently produced token.
    pub fn slice(&self) -> (r: String)
        requires
            self.wf(),
        ensures
            r@ == self.input().subrange(self.token_span().0, self.token_span().1),
    {
        let v = self.token_chars();
        crate::numbers::chars_to_string(&v)
    }
}

} // verus!
