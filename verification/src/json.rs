//! The template document syntax.
//!
//! Receipt templates arrive as JSON text. This module holds the document
//! grammar — whitespace, literals, strings with escapes, numbers, and
//! value skipping for unknown fields — as verified functions over character
//! sequences, each pinned to a spec function of the same shape. Positions
//! are indices into the character sequence; every parser returns the value
//! recognised and the position just past it.

use vstd::prelude::*;
use vstd::utf8::is_scalar;

use crate::template::{Element, ReceiptTemplate, TemplateError, TemplateErrorView};

verus! {

/// JSON whitespace.
pub open spec fn is_ws(c: char) -> bool {
    c == ' ' || c == '\n' || c == '\t' || c == '\r'
}

/// The position of the first non-whitespace character at or after `i`.
pub open spec fn spec_ws(s: Seq<char>, i: int) -> int
    decreases s.len() - i,
{
    if 0 <= i < s.len() && is_ws(s[i]) {
        spec_ws(s, i + 1)
    } else {
        i
    }
}


/// Skip whitespace.
fn skip_ws(s: &Vec<char>, i: usize) -> (r: usize)
    requires
        i <= s@.len(),
    ensures
        r == spec_ws(s@, i as int),
        i <= r <= s@.len(),
{
    let n = s.len();
    let mut j = i;
    while j < n && (s[j] == ' ' || s[j] == '\n' || s[j] == '\t' || s[j] == '\r')
        invariant
            i <= j <= n,
            n == s@.len(),
            spec_ws(s@, i as int) == spec_ws(s@, j as int),
        decreases n - j,
    {
        j = j + 1;
    }
    j
}

/// Whether the literal occurs at position `i`.
pub open spec fn lit_at(s: Seq<char>, i: int, lit: Seq<char>) -> bool {
    0 <= i && i + lit.len() <= s.len() && s.subrange(i, i + lit.len()) == lit
}

/// Check a literal at position `i`.
fn check_lit(s: &Vec<char>, i: usize, lit: &str) -> (r: bool)
    requires
        i <= s@.len(),
    ensures
        r == lit_at(s@, i as int, lit@),
{
    let m = vstd::string::StrSliceExecFns::unicode_len(lit);
    let n = s.len();
    if m > n - i {
        assert(!lit_at(s@, i as int, lit@));
        return false;
    }
    let mut k: usize = 0;
    while k < m
        invariant
            k <= m,
            m == lit@.len(),
            i + m <= n,
            n == s@.len(),
            forall|j: int| 0 <= j < k ==> s@[i + j] == lit@[j],
        decreases m - k,
    {
        if s[i + k] != vstd::string::StrSliceExecFns::get_char(lit, k) {
            assert(s@.subrange(i as int, i + lit@.len())[k as int] != lit@[k as int]);
            return false;
        }
        k = k + 1;
    }
    assert(s@.subrange(i as int, i + lit@.len()) =~= lit@);
    true
}

// ── Strings ───────────────────────────────────────────────────────────────

/// The value of a hex digit, if the character is one.
pub open spec fn hex_val(c: char) -> Option<u32> {
    if '0' <= c <= '9' {
        Some((c as u32 - '0' as u32) as u32)
    } else if 'a' <= c <= 'f' {
        Some((c as u32 - 'a' as u32 + 10) as u32)
    } else if 'A' <= c <= 'F' {
        Some((c as u32 - 'A' as u32 + 10) as u32)
    } else {
        None
    }
}

/// The scalar value of four hex digits at position `i`.
pub open spec fn spec_hex4(s: Seq<char>, i: int) -> Option<u32> {
    if 0 <= i && i + 4 <= s.len() {
        match (hex_val(s[i]), hex_val(s[i + 1]), hex_val(s[i + 2]), hex_val(s[i + 3])) {
            (Some(a), Some(b), Some(c), Some(d)) => Some((a * 0x1000 + b * 0x100 + c * 0x10 + d) as u32),
            _ => None,
        }
    } else {
        None
    }
}

/// The character an escape code denotes, for the single-character escapes.
pub open spec fn simple_escape(c: char) -> Option<char> {
    match c {
        '"' => Some('"'),
        '\\' => Some('\\'),
        '/' => Some('/'),
        'b' => Some('\u{0008}'),
        'f' => Some('\u{000C}'),
        'n' => Some('\n'),
        'r' => Some('\r'),
        't' => Some('\t'),
        _ => None,
    }
}

/// The decoded remainder of a string body starting at `i` (just past the
/// opening quote): the characters up to the closing quote, escapes decoded,
/// and the position just past the closing quote. Control characters are
/// rejected; `\u` escapes cover the non-surrogate basic plane.
pub open spec fn spec_string_body(s: Seq<char>, i: int) -> Option<(Seq<char>, int)>
    decreases s.len() - i,
{
    if !(0 <= i < s.len()) {
        None
    } else if s[i] == '"' {
        Some((Seq::<char>::empty(), i + 1))
    } else if s[i] == '\\' {
        if i + 1 < s.len() {
            let e = s[i + 1];
            if e == 'u' {
                match spec_hex4(s, i + 2) {
                    Some(v) => if is_scalar(v) {
                        match spec_string_body(s, i + 6) {
                            Some((t, j)) => Some((seq![v as char] + t, j)),
                            None => None,
                        }
                    } else {
                        None
                    },
                    None => None,
                }
            } else {
                match simple_escape(e) {
                    Some(c) => match spec_string_body(s, i + 2) {
                        Some((t, j)) => Some((seq![c] + t, j)),
                        None => None,
                    },
                    None => None,
                }
            }
        } else {
            None
        }
    } else if (s[i] as u32) < 0x20 {
        None
    } else {
        match spec_string_body(s, i + 1) {
            Some((t, j)) => Some((seq![s[i]] + t, j)),
            None => None,
        }
    }
}

/// A whole string token at `i`: the opening quote, the body, the closing
/// quote.
pub open spec fn spec_string(s: Seq<char>, i: int) -> Option<(Seq<char>, int)> {
    if 0 <= i < s.len() && s[i] == '"' {
        spec_string_body(s, i + 1)
    } else {
        None
    }
}


/// Prepending one character associates with any continuation.
proof fn lemma_push_assoc(a: Seq<char>, c: char)
    ensures
        forall|t: Seq<char>| #[trigger] ((a + seq![c]) + t) == a + (seq![c] + t),
{
    assert forall|t: Seq<char>| #[trigger] ((a + seq![c]) + t) == a + (seq![c] + t) by {
        assert((a + seq![c]) + t =~= a + (seq![c] + t));
    }
}

/// Relies on `char::from_u32`: it yields the character of a scalar value and
/// rejects exactly the surrogates and out-of-range values.
pub assume_specification[ char::from_u32 ](v: u32) -> (r: Option<char>)
    ensures
        r is Some <==> is_scalar(v),
        r matches Some(c) ==> c == v as char && c as u32 == v,
;

/// The value of one hex digit character.
fn hex_val_exec(c: char) -> (r: Option<u32>)
    ensures
        r == hex_val(c),
{
    let v = c as u32;
    if c >= '0' && c <= '9' {
        Some(v - 48)
    } else if c >= 'a' && c <= 'f' {
        Some(v - 97 + 10)
    } else if c >= 'A' && c <= 'F' {
        Some(v - 65 + 10)
    } else {
        None
    }
}

/// Parse a string token at `i`: the decoded characters and the position
/// just past the closing quote.
#[verifier::rlimit(100)]
#[verifier::spinoff_prover]
fn parse_string(s: &Vec<char>, i: usize) -> (r: Option<(Vec<char>, usize)>)
    requires
        i <= s@.len(),
    ensures
        match r {
            Some((t, j)) => spec_string(s@, i as int) == Some((t@, j as int)) && i < j <= s@.len(),
            None => spec_string(s@, i as int) is None,
        },
{
    let n = s.len();
    if !(i < n && s[i] == '"') {
        return None;
    }
    let mut out: Vec<char> = Vec::new();
    let mut j = i + 1;
    loop
        invariant
            i + 1 <= j <= n,
            n == s@.len(),
            i < n,
            s@[i as int] == '"',
            spec_string_body(s@, i as int + 1) == (match spec_string_body(s@, j as int) {
                Some((t, k)) => Some::<(Seq<char>, int)>((out@ + t, k)),
                None => None::<(Seq<char>, int)>,
            }),
        decreases n - j,
    {
        if j >= n {
            return None;
        }
        let c = s[j];
        if c == '"' {
            proof {
                assert(out@ + Seq::<char>::empty() =~= out@);
            }
            return Some((out, j + 1));
        } else if c == '\\' {
            if j + 1 >= n {
                return None;
            }
            let e = s[j + 1];
            if e == 'u' {
                if n - j < 6 {
                    assert(spec_hex4(s@, j as int + 2) is None);
                    return None;
                }
                let h0 = hex_val_exec(s[j + 2]);
                let h1 = hex_val_exec(s[j + 3]);
                let h2 = hex_val_exec(s[j + 4]);
                let h3 = hex_val_exec(s[j + 5]);
                match (h0, h1, h2, h3) {
                    (Some(a), Some(b), Some(cc), Some(d)) => {
                        let v: u32 = a * 0x1000 + b * 0x100 + cc * 0x10 + d;
                        match char::from_u32(v) {
                            Some(ch) => {
                                let ghost before = out@;
                                out.push(ch);
                                proof {
                                    assert(out@ =~= before + seq![v as char]);
                                    lemma_push_assoc(before, v as char);
                                }
                                j = j + 6;
                            },
                            None => {
                                return None;
                            },
                        }
                    },
                    _ => {
                        return None;
                    },
                }
            } else {
                let dec: Option<char> = match e {
                    '"' => Some('"'),
                    '\\' => Some('\\'),
                    '/' => Some('/'),
                    'b' => Some('\u{0008}'),
                    'f' => Some('\u{000C}'),
                    'n' => Some('\n'),
                    'r' => Some('\r'),
                    't' => Some('\t'),
                    _ => None,
                };
                assert(dec == simple_escape(e));
                match dec {
                    Some(ch) => {
                        let ghost before = out@;
                        out.push(ch);
                        proof {
                            assert(out@ =~= before + seq![ch]);
                            lemma_push_assoc(before, ch);
                        }
                        j = j + 2;
                    },
                    None => {
                        return None;
                    },
                }
            }
        } else if (c as u32) < 0x20 {
            return None;
        } else {
            let ghost before = out@;
            out.push(c);
            proof {
                assert(out@ =~= before + seq![c]);
                lemma_push_assoc(before, c);
            }
            j = j + 1;
        }
    }
}


// ── Numbers ───────────────────────────────────────────────────────────────

/// A decimal digit.
pub open spec fn is_digit(c: char) -> bool {
    '0' <= c <= '9'
}

/// The numeric value of a digit character.
pub open spec fn digit_val(c: char) -> int {
    c as u32 - '0' as u32
}

/// The saturation bound for digit accumulation: one more than any value
/// that could still fit a 64-bit integer.
pub open spec fn digit_cap() -> int {
    0x10000000000000000
}

/// Accumulate decimal digits from `i`: the value (saturated at `digit_cap`,
/// which is already out of 64-bit range) and the position after the digits.
pub open spec fn spec_digits(s: Seq<char>, i: int, acc: int) -> (int, int)
    decreases s.len() - i,
{
    if 0 <= i < s.len() && is_digit(s[i]) {
        let a2 = acc * 10 + digit_val(s[i]);
        spec_digits(s, i + 1, if a2 > digit_cap() { digit_cap() } else { a2 })
    } else {
        (acc, i)
    }
}

/// Digit runs do not move backwards nor past the end, and keep the
/// accumulator in range.
pub proof fn lemma_digits_bounds(s: Seq<char>, i: int, acc: int)
    requires
        0 <= i <= s.len(),
        0 <= acc <= digit_cap(),
    ensures
        ({
            let (v, j) = spec_digits(s, i, acc);
            i <= j <= s.len() && 0 <= v <= digit_cap()
        }),
    decreases s.len() - i,
{
    if 0 <= i < s.len() && is_digit(s[i]) {
        let a2 = acc * 10 + digit_val(s[i]);
        lemma_digits_bounds(s, i + 1, if a2 > digit_cap() { digit_cap() } else { a2 });
    }
}

/// Accumulate decimal digits.
fn run_digits(s: &Vec<char>, i: usize, acc0: u128) -> (r: (u128, usize))
    requires
        i <= s@.len(),
        acc0 <= digit_cap(),
    ensures
        (r.0 as int, r.1 as int) == spec_digits(s@, i as int, acc0 as int),
        i <= r.1 <= s@.len(),
        r.0 <= digit_cap(),
{
    let n = s.len();
    let mut j = i;
    let mut acc = acc0;
    while j < n && s[j] >= '0' && s[j] <= '9'
        invariant
            i <= j <= n,
            n == s@.len(),
            acc <= digit_cap(),
            spec_digits(s@, i as int, acc0 as int) == spec_digits(s@, j as int, acc as int),
        decreases n - j,
    {
        let d: u128 = (s[j] as u32 - 48) as u128;
        let a2: u128 = acc * 10 + d;
        acc = if a2 > 0x10000000000000000u128 {
            0x10000000000000000u128
        } else {
            a2
        };
        j = j + 1;
    }
    (acc, j)
}

/// A number token at `i`: `Some(v)` exactly when the token is an integer
/// (no fraction, no exponent) in the 64-bit signed range, `None` inside the
/// outer `Some` when the token is a well-formed number of any other kind,
/// and the position just past the token.
pub open spec fn spec_number(s: Seq<char>, i: int) -> Option<(Option<i64>, int)> {
    if !(0 <= i < s.len()) {
        None
    } else {
        let neg = s[i] == '-';
        let i1: int = if neg {
            i + 1
        } else {
            i
        };
        if !(i1 < s.len() && is_digit(s[i1])) {
            None
        } else {
            let vj = if s[i1] == '0' {
                (0int, i1 + 1)
            } else {
                spec_digits(s, i1, 0)
            };
            let v = vj.0;
            let j = vj.1;
            let frac: Option<(bool, int)> = if j < s.len() && s[j] == '.' {
                let jf = spec_digits(s, j + 1, 0).1;
                if jf > j + 1 {
                    Some((false, jf))
                } else {
                    None
                }
            } else {
                Some((true, j))
            };
            match frac {
                None => None,
                Some((int1, j1)) => {
                    let expo: Option<(bool, int)> = if j1 < s.len() && (s[j1] == 'e' || s[j1]
                        == 'E') {
                        let j2: int = if j1 + 1 < s.len() && (s[j1 + 1] == '+' || s[j1 + 1]
                            == '-') {
                            j1 + 2
                        } else {
                            j1 + 1
                        };
                        let je = spec_digits(s, j2, 0).1;
                        if je > j2 {
                            Some((false, je))
                        } else {
                            None
                        }
                    } else {
                        Some((int1, j1))
                    };
                    match expo {
                        None => None,
                        Some((is_int, jend)) => {
                            let signed: int = if neg {
                                -v
                            } else {
                                v
                            };
                            let val: Option<i64> = if is_int && -0x8000000000000000 <= signed
                                < 0x8000000000000000 {
                                Some(signed as i64)
                            } else {
                                None
                            };
                            Some((val, jend))
                        },
                    }
                },
            }
        }
    }
}

/// Parse a number token.
#[verifier::rlimit(50)]
fn parse_number(s: &Vec<char>, i: usize) -> (r: Option<(Option<i64>, usize)>)
    requires
        i <= s@.len(),
    ensures
        match r {
            Some((v, j)) => spec_number(s@, i as int) == Some((v, j as int)) && i < j <= s@.len(),
            None => spec_number(s@, i as int) is None,
        },
{
    let n = s.len();
    if i >= n {
        return None;
    }
    let neg = s[i] == '-';
    let i1: usize = if neg {
        i + 1
    } else {
        i
    };
    if !(i1 < n && s[i1] >= '0' && s[i1] <= '9') {
        return None;
    }
    let (v, j): (u128, usize) = if s[i1] == '0' {
        (0, i1 + 1)
    } else {
        run_digits(s, i1, 0)
    };
    proof {
        if s@[i1 as int] != '0' {
            let a2 = digit_val(s@[i1 as int]);
            lemma_digits_bounds(
                s@,
                i1 as int + 1,
                if a2 > digit_cap() {
                    digit_cap()
                } else {
                    a2
                },
            );
        }
    }
    assert(i < j);
    let mut is_int = true;
    let mut jend = j;
    if jend < n && s[jend] == '.' {
        let (_, jf) = run_digits(s, jend + 1, 0);
        if jf > jend + 1 {
            is_int = false;
            jend = jf;
        } else {
            return None;
        }
    }
    if jend < n && (s[jend] == 'e' || s[jend] == 'E') {
        let j2: usize = if jend + 1 < n && (s[jend + 1] == '+' || s[jend + 1] == '-') {
            jend + 2
        } else {
            jend + 1
        };
        let (_, je) = run_digits(s, j2, 0);
        if je > j2 {
            is_int = false;
            jend = je;
        } else {
            return None;
        }
    }
    let val: Option<i64> = if is_int {
        if neg {
            if v <= 0x8000000000000000u128 {
                Some((-(v as i128)) as i64)
            } else {
                None
            }
        } else {
            if v < 0x8000000000000000u128 {
                Some(v as i64)
            } else {
                None
            }
        }
    } else {
        None
    };
    proof {
        lemma_digits_bounds(s@, i1 as int, 0);
    }
    Some((val, jend))
}

// ── Value skipping ────────────────────────────────────────────────────────

/// The position just past any well-formed value at `i`, or nothing when the
/// text there is not a value or nesting exceeds the given depth budget.
pub open spec fn spec_skip_value(s: Seq<char>, i: int, depth: nat) -> Option<int>
    decreases s.len() - i, 0nat,
{
    if !(0 <= i < s.len()) {
        None
    } else if s[i] == '"' {
        match spec_string(s, i) {
            Some((t, j)) => Some(j),
            None => None,
        }
    } else if s[i] == 't' {
        if lit_at(s, i, "true"@) {
            Some(i + 4)
        } else {
            None
        }
    } else if s[i] == 'f' {
        if lit_at(s, i, "false"@) {
            Some(i + 5)
        } else {
            None
        }
    } else if s[i] == 'n' {
        if lit_at(s, i, "null"@) {
            Some(i + 4)
        } else {
            None
        }
    } else if s[i] == '-' || is_digit(s[i]) {
        match spec_number(s, i) {
            Some((v, j)) => Some(j),
            None => None,
        }
    } else if s[i] == '[' {
        if depth == 0 {
            None
        } else {
            let j = spec_ws(s, i + 1);
            if j < s.len() && s[j] == ']' {
                Some(j + 1)
            } else if i < j && j <= s.len() {
                spec_skip_items(s, j, (depth - 1) as nat)
            } else {
                None
            }
        }
    } else if s[i] == '{' {
        if depth == 0 {
            None
        } else {
            let j = spec_ws(s, i + 1);
            if j < s.len() && s[j] == '}' {
                Some(j + 1)
            } else if i < j && j <= s.len() {
                spec_skip_members(s, j, (depth - 1) as nat)
            } else {
                None
            }
        }
    } else {
        None
    }
}

/// The position just past the remaining array items (starting at the first
/// item) and the closing bracket.
pub open spec fn spec_skip_items(s: Seq<char>, i: int, depth: nat) -> Option<int>
    decreases s.len() - i, 1nat,
{
    if !(0 <= i <= s.len()) {
        None
    } else {
        match spec_skip_value(s, i, depth) {
            None => None,
            Some(j) => if i < j && j <= s.len() {
                let k = spec_ws(s, j);
                if k < s.len() && s[k] == ',' {
                    if i < k {
                        spec_skip_items(s, k + 1, depth)
                    } else {
                        None
                    }
                } else if k < s.len() && s[k] == ']' {
                    Some(k + 1)
                } else {
                    None
                }
            } else {
                None
            },
        }
    }
}

/// The position just past the remaining object members (starting at the
/// first key) and the closing brace.
pub open spec fn spec_skip_members(s: Seq<char>, i: int, depth: nat) -> Option<int>
    decreases s.len() - i, 1nat,
{
    if !(0 <= i <= s.len()) {
        None
    } else {
        match spec_string(s, i) {
            None => None,
            Some((key, j)) => if i < j && j <= s.len() {
                let k = spec_ws(s, j);
                if k < s.len() && s[k] == ':' {
                    let m = spec_ws(s, k + 1);
                    if i < m && m <= s.len() {
                        match spec_skip_value(s, m, depth) {
                            None => None,
                            Some(j2) => if m < j2 && j2 <= s.len() {
                                let k2 = spec_ws(s, j2);
                                if k2 < s.len() && s[k2] == ',' {
                                    let m2 = spec_ws(s, k2 + 1);
                                    if i < m2 && m2 <= s.len() {
                                        spec_skip_members(s, m2, depth)
                                    } else {
                                        None
                                    }
                                } else if k2 < s.len() && s[k2] == '}' {
                                    Some(k2 + 1)
                                } else {
                                    None
                                }
                            } else {
                                None
                            },
                        }
                    } else {
                        None
                    }
                } else {
                    None
                }
            } else {
                None
            },
        }
    }
}

/// Skip any well-formed value.
fn skip_value(s: &Vec<char>, i: usize, depth: u32) -> (r: Option<usize>)
    requires
        i <= s@.len(),
    ensures
        match r {
            Some(j) => spec_skip_value(s@, i as int, depth as nat) == Some(j as int) && i < j
                <= s@.len(),
            None => spec_skip_value(s@, i as int, depth as nat) is None,
        },
    decreases s@.len() - i, 0nat,
{
    let n = s.len();
    if i >= n {
        return None;
    }
    let c = s[i];
    if c == '"' {
        match parse_string(s, i) {
            Some((t, j)) => Some(j),
            None => None,
        }
    } else if c == 't' {
        if check_lit(s, i, "true") {
            proof {
                reveal_strlit("true");
            }
            Some(i + 4)
        } else {
            None
        }
    } else if c == 'f' {
        if check_lit(s, i, "false") {
            proof {
                reveal_strlit("false");
            }
            Some(i + 5)
        } else {
            None
        }
    } else if c == 'n' {
        if check_lit(s, i, "null") {
            proof {
                reveal_strlit("null");
            }
            Some(i + 4)
        } else {
            None
        }
    } else if c == '-' || (c >= '0' && c <= '9') {
        match parse_number(s, i) {
            Some((v, j)) => Some(j),
            None => None,
        }
    } else if c == '[' {
        if depth == 0 {
            return None;
        }
        let j = skip_ws(s, i + 1);
        if j < n && s[j] == ']' {
            Some(j + 1)
        } else {
            skip_items(s, j, depth - 1)
        }
    } else if c == '{' {
        if depth == 0 {
            return None;
        }
        let j = skip_ws(s, i + 1);
        if j < n && s[j] == '}' {
            Some(j + 1)
        } else {
            skip_members(s, j, depth - 1)
        }
    } else {
        None
    }
}

/// Skip the remaining array items and the closing bracket.
fn skip_items(s: &Vec<char>, i: usize, depth: u32) -> (r: Option<usize>)
    requires
        i <= s@.len(),
    ensures
        match r {
            Some(j) => spec_skip_items(s@, i as int, depth as nat) == Some(j as int) && i < j
                <= s@.len(),
            None => spec_skip_items(s@, i as int, depth as nat) is None,
        },
    decreases s@.len() - i, 1nat,
{
    let n = s.len();
    match skip_value(s, i, depth) {
        None => None,
        Some(j) => {
            let k = skip_ws(s, j);
            if k < n && s[k] == ',' {
                skip_items(s, k + 1, depth)
            } else if k < n && s[k] == ']' {
                Some(k + 1)
            } else {
                None
            }
        },
    }
}

/// Skip the remaining object members and the closing brace.
fn skip_members(s: &Vec<char>, i: usize, depth: u32) -> (r: Option<usize>)
    requires
        i <= s@.len(),
    ensures
        match r {
            Some(j) => spec_skip_members(s@, i as int, depth as nat) == Some(j as int) && i < j
                <= s@.len(),
            None => spec_skip_members(s@, i as int, depth as nat) is None,
        },
    decreases s@.len() - i, 1nat,
{
    let n = s.len();
    match parse_string(s, i) {
        None => None,
        Some((key, j)) => {
            let k = skip_ws(s, j);
            if k < n && s[k] == ':' {
                let m = skip_ws(s, k + 1);
                match skip_value(s, m, depth) {
                    None => None,
                    Some(j2) => {
                        let k2 = skip_ws(s, j2);
                        if k2 < n && s[k2] == ',' {
                            let m2 = skip_ws(s, k2 + 1);
                            skip_members(s, m2, depth)
                        } else if k2 < n && s[k2] == '}' {
                            Some(k2 + 1)
                        } else {
                            None
                        }
                    },
                }
            } else {
                None
            }
        },
    }
}


// ── Element objects ───────────────────────────────────────────────────────

/// The collected fields of one element object, before the element is built:
/// each known key's value, when present.
pub struct ElemData {
    /// The `type` tag.
    pub typ: Option<Seq<char>>,
    /// The `name` field.
    pub name: Option<Seq<char>>,
    /// The `text` field.
    pub text: Option<Seq<char>>,
    /// The `value` field.
    pub value: Option<Seq<char>>,
    /// The `data` field.
    pub data: Option<Seq<char>>,
    /// The `left` field.
    pub left: Option<Seq<char>>,
    /// The `right` field.
    pub right: Option<Seq<char>>,
    /// The `char` field.
    pub ch: Option<Seq<char>>,
    /// The `amount` field.
    pub amount: Option<Seq<char>>,
    /// The `label` field.
    pub label: Option<Seq<char>>,
    /// The `coupon_code` field.
    pub coupon_code: Option<Seq<char>>,
    /// The `shop_name` field.
    pub shop_name: Option<Seq<char>>,
    /// The `phone` field.
    pub phone: Option<Seq<char>>,
    /// The `address` field.
    pub address: Option<Seq<char>>,
    /// The `unit_price` field.
    pub unit_price: Option<Seq<char>>,
    /// The `discount` field.
    pub discount: Option<Seq<char>>,
    /// The `qty` field.
    pub qty: Option<int>,
    /// The `size` field.
    pub size: Option<int>,
    /// The `lines` field.
    pub lines: Option<int>,
    /// The `on` field.
    pub on: Option<bool>,
    /// The `included` field.
    pub included: Option<bool>,
}

/// An element object with no fields yet.
pub open spec fn empty_elem_data() -> ElemData {
    ElemData {
        typ: None,
        name: None,
        text: None,
        value: None,
        data: None,
        left: None,
        right: None,
        ch: None,
        amount: None,
        label: None,
        coupon_code: None,
        shop_name: None,
        phone: None,
        address: None,
        unit_price: None,
        discount: None,
        qty: None,
        size: None,
        lines: None,
        on: None,
        included: None,
    }
}

/// A malformed-document error with the given cause.
pub open spec fn jerr(message: Seq<char>) -> TemplateErrorView {
    TemplateErrorView::JsonError { message }
}

/// One known element field parsed at `m` into the collected data, or an
/// unknown field's value skipped.
pub open spec fn spec_elem_field(
    s: Seq<char>,
    m: int,
    d: ElemData,
    key: Seq<char>,
    depth: nat,
) -> Result<(ElemData, int), TemplateErrorView> {
    if key == "type"@ || key == "name"@ || key == "text"@ || key == "value"@ || key == "data"@
        || key == "left"@ || key == "right"@ || key == "char"@ || key == "amount"@ || key
        == "label"@ || key == "shop_name"@ || key == "phone"@ || key == "address"@ || key
        == "unit_price"@ {
        match spec_string(s, m) {
            Some((v, j)) => Ok(
                (
                    if key == "type"@ {
                        ElemData { typ: Some(v), ..d }
                    } else if key == "name"@ {
                        ElemData { name: Some(v), ..d }
                    } else if key == "text"@ {
                        ElemData { text: Some(v), ..d }
                    } else if key == "value"@ {
                        ElemData { value: Some(v), ..d }
                    } else if key == "data"@ {
                        ElemData { data: Some(v), ..d }
                    } else if key == "left"@ {
                        ElemData { left: Some(v), ..d }
                    } else if key == "right"@ {
                        ElemData { right: Some(v), ..d }
                    } else if key == "char"@ {
                        ElemData { ch: Some(v), ..d }
                    } else if key == "amount"@ {
                        ElemData { amount: Some(v), ..d }
                    } else if key == "label"@ {
                        ElemData { label: Some(v), ..d }
                    } else if key == "shop_name"@ {
                        ElemData { shop_name: Some(v), ..d }
                    } else if key == "phone"@ {
                        ElemData { phone: Some(v), ..d }
                    } else if key == "address"@ {
                        ElemData { address: Some(v), ..d }
                    } else {
                        ElemData { unit_price: Some(v), ..d }
                    },
                    j,
                ),
            ),
            None => Err(jerr("expected a string value"@)),
        }
    } else if key == "coupon_code"@ || key == "discount"@ {
        if lit_at(s, m, "null"@) {
            Ok(
                (
                    if key == "coupon_code"@ {
                        ElemData { coupon_code: None, ..d }
                    } else {
                        ElemData { discount: None, ..d }
                    },
                    m + 4,
                ),
            )
        } else {
            match spec_string(s, m) {
                Some((v, j)) => Ok(
                    (
                        if key == "coupon_code"@ {
                            ElemData { coupon_code: Some(v), ..d }
                        } else {
                            ElemData { discount: Some(v), ..d }
                        },
                        j,
                    ),
                ),
                None => Err(jerr("expected a string value"@)),
            }
        }
    } else if key == "qty"@ || key == "size"@ || key == "lines"@ {
        match spec_number(s, m) {
            Some((Some(v), j)) => Ok(
                (
                    if key == "qty"@ {
                        ElemData { qty: Some(v as int), ..d }
                    } else if key == "size"@ {
                        ElemData { size: Some(v as int), ..d }
                    } else {
                        ElemData { lines: Some(v as int), ..d }
                    },
                    j,
                ),
            ),
            Some((None, j)) => Err(jerr("expected an integer value"@)),
            None => Err(jerr("expected an integer value"@)),
        }
    } else if key == "on"@ || key == "included"@ {
        if lit_at(s, m, "true"@) {
            Ok(
                (
                    if key == "on"@ {
                        ElemData { on: Some(true), ..d }
                    } else {
                        ElemData { included: Some(true), ..d }
                    },
                    m + 4,
                ),
            )
        } else if lit_at(s, m, "false"@) {
            Ok(
                (
                    if key == "on"@ {
                        ElemData { on: Some(false), ..d }
                    } else {
                        ElemData { included: Some(false), ..d }
                    },
                    m + 5,
                ),
            )
        } else {
            Err(jerr("expected a boolean value"@))
        }
    } else {
        match spec_skip_value(s, m, depth) {
            Some(j) => Ok((d, j)),
            None => Err(jerr("malformed document syntax"@)),
        }
    }
}

/// The members of an element object from the first key at `i` through the
/// closing brace: the collected fields and the position after the brace.
pub open spec fn spec_elem_members(
    s: Seq<char>,
    i: int,
    d: ElemData,
    depth: nat,
) -> Result<(ElemData, int), TemplateErrorView>
    decreases s.len() - i,
{
    match spec_string(s, i) {
        None => Err(jerr("malformed document syntax"@)),
        Some((key, j)) => if !(i < j && j <= s.len()) {
            Err(jerr("malformed document syntax"@))
        } else {
            let k = spec_ws(s, j);
            if !(k < s.len() && s[k] == ':') {
                Err(jerr("malformed document syntax"@))
            } else {
                let m = spec_ws(s, k + 1);
                if !(i < m && m <= s.len()) {
                    Err(jerr("malformed document syntax"@))
                } else {
                    match spec_elem_field(s, m, d, key, depth) {
                        Err(e) => Err(e),
                        Ok((d2, j2)) => if !(m < j2 && j2 <= s.len()) {
                            Err(jerr("malformed document syntax"@))
                        } else {
                            let k2 = spec_ws(s, j2);
                            if k2 < s.len() && s[k2] == ',' {
                                let m2 = spec_ws(s, k2 + 1);
                                if i < m2 && m2 <= s.len() {
                                    spec_elem_members(s, m2, d2, depth)
                                } else {
                                    Err(jerr("malformed document syntax"@))
                                }
                            } else if k2 < s.len() && s[k2] == '}' {
                                Ok((d2, k2 + 1))
                            } else {
                                Err(jerr("malformed document syntax"@))
                            }
                        },
                    }
                }
            }
        },
    }
}

/// The build error of a collected element, if any: a missing or unknown
/// type tag, a missing required field, or an integer field out of its range.
pub open spec fn elem_build_err(d: ElemData) -> Option<TemplateErrorView> {
    match d.typ {
        None => Some(jerr("missing element type"@)),
        Some(t) => {
            if t == "init"@ || t == "blank"@ || t == "normal_size"@ || t == "cut"@ || t
                == "cut_full"@ || t == "form_feed"@ || t == "open_cash_drawer"@ || t == "divider"@
                || t == "bold"@ || t == "double_size"@ || t == "double_height"@ || t
                == "underline"@ {
                None
            } else if t == "feed"@ {
                if d.lines matches Some(v) && !(0 <= v <= 255) {
                    Some(jerr("integer out of range"@))
                } else {
                    None
                }
            } else if t == "qr_code"@ {
                if d.data is None {
                    Some(jerr("missing required element field"@))
                } else if d.size matches Some(v) && !(0 <= v <= 255) {
                    Some(jerr("integer out of range"@))
                } else {
                    None
                }
            } else if t == "shop_header"@ {
                if d.name is None {
                    Some(jerr("missing required element field"@))
                } else {
                    None
                }
            } else if t == "text_line"@ || t == "centered"@ || t == "right"@ {
                if d.text is None {
                    Some(jerr("missing required element field"@))
                } else {
                    None
                }
            } else if t == "row"@ {
                if d.left is None || d.right is None {
                    Some(jerr("missing required element field"@))
                } else {
                    None
                }
            } else if t == "align"@ {
                if d.value is None {
                    Some(jerr("missing required element field"@))
                } else {
                    None
                }
            } else if t == "item"@ {
                if d.name is None || d.qty is None || d.unit_price is None {
                    Some(jerr("missing required element field"@))
                } else if !(-0x80000000 <= d.qty->0 <= 0x7FFFFFFF) {
                    Some(jerr("integer out of range"@))
                } else {
                    None
                }
            } else if t == "subtotal"@ || t == "total"@ || t == "received"@ || t == "change"@ || t
                == "discount"@ {
                if d.amount is None {
                    Some(jerr("missing required element field"@))
                } else {
                    None
                }
            } else if t == "tax"@ {
                if d.label is None || d.amount is None {
                    Some(jerr("missing required element field"@))
                } else {
                    None
                }
            } else if t == "served_by"@ {
                if d.name is None {
                    Some(jerr("missing required element field"@))
                } else {
                    None
                }
            } else if t == "thank_you"@ {
                if d.shop_name is None {
                    Some(jerr("missing required element field"@))
                } else {
                    None
                }
            } else if t == "barcode_code128"@ || t == "barcode_ean13"@ {
                if d.value is None {
                    Some(jerr("missing required element field"@))
                } else {
                    None
                }
            } else {
                Some(jerr("unknown element type"@))
            }
        },
    }
}

/// A present value, or the empty string.
pub open spec fn or_empty(o: Option<Seq<char>>) -> Seq<char> {
    match o {
        Some(v) => v,
        None => Seq::<char>::empty(),
    }
}

/// Whether a built element is exactly what the collected fields describe,
/// with every documented default applied: empty shop header phone and
/// address, divider character `-`, style toggles on, QR size 4, feed 3.
pub open spec fn element_matches(d: ElemData, e: Element) -> bool {
    match e {
        Element::Init => d.typ == Some("init"@),
        Element::ShopHeader { name, phone, address } => d.typ == Some("shop_header"@) && d.name
            == Some(name@) && phone@ == or_empty(d.phone) && address@ == or_empty(d.address),
        Element::TextLine { text } => d.typ == Some("text_line"@) && d.text == Some(text@),
        Element::Centered { text } => d.typ == Some("centered"@) && d.text == Some(text@),
        Element::Right { text } => d.typ == Some("right"@) && d.text == Some(text@),
        Element::Row { left, right } => d.typ == Some("row"@) && d.left == Some(left@) && d.right
            == Some(right@),
        Element::Divider { ch } => d.typ == Some("divider"@) && ch@ == (match d.ch {
            Some(v) => v,
            None => "-"@,
        }),
        Element::Blank => d.typ == Some("blank"@),
        Element::Bold { on } => d.typ == Some("bold"@) && on == (d.on is None || d.on->0),
        Element::DoubleSize { on } => d.typ == Some("double_size"@) && on == (d.on is None
            || d.on->0),
        Element::DoubleHeight { on } => d.typ == Some("double_height"@) && on == (d.on is None
            || d.on->0),
        Element::NormalSize => d.typ == Some("normal_size"@),
        Element::Underline { on } => d.typ == Some("underline"@) && on == (d.on is None
            || d.on->0),
        Element::Align { value } => d.typ == Some("align"@) && d.value == Some(value@),
        Element::Item { name, qty, unit_price, discount } => d.typ == Some("item"@) && d.name
            == Some(name@) && d.qty == Some(qty as int) && d.unit_price == Some(unit_price@) && (
        match discount {
            Some(ds) => d.discount == Some(ds@),
            None => d.discount is None,
        }),
        Element::Subtotal { amount } => d.typ == Some("subtotal"@) && d.amount == Some(amount@),
        Element::Tax { label, amount, included } => d.typ == Some("tax"@) && d.label == Some(
            label@,
        ) && d.amount == Some(amount@) && included == (d.included is Some && d.included->0),
        Element::Discount { amount, coupon_code } => d.typ == Some("discount"@) && d.amount
            == Some(amount@) && (match coupon_code {
            Some(c) => d.coupon_code == Some(c@),
            None => d.coupon_code is None,
        }),
        Element::Total { amount } => d.typ == Some("total"@) && d.amount == Some(amount@),
        Element::Received { amount } => d.typ == Some("received"@) && d.amount == Some(amount@),
        Element::Change { amount } => d.typ == Some("change"@) && d.amount == Some(amount@),
        Element::ServedBy { name } => d.typ == Some("served_by"@) && d.name == Some(name@),
        Element::ThankYou { shop_name } => d.typ == Some("thank_you"@) && d.shop_name == Some(
            shop_name@,
        ),
        Element::BarcodeCode128 { value } => d.typ == Some("barcode_code128"@) && d.value == Some(
            value@,
        ),
        Element::BarcodeEan13 { value } => d.typ == Some("barcode_ean13"@) && d.value == Some(
            value@,
        ),
        Element::QrCode { data, size } => d.typ == Some("qr_code"@) && d.data == Some(data@) && (
        size as int == match d.size {
            Some(v) => v,
            None => 4,
        }),
        Element::Feed { lines } => d.typ == Some("feed"@) && (lines as int == match d.lines {
            Some(v) => v,
            None => 3,
        }),
        Element::Cut => d.typ == Some("cut"@),
        Element::CutFull => d.typ == Some("cut_full"@),
        Element::FormFeed => d.typ == Some("form_feed"@),
        Element::OpenCashDrawer => d.typ == Some("open_cash_drawer"@),
    }
}

/// One whole element object at `i` (at its opening brace): the collected
/// and checked fields and the position after the closing brace.
pub open spec fn spec_element(s: Seq<char>, i: int, depth: nat) -> Result<
    (ElemData, int),
    TemplateErrorView,
> {
    if !(0 <= i < s.len() && s[i] == '{') {
        Err(jerr("expected an element object"@))
    } else {
        let j = spec_ws(s, i + 1);
        let dm: Result<(ElemData, int), TemplateErrorView> = if j < s.len() && s[j] == '}' {
            Ok((empty_elem_data(), j + 1))
        } else if i < j && j <= s.len() {
            spec_elem_members(s, j, empty_elem_data(), depth)
        } else {
            Err(jerr("malformed document syntax"@))
        };
        match dm {
            Err(e) => Err(e),
            Ok((d, j2)) => match elem_build_err(d) {
                Some(e) => Err(e),
                None => Ok((d, j2)),
            },
        }
    }
}


/// Relies on `String::push`: it appends exactly the one character.
pub assume_specification[ String::push ](s: &mut String, c: char)
    ensures
        final(s)@ == old(s)@ + seq![c],
;

/// The string holding the given characters.
fn chars_to_string(v: &Vec<char>) -> (r: String)
    ensures
        r@ == v@,
{
    let n = v.len();
    let mut out = String::new();
    let mut i: usize = 0;
    while i < n
        invariant
            i <= n,
            n == v@.len(),
            out@ == v@.take(i as int),
        decreases n - i,
    {
        out.push(v[i]);
        proof {
            assert(v@.take(i as int) + seq![v@[i as int]] =~= v@.take(i as int + 1));
        }
        i = i + 1;
    }
    proof {
        assert(v@.take(n as int) =~= v@);
    }
    out
}

/// Whether a character vector spells a keyword.
fn chars_eq(a: &Vec<char>, lit: &str) -> (r: bool)
    ensures
        r == (a@ == lit@),
{
    let n = a.len();
    let m = vstd::string::StrSliceExecFns::unicode_len(lit);
    if n != m {
        assert(a@.len() != lit@.len());
        return false;
    }
    let mut i: usize = 0;
    while i < n
        invariant
            i <= n,
            n == a@.len(),
            n == lit@.len(),
            forall|j: int| 0 <= j < i ==> a@[j] == lit@[j],
        decreases n - i,
    {
        if a[i] != vstd::string::StrSliceExecFns::get_char(lit, i) {
            return false;
        }
        i = i + 1;
    }
    assert(a@ =~= lit@);
    true
}

/// The collected fields of one element object, as executable values.
struct ElemSlots {
    typ: Option<Vec<char>>,
    name: Option<Vec<char>>,
    text: Option<Vec<char>>,
    value: Option<Vec<char>>,
    data: Option<Vec<char>>,
    left: Option<Vec<char>>,
    right: Option<Vec<char>>,
    ch: Option<Vec<char>>,
    amount: Option<Vec<char>>,
    label: Option<Vec<char>>,
    coupon_code: Option<Vec<char>>,
    shop_name: Option<Vec<char>>,
    phone: Option<Vec<char>>,
    address: Option<Vec<char>>,
    unit_price: Option<Vec<char>>,
    discount: Option<Vec<char>>,
    qty: Option<i64>,
    size: Option<i64>,
    lines: Option<i64>,
    on: Option<bool>,
    included: Option<bool>,
}

/// The characters of an optional character vector.
pub open spec fn opt_view(o: Option<Vec<char>>) -> Option<Seq<char>> {
    match o {
        Some(v) => Some(v@),
        None => None,
    }
}

/// The value of an optional 64-bit integer.
pub open spec fn opt_int(o: Option<i64>) -> Option<int> {
    match o {
        Some(v) => Some(v as int),
        None => None,
    }
}

impl View for ElemSlots {
    type V = ElemData;

    closed spec fn view(&self) -> ElemData {
        ElemData {
            typ: opt_view(self.typ),
            name: opt_view(self.name),
            text: opt_view(self.text),
            value: opt_view(self.value),
            data: opt_view(self.data),
            left: opt_view(self.left),
            right: opt_view(self.right),
            ch: opt_view(self.ch),
            amount: opt_view(self.amount),
            label: opt_view(self.label),
            coupon_code: opt_view(self.coupon_code),
            shop_name: opt_view(self.shop_name),
            phone: opt_view(self.phone),
            address: opt_view(self.address),
            unit_price: opt_view(self.unit_price),
            discount: opt_view(self.discount),
            qty: opt_int(self.qty),
            size: opt_int(self.size),
            lines: opt_int(self.lines),
            on: self.on,
            included: self.included,
        }
    }
}

impl ElemSlots {
    /// An element object with no fields collected yet.
    fn empty() -> (r: ElemSlots)
        ensures
            r@ == empty_elem_data(),
    {
        ElemSlots {
            typ: None,
            name: None,
            text: None,
            value: None,
            data: None,
            left: None,
            right: None,
            ch: None,
            amount: None,
            label: None,
            coupon_code: None,
            shop_name: None,
            phone: None,
            address: None,
            unit_price: None,
            discount: None,
            qty: None,
            size: None,
            lines: None,
            on: None,
            included: None,
        }
    }
}

/// A syntax error value.
fn syntax_error() -> (r: TemplateError)
    ensures
        r@ == jerr("malformed document syntax"@),
{
    TemplateError::JsonError { message: "malformed document syntax".to_owned() }
}

/// Parse one known element field at `m` into the slots, or skip an unknown
/// field's value.
#[verifier::rlimit(100)]
#[verifier::spinoff_prover]
fn parse_elem_field(
    s: &Vec<char>,
    m: usize,
    slots: &mut ElemSlots,
    key: &Vec<char>,
    depth: u32,
) -> (r: Result<usize, TemplateError>)
    requires
        m <= s@.len(),
    ensures
        match r {
            Ok(j) => spec_elem_field(s@, m as int, old(slots)@, key@, depth as nat) == Ok::<
                (ElemData, int),
                TemplateErrorView,
            >((final(slots)@, j as int)) && m < j <= s@.len(),
            Err(e) => spec_elem_field(s@, m as int, old(slots)@, key@, depth as nat) == Err::<
                (ElemData, int),
                TemplateErrorView,
            >(e@),
        },
{
    let total = s.len();
    assert(s@.len() <= usize::MAX);
    if chars_eq(key, "type") || chars_eq(key, "name") || chars_eq(key, "text") || chars_eq(
        key,
        "value",
    ) || chars_eq(key, "data") || chars_eq(key, "left") || chars_eq(key, "right") || chars_eq(
        key,
        "char",
    ) || chars_eq(key, "amount") || chars_eq(key, "label") || chars_eq(key, "shop_name")
        || chars_eq(key, "phone") || chars_eq(key, "address") || chars_eq(key, "unit_price") {
        match parse_string(s, m) {
            Some((v, j)) => {
                if chars_eq(key, "type") {
                    slots.typ = Some(v);
                } else if chars_eq(key, "name") {
                    slots.name = Some(v);
                } else if chars_eq(key, "text") {
                    slots.text = Some(v);
                } else if chars_eq(key, "value") {
                    slots.value = Some(v);
                } else if chars_eq(key, "data") {
                    slots.data = Some(v);
                } else if chars_eq(key, "left") {
                    slots.left = Some(v);
                } else if chars_eq(key, "right") {
                    slots.right = Some(v);
                } else if chars_eq(key, "char") {
                    slots.ch = Some(v);
                } else if chars_eq(key, "amount") {
                    slots.amount = Some(v);
                } else if chars_eq(key, "label") {
                    slots.label = Some(v);
                } else if chars_eq(key, "shop_name") {
                    slots.shop_name = Some(v);
                } else if chars_eq(key, "phone") {
                    slots.phone = Some(v);
                } else if chars_eq(key, "address") {
                    slots.address = Some(v);
                } else {
                    slots.unit_price = Some(v);
                }
                Ok(j)
            },
            None => Err(
                TemplateError::JsonError { message: "expected a string value".to_owned() },
            ),
        }
    } else if chars_eq(key, "coupon_code") || chars_eq(key, "discount") {
        if check_lit(s, m, "null") {
            proof {
                reveal_strlit("null");
            }
            if chars_eq(key, "coupon_code") {
                slots.coupon_code = None;
            } else {
                slots.discount = None;
            }
            Ok(m + 4)
        } else {
            match parse_string(s, m) {
                Some((v, j)) => {
                    if chars_eq(key, "coupon_code") {
                        slots.coupon_code = Some(v);
                    } else {
                        slots.discount = Some(v);
                    }
                    Ok(j)
                },
                None => Err(
                    TemplateError::JsonError { message: "expected a string value".to_owned() },
                ),
            }
        }
    } else if chars_eq(key, "qty") || chars_eq(key, "size") || chars_eq(key, "lines") {
        match parse_number(s, m) {
            Some((Some(v), j)) => {
                if chars_eq(key, "qty") {
                    slots.qty = Some(v);
                } else if chars_eq(key, "size") {
                    slots.size = Some(v);
                } else {
                    slots.lines = Some(v);
                }
                Ok(j)
            },
            _ => Err(
                TemplateError::JsonError { message: "expected an integer value".to_owned() },
            ),
        }
    } else if chars_eq(key, "on") || chars_eq(key, "included") {
        if check_lit(s, m, "true") {
            proof {
                reveal_strlit("true");
            }
            if chars_eq(key, "on") {
                slots.on = Some(true);
            } else {
                slots.included = Some(true);
            }
            Ok(m + 4)
        } else if check_lit(s, m, "false") {
            proof {
                reveal_strlit("false");
            }
            if chars_eq(key, "on") {
                slots.on = Some(false);
            } else {
                slots.included = Some(false);
            }
            Ok(m + 5)
        } else {
            Err(TemplateError::JsonError { message: "expected a boolean value".to_owned() })
        }
    } else {
        match skip_value(s, m, depth) {
            Some(j) => Ok(j),
            None => Err(syntax_error()),
        }
    }
}


/// The error of a missing required element field.
fn missing_field_error() -> (r: TemplateError)
    ensures
        r@ == jerr("missing required element field"@),
{
    TemplateError::JsonError { message: "missing required element field".to_owned() }
}

/// The element kinds with no required fields: layout and style directives,
/// feeds and the QR code, whose fields all carry defaults.
pub open spec fn structural_type(t: Seq<char>) -> bool {
    t == "init"@ || t == "blank"@ || t == "normal_size"@ || t == "cut"@ || t == "cut_full"@ || t
        == "form_feed"@ || t == "open_cash_drawer"@ || t == "divider"@ || t == "bold"@ || t
        == "double_size"@ || t == "double_height"@ || t == "underline"@ || t == "feed"@ || t
        == "qr_code"@
}

/// Whether a type tag names a structural element kind.
fn is_structural(t: &Vec<char>) -> (r: bool)
    ensures
        r == structural_type(t@),
{
    chars_eq(t, "init") || chars_eq(t, "blank") || chars_eq(t, "normal_size") || chars_eq(t, "cut")
        || chars_eq(t, "cut_full") || chars_eq(t, "form_feed") || chars_eq(t, "open_cash_drawer")
        || chars_eq(t, "divider") || chars_eq(t, "bold") || chars_eq(t, "double_size") || chars_eq(
        t,
        "double_height",
    ) || chars_eq(t, "underline") || chars_eq(t, "feed") || chars_eq(t, "qr_code")
}

/// Build the element a collected object describes, applying the documented
/// defaults, or fail with the object's build error.
fn build_element(slots: ElemSlots) -> (r: Result<Element, TemplateError>)
    ensures
        match r {
            Ok(e) => elem_build_err(slots@) is None && element_matches(slots@, e),
            Err(er) => elem_build_err(slots@) == Some(er@),
        },
{
    let structural = match &slots.typ {
        None => {
            return Err(
                TemplateError::JsonError { message: "missing element type".to_owned() },
            );
        },
        Some(t) => is_structural(t),
    };
    if structural {
        build_structural_element(slots)
    } else {
        build_fielded_element(slots)
    }
}

/// Build one of the structural element kinds.
#[verifier::rlimit(100)]
#[verifier::spinoff_prover]
fn build_structural_element(slots: ElemSlots) -> (r: Result<Element, TemplateError>)
    requires
        slots@.typ matches Some(t) && structural_type(t),
    ensures
        match r {
            Ok(e) => elem_build_err(slots@) is None && element_matches(slots@, e),
            Err(er) => elem_build_err(slots@) == Some(er@),
        },
{
    let ElemSlots {
        typ,
        name,
        text,
        value,
        data,
        left,
        right,
        ch,
        amount,
        label,
        coupon_code,
        shop_name,
        phone,
        address,
        unit_price,
        discount,
        qty,
        size,
        lines,
        on,
        included,
    } = slots;
    let t = match typ {
        None => {
            return Err(TemplateError::JsonError { message: "missing element type".to_owned() });
        },
        Some(t) => t,
    };
    if chars_eq(&t, "init") {
        Ok(Element::Init)
    } else if chars_eq(&t, "blank") {
        Ok(Element::Blank)
    } else if chars_eq(&t, "normal_size") {
        Ok(Element::NormalSize)
    } else if chars_eq(&t, "cut") {
        Ok(Element::Cut)
    } else if chars_eq(&t, "cut_full") {
        Ok(Element::CutFull)
    } else if chars_eq(&t, "form_feed") {
        Ok(Element::FormFeed)
    } else if chars_eq(&t, "open_cash_drawer") {
        Ok(Element::OpenCashDrawer)
    } else if chars_eq(&t, "divider") {
        let c = match ch {
            Some(v) => chars_to_string(&v),
            None => "-".to_owned(),
        };
        Ok(Element::Divider { ch: c })
    } else if chars_eq(&t, "bold") {
        Ok(Element::Bold { on: match on {
            Some(b) => b,
            None => true,
        } })
    } else if chars_eq(&t, "double_size") {
        Ok(Element::DoubleSize { on: match on {
            Some(b) => b,
            None => true,
        } })
    } else if chars_eq(&t, "double_height") {
        Ok(Element::DoubleHeight { on: match on {
            Some(b) => b,
            None => true,
        } })
    } else if chars_eq(&t, "underline") {
        Ok(Element::Underline { on: match on {
            Some(b) => b,
            None => true,
        } })
    } else if chars_eq(&t, "feed") {
        let v: i64 = match lines {
            Some(v) => v,
            None => 3,
        };
        if !(0 <= v && v <= 255) {
            return Err(TemplateError::JsonError { message: "integer out of range".to_owned() });
        }
        Ok(Element::Feed { lines: v as u8 })
    } else if chars_eq(&t, "qr_code") {
        let dt = match data {
            None => {
                return Err(missing_field_error());
            },
            Some(v) => v,
        };
        let v: i64 = match size {
            Some(v) => v,
            None => 4,
        };
        if !(0 <= v && v <= 255) {
            return Err(TemplateError::JsonError { message: "integer out of range".to_owned() });
        }
        Ok(Element::QrCode { data: chars_to_string(&dt), size: v as u8 })
    } else {
        // unreachable: the type tag is structural
        Err(TemplateError::JsonError { message: "unknown element type".to_owned() })
    }
}

/// Build one of the element kinds with required fields.
#[verifier::rlimit(100)]
#[verifier::spinoff_prover]
fn build_fielded_element(slots: ElemSlots) -> (r: Result<Element, TemplateError>)
    requires
        slots@.typ matches Some(t) && !structural_type(t),
    ensures
        match r {
            Ok(e) => elem_build_err(slots@) is None && element_matches(slots@, e),
            Err(er) => elem_build_err(slots@) == Some(er@),
        },
{
    let ElemSlots {
        typ,
        name,
        text,
        value,
        data,
        left,
        right,
        ch,
        amount,
        label,
        coupon_code,
        shop_name,
        phone,
        address,
        unit_price,
        discount,
        qty,
        size,
        lines,
        on,
        included,
    } = slots;
    let t = match typ {
        None => {
            return Err(TemplateError::JsonError { message: "missing element type".to_owned() });
        },
        Some(t) => t,
    };
    if chars_eq(&t, "shop_header") {
        let nm = match name {
            None => {
                return Err(missing_field_error());
            },
            Some(v) => v,
        };
        Ok(
            Element::ShopHeader {
                name: chars_to_string(&nm),
                phone: match phone {
                    Some(v) => chars_to_string(&v),
                    None => String::new(),
                },
                address: match address {
                    Some(v) => chars_to_string(&v),
                    None => String::new(),
                },
            },
        )
    } else if chars_eq(&t, "text_line") || chars_eq(&t, "centered") || chars_eq(&t, "right") {
        let tx = match text {
            None => {
                return Err(missing_field_error());
            },
            Some(v) => v,
        };
        if chars_eq(&t, "text_line") {
            Ok(Element::TextLine { text: chars_to_string(&tx) })
        } else if chars_eq(&t, "centered") {
            Ok(Element::Centered { text: chars_to_string(&tx) })
        } else {
            Ok(Element::Right { text: chars_to_string(&tx) })
        }
    } else if chars_eq(&t, "row") {
        let l = match left {
            None => {
                return Err(missing_field_error());
            },
            Some(v) => v,
        };
        let rgt = match right {
            None => {
                return Err(missing_field_error());
            },
            Some(v) => v,
        };
        Ok(Element::Row { left: chars_to_string(&l), right: chars_to_string(&rgt) })
    } else if chars_eq(&t, "align") {
        let v = match value {
            None => {
                return Err(missing_field_error());
            },
            Some(v) => v,
        };
        Ok(Element::Align { value: chars_to_string(&v) })
    } else if chars_eq(&t, "item") {
        if name.is_none() || qty.is_none() || unit_price.is_none() {
            return Err(missing_field_error());
        }
        let nm = match name {
            Some(v) => v,
            None => Vec::new(),
        };
        let q: i64 = match qty {
            Some(v) => v,
            None => 0,
        };
        let up = match unit_price {
            Some(v) => v,
            None => Vec::new(),
        };
        if !(-0x80000000 <= q && q <= 0x7FFFFFFF) {
            return Err(TemplateError::JsonError { message: "integer out of range".to_owned() });
        }
        Ok(
            Element::Item {
                name: chars_to_string(&nm),
                qty: q as i32,
                unit_price: chars_to_string(&up),
                discount: match discount {
                    Some(v) => Some(chars_to_string(&v)),
                    None => None,
                },
            },
        )
    } else if chars_eq(&t, "subtotal") || chars_eq(&t, "total") || chars_eq(&t, "received")
        || chars_eq(&t, "change") || chars_eq(&t, "discount") {
        let a = match amount {
            None => {
                return Err(missing_field_error());
            },
            Some(v) => v,
        };
        if chars_eq(&t, "subtotal") {
            Ok(Element::Subtotal { amount: chars_to_string(&a) })
        } else if chars_eq(&t, "total") {
            Ok(Element::Total { amount: chars_to_string(&a) })
        } else if chars_eq(&t, "received") {
            Ok(Element::Received { amount: chars_to_string(&a) })
        } else if chars_eq(&t, "change") {
            Ok(Element::Change { amount: chars_to_string(&a) })
        } else {
            Ok(
                Element::Discount {
                    amount: chars_to_string(&a),
                    coupon_code: match coupon_code {
                        Some(v) => Some(chars_to_string(&v)),
                        None => None,
                    },
                },
            )
        }
    } else if chars_eq(&t, "tax") {
        if label.is_none() || amount.is_none() {
            return Err(missing_field_error());
        }
        let lb = match label {
            Some(v) => v,
            None => Vec::new(),
        };
        let a = match amount {
            Some(v) => v,
            None => Vec::new(),
        };
        Ok(
            Element::Tax {
                label: chars_to_string(&lb),
                amount: chars_to_string(&a),
                included: match included {
                    Some(b) => b,
                    None => false,
                },
            },
        )
    } else if chars_eq(&t, "served_by") {
        let nm = match name {
            None => {
                return Err(missing_field_error());
            },
            Some(v) => v,
        };
        Ok(Element::ServedBy { name: chars_to_string(&nm) })
    } else if chars_eq(&t, "thank_you") {
        let sn = match shop_name {
            None => {
                return Err(missing_field_error());
            },
            Some(v) => v,
        };
        Ok(Element::ThankYou { shop_name: chars_to_string(&sn) })
    } else if chars_eq(&t, "barcode_code128") || chars_eq(&t, "barcode_ean13") {
        let v = match value {
            None => {
                return Err(missing_field_error());
            },
            Some(v) => v,
        };
        if chars_eq(&t, "barcode_code128") {
            Ok(Element::BarcodeCode128 { value: chars_to_string(&v) })
        } else {
            Ok(Element::BarcodeEan13 { value: chars_to_string(&v) })
        }
    } else {
        Err(TemplateError::JsonError { message: "unknown element type".to_owned() })
    }
}

/// Parse one whole element object at `i` (at its opening brace).
#[verifier::rlimit(100)]
#[verifier::spinoff_prover]
fn parse_element(s: &Vec<char>, i: usize, depth: u32) -> (r: Result<(Element, usize), TemplateError>)
    requires
        i <= s@.len(),
    ensures
        match r {
            Ok(p) => (spec_element(s@, i as int, depth as nat) matches Ok(q) && q.1 == p.1 as int
                && element_matches(q.0, p.0)) && i < p.1 <= s@.len(),
            Err(er) => spec_element(s@, i as int, depth as nat) == Err::<
                (ElemData, int),
                TemplateErrorView,
            >(er@),
        },
{
    let n = s.len();
    if !(i < n && s[i] == '{') {
        return Err(
            TemplateError::JsonError { message: "expected an element object".to_owned() },
        );
    }
    let j0 = skip_ws(s, i + 1);
    let mut slots = ElemSlots::empty();
    let mut jend: usize = 0;
    if j0 < n && s[j0] == '}' {
        jend = j0 + 1;
    } else {
        if !(i < j0 && j0 <= n) {
            return Err(syntax_error());
        }
        let mut pos = j0;
        loop
            invariant_except_break
                spec_elem_members(s@, j0 as int, empty_elem_data(), depth as nat)
                    == spec_elem_members(s@, pos as int, slots@, depth as nat),
            invariant
                i < pos <= n,
                n == s@.len(),
                i < n,
                s@[i as int] == '{',
                j0 == spec_ws(s@, i as int + 1),
                !(j0 < n && s@[j0 as int] == '}'),
                i < j0 <= n,
            ensures
                spec_elem_members(s@, j0 as int, empty_elem_data(), depth as nat) == Ok::<
                    (ElemData, int),
                    TemplateErrorView,
                >((slots@, jend as int)) && i < jend <= n,
            decreases s@.len() - pos,
        {
            match parse_string(s, pos) {
                None => {
                    return Err(syntax_error());
                },
                Some((key, j)) => {
                    let k = skip_ws(s, j);
                    if !(k < n && s[k] == ':') {
                        return Err(syntax_error());
                    }
                    let m = skip_ws(s, k + 1);
                    match parse_elem_field(s, m, &mut slots, &key, depth) {
                        Err(e) => {
                            return Err(e);
                        },
                        Ok(j2) => {
                            let k2 = skip_ws(s, j2);
                            if k2 < n && s[k2] == ',' {
                                let m2 = skip_ws(s, k2 + 1);
                                pos = m2;
                            } else if k2 < n && s[k2] == '}' {
                                jend = k2 + 1;
                                proof {
                                    assert(spec_elem_members(
                                        s@,
                                        j0 as int,
                                        empty_elem_data(),
                                        depth as nat,
                                    ) == Ok::<(ElemData, int), TemplateErrorView>(
                                        (slots@, jend as int),
                                    ));
                                }
                                break;
                            } else {
                                return Err(syntax_error());
                            }
                        },
                    }
                },
            }
        }
    }
    match build_element(slots) {
        Ok(e) => Ok((e, jend)),
        Err(er) => Err(er),
    }
}

// ── The elements array and the template object ────────────────────────────

/// The element objects of an array from the first object at `i` through the
/// closing bracket, appended to `acc`.
pub open spec fn spec_elements_items(
    s: Seq<char>,
    i: int,
    acc: Seq<ElemData>,
    depth: nat,
) -> Result<(Seq<ElemData>, int), TemplateErrorView>
    decreases s.len() - i,
{
    match spec_element(s, i, depth) {
        Err(e) => Err(e),
        Ok((d, j)) => if !(i < j && j <= s.len()) {
            Err(jerr("malformed document syntax"@))
        } else {
            let k = spec_ws(s, j);
            if k < s.len() && s[k] == ',' {
                let m = spec_ws(s, k + 1);
                if i < m && m <= s.len() {
                    spec_elements_items(s, m, acc.push(d), depth)
                } else {
                    Err(jerr("malformed document syntax"@))
                }
            } else if k < s.len() && s[k] == ']' {
                Ok((acc.push(d), k + 1))
            } else {
                Err(jerr("malformed document syntax"@))
            }
        },
    }
}

/// A whole elements array at `m` (at its opening bracket).
pub open spec fn spec_elements(s: Seq<char>, m: int, depth: nat) -> Result<
    (Seq<ElemData>, int),
    TemplateErrorView,
> {
    if !(0 <= m < s.len() && s[m] == '[') {
        Err(jerr("expected an array of element objects"@))
    } else {
        let j = spec_ws(s, m + 1);
        if j < s.len() && s[j] == ']' {
            Ok((Seq::<ElemData>::empty(), j + 1))
        } else if m < j && j <= s.len() {
            spec_elements_items(s, j, Seq::<ElemData>::empty(), depth)
        } else {
            Err(jerr("malformed document syntax"@))
        }
    }
}

/// Parse a whole elements array at `m`.
#[verifier::rlimit(100)]
#[verifier::spinoff_prover]
fn parse_elements(s: &Vec<char>, m: usize, depth: u32) -> (r: Result<
    (Vec<Element>, usize),
    TemplateError,
>)
    requires
        m <= s@.len(),
    ensures
        match r {
            Ok(p) => (spec_elements(s@, m as int, depth as nat) matches Ok(q) && q.1 == p.1 as int
                && q.0.len() == p.0@.len() && (forall|k: int|
                0 <= k < q.0.len() ==> element_matches(q.0[k], #[trigger] p.0@[k]))) && m < p.1
                <= s@.len(),
            Err(er) => spec_elements(s@, m as int, depth as nat) == Err::<
                (Seq<ElemData>, int),
                TemplateErrorView,
            >(er@),
        },
{
    let n = s.len();
    if !(m < n && s[m] == '[') {
        return Err(
            TemplateError::JsonError {
                message: "expected an array of element objects".to_owned(),
            },
        );
    }
    let j0 = skip_ws(s, m + 1);
    if j0 < n && s[j0] == ']' {
        return Ok((Vec::new(), j0 + 1));
    }
    if !(m < j0 && j0 <= n) {
        return Err(syntax_error());
    }
    let mut es: Vec<Element> = Vec::new();
    let ghost mut dacc: Seq<ElemData> = Seq::<ElemData>::empty();
    let mut pos = j0;
    let mut jend: usize = 0;
    loop
        invariant_except_break
            spec_elements_items(s@, j0 as int, Seq::<ElemData>::empty(), depth as nat)
                == spec_elements_items(s@, pos as int, dacc, depth as nat),
        invariant
            m < pos <= n,
            n == s@.len(),
            m < n,
            s@[m as int] == '[',
            j0 == spec_ws(s@, m as int + 1),
            !(j0 < n && s@[j0 as int] == ']'),
            m < j0 <= n,
            es@.len() == dacc.len(),
            forall|k: int| 0 <= k < dacc.len() ==> element_matches(dacc[k], #[trigger] es@[k]),
        ensures
            es@.len() == dacc.len(),
            forall|k: int| 0 <= k < dacc.len() ==> element_matches(dacc[k], #[trigger] es@[k]),
            spec_elements_items(s@, j0 as int, Seq::<ElemData>::empty(), depth as nat) == Ok::<
                (Seq<ElemData>, int),
                TemplateErrorView,
            >((dacc, jend as int)),
            m < jend <= n,
        decreases s@.len() - pos,
    {
        match parse_element(s, pos, depth) {
            Err(e) => {
                return Err(e);
            },
            Ok((e, j)) => {
                es.push(e);
                proof {
                    dacc = dacc.push(
                        spec_element(s@, pos as int, depth as nat)->Ok_0.0,
                    );
                }
                let k = skip_ws(s, j);
                if k < n && s[k] == ',' {
                    let m2 = skip_ws(s, k + 1);
                    pos = m2;
                } else if k < n && s[k] == ']' {
                    jend = k + 1;
                    proof {
                        assert(spec_elements_items(
                            s@,
                            j0 as int,
                            Seq::<ElemData>::empty(),
                            depth as nat,
                        ) == Ok::<(Seq<ElemData>, int), TemplateErrorView>((dacc, jend as int)));
                    }
                    break;
                } else {
                    return Err(syntax_error());
                }
            },
        }
    }
    Ok((es, jend))
}

/// The collected top-level fields of a template document.
pub struct TplData {
    /// The `width` field.
    pub width: Option<Seq<char>>,
    /// The `currency` field.
    pub currency: Option<Seq<char>>,
    /// The `language` field.
    pub language: Option<Seq<char>>,
    /// The `elements` field.
    pub elements: Option<Seq<ElemData>>,
}

/// A template document with no fields yet.
pub open spec fn empty_tpl_data() -> TplData {
    TplData { width: None, currency: None, language: None, elements: None }
}

/// One known top-level field parsed at `m`, or an unknown field's value
/// skipped.
pub open spec fn spec_tpl_field(
    s: Seq<char>,
    m: int,
    d: TplData,
    key: Seq<char>,
    depth: nat,
) -> Result<(TplData, int), TemplateErrorView> {
    if key == "width"@ || key == "currency"@ || key == "language"@ {
        match spec_string(s, m) {
            Some((v, j)) => Ok(
                (
                    if key == "width"@ {
                        TplData { width: Some(v), ..d }
                    } else if key == "currency"@ {
                        TplData { currency: Some(v), ..d }
                    } else {
                        TplData { language: Some(v), ..d }
                    },
                    j,
                ),
            ),
            None => Err(jerr("expected a string value"@)),
        }
    } else if key == "elements"@ {
        match spec_elements(s, m, depth) {
            Err(e) => Err(e),
            Ok((es, j)) => Ok((TplData { elements: Some(es), ..d }, j)),
        }
    } else {
        match spec_skip_value(s, m, depth) {
            Some(j) => Ok((d, j)),
            None => Err(jerr("malformed document syntax"@)),
        }
    }
}

/// The members of the top-level object from the first key at `i` through
/// the closing brace.
pub open spec fn spec_tpl_members(s: Seq<char>, i: int, d: TplData, depth: nat) -> Result<
    (TplData, int),
    TemplateErrorView,
>
    decreases s.len() - i,
{
    match spec_string(s, i) {
        None => Err(jerr("malformed document syntax"@)),
        Some((key, j)) => if !(i < j && j <= s.len()) {
            Err(jerr("malformed document syntax"@))
        } else {
            let k = spec_ws(s, j);
            if !(k < s.len() && s[k] == ':') {
                Err(jerr("malformed document syntax"@))
            } else {
                let m = spec_ws(s, k + 1);
                if !(i < m && m <= s.len()) {
                    Err(jerr("malformed document syntax"@))
                } else {
                    match spec_tpl_field(s, m, d, key, depth) {
                        Err(e) => Err(e),
                        Ok((d2, j2)) => if !(m < j2 && j2 <= s.len()) {
                            Err(jerr("malformed document syntax"@))
                        } else {
                            let k2 = spec_ws(s, j2);
                            if k2 < s.len() && s[k2] == ',' {
                                let m2 = spec_ws(s, k2 + 1);
                                if i < m2 && m2 <= s.len() {
                                    spec_tpl_members(s, m2, d2, depth)
                                } else {
                                    Err(jerr("malformed document syntax"@))
                                }
                            } else if k2 < s.len() && s[k2] == '}' {
                                Ok((d2, k2 + 1))
                            } else {
                                Err(jerr("malformed document syntax"@))
                            }
                        },
                    }
                }
            }
        },
    }
}

/// What a whole template document parses to: the collected top-level fields
/// and per-element fields, or the first error. A document fails exactly
/// when it is not a single well-formed object (with nothing but whitespace
/// after it, nesting within the depth budget of 128), when a known field
/// has the wrong type, when an element is malformed, or when the elements
/// array is missing.
pub open spec fn spec_template_data(s: Seq<char>) -> Result<TplData, TemplateErrorView> {
    let i0 = spec_ws(s, 0);
    if !(i0 < s.len() && s[i0] == '{') {
        Err(jerr("expected a top-level object"@))
    } else {
        let j = spec_ws(s, i0 + 1);
        let dm: Result<(TplData, int), TemplateErrorView> = if j < s.len() && s[j] == '}' {
            Ok((empty_tpl_data(), j + 1))
        } else if i0 < j && j <= s.len() {
            spec_tpl_members(s, j, empty_tpl_data(), 128)
        } else {
            Err(jerr("malformed document syntax"@))
        };
        match dm {
            Err(e) => Err(e),
            Ok((d, j2)) => {
                let k = spec_ws(s, j2);
                if k != s.len() {
                    Err(jerr("trailing characters after the document"@))
                } else if d.elements is None {
                    Err(jerr("missing elements array"@))
                } else {
                    Ok(d)
                }
            },
        }
    }
}

/// Whether a built template is exactly what the collected document fields
/// describe, with the documented defaults: width `80mm`, currency `FCFA`,
/// language `fr`.
pub open spec fn template_matches(d: TplData, t: ReceiptTemplate) -> bool {
    &&& t.width@ == (match d.width {
        Some(v) => v,
        None => "80mm"@,
    })
    &&& t.currency@ == (match d.currency {
        Some(v) => v,
        None => "FCFA"@,
    })
    &&& t.language@ == (match d.language {
        Some(v) => v,
        None => "fr"@,
    })
    &&& d.elements matches Some(es) && t.elements@.len() == es.len() && (forall|k: int|
        0 <= k < es.len() ==> element_matches(es[k], #[trigger] t.elements@[k]))
}

/// The characters of a string slice, as a vector.
fn str_to_chars(s: &str) -> (r: Vec<char>)
    ensures
        r@ == s@,
{
    let n = vstd::string::StrSliceExecFns::unicode_len(s);
    let mut out: Vec<char> = Vec::new();
    let mut i: usize = 0;
    while i < n
        invariant
            i <= n,
            n == s@.len(),
            out@.len() == i,
            forall|j: int| 0 <= j < i ==> out@[j] == s@[j],
        decreases n - i,
    {
        out.push(vstd::string::StrSliceExecFns::get_char(s, i));
        i = i + 1;
    }
    assert(out@ =~= s@);
    out
}

impl ReceiptTemplate {
    /// Parse a JSON string into a receipt template. Fails exactly on the
    /// documents `spec_template_data` rejects, with that error; succeeds
    /// with the described template, defaults applied.
    #[verifier::rlimit(100)]
    #[verifier::spinoff_prover]
    pub fn from_json(json: &str) -> (r: Result<ReceiptTemplate, TemplateError>)
        ensures
            match r {
                Ok(t) => spec_template_data(json@) matches Ok(d) && template_matches(d, t),
                Err(e) => spec_template_data(json@) == Err::<TplData, TemplateErrorView>(e@),
            },
    {
        let s = str_to_chars(json);
        let n = s.len();
        let i0 = skip_ws(&s, 0);
        if !(i0 < n && s[i0] == '{') {
            return Err(
                TemplateError::JsonError { message: "expected a top-level object".to_owned() },
            );
        }
        let j0 = skip_ws(&s, i0 + 1);

        let mut width: Option<Vec<char>> = None;
        let mut currency: Option<Vec<char>> = None;
        let mut language: Option<Vec<char>> = None;
        let mut elements: Option<Vec<Element>> = None;
        let ghost mut dtpl: TplData = empty_tpl_data();
        let mut jend: usize = 0;

        if j0 < n && s[j0] == '}' {
            jend = j0 + 1;
        } else {
            if !(i0 < j0 && j0 <= n) {
                return Err(syntax_error());
            }
            let mut pos = j0;
            loop
                invariant_except_break
                    spec_tpl_members(s@, j0 as int, empty_tpl_data(), 128) == spec_tpl_members(
                        s@,
                        pos as int,
                        dtpl,
                        128,
                    ),
                invariant
                    i0 < pos <= n,
                    n == s@.len(),
                    s@ == json@,
                    i0 < n,
                    s@[i0 as int] == '{',
                    i0 == spec_ws(s@, 0),
                    j0 == spec_ws(s@, i0 as int + 1),
                    !(j0 < n && s@[j0 as int] == '}'),
                    i0 < j0 <= n,
                    dtpl.width == opt_view(width),
                    dtpl.currency == opt_view(currency),
                    dtpl.language == opt_view(language),
                    (match (dtpl.elements, elements) {
                        (Some(ds), Some(es)) => ds.len() == es@.len() && (forall|k: int|
                            0 <= k < ds.len() ==> element_matches(ds[k], #[trigger] es@[k])),
                        (None, None) => true,
                        _ => false,
                    }),
                ensures
                    dtpl.width == opt_view(width),
                    dtpl.currency == opt_view(currency),
                    dtpl.language == opt_view(language),
                    (match (dtpl.elements, elements) {
                        (Some(ds), Some(es)) => ds.len() == es@.len() && (forall|k: int|
                            0 <= k < ds.len() ==> element_matches(ds[k], #[trigger] es@[k])),
                        (None, None) => true,
                        _ => false,
                    }),
                    spec_tpl_members(s@, j0 as int, empty_tpl_data(), 128) == Ok::<
                        (TplData, int),
                        TemplateErrorView,
                    >((dtpl, jend as int)),
                    jend <= n,
                decreases s@.len() - pos,
            {
                match parse_string(&s, pos) {
                    None => {
                        return Err(syntax_error());
                    },
                    Some((key, j)) => {
                        let k = skip_ws(&s, j);
                        if !(k < n && s[k] == ':') {
                            return Err(syntax_error());
                        }
                        let m = skip_ws(&s, k + 1);
                        // one known top-level field, or an unknown value skipped
                        let j2: usize;
                        if chars_eq(&key, "width") || chars_eq(&key, "currency") || chars_eq(
                            &key,
                            "language",
                        ) {
                            match parse_string(&s, m) {
                                Some((v, jj)) => {
                                    if chars_eq(&key, "width") {
                                        width = Some(v);
                                        proof {
                                            dtpl = TplData { width: opt_view(width), ..dtpl };
                                        }
                                    } else if chars_eq(&key, "currency") {
                                        currency = Some(v);
                                        proof {
                                            dtpl = TplData { currency: opt_view(currency), ..dtpl };
                                        }
                                    } else {
                                        language = Some(v);
                                        proof {
                                            dtpl = TplData { language: opt_view(language), ..dtpl };
                                        }
                                    }
                                    j2 = jj;
                                },
                                None => {
                                    return Err(
                                        TemplateError::JsonError {
                                            message: "expected a string value".to_owned(),
                                        },
                                    );
                                },
                            }
                        } else if chars_eq(&key, "elements") {
                            match parse_elements(&s, m, 128) {
                                Err(e) => {
                                    return Err(e);
                                },
                                Ok((es, jj)) => {
                                    proof {
                                        dtpl = TplData {
                                            elements: Some(
                                                spec_elements(s@, m as int, 128)->Ok_0.0,
                                            ),
                                            ..dtpl
                                        };
                                    }
                                    elements = Some(es);
                                    j2 = jj;
                                },
                            }
                        } else {
                            match skip_value(&s, m, 128) {
                                Some(jj) => {
                                    j2 = jj;
                                },
                                None => {
                                    return Err(syntax_error());
                                },
                            }
                        }
                        let k2 = skip_ws(&s, j2);
                        if k2 < n && s[k2] == ',' {
                            let m2 = skip_ws(&s, k2 + 1);
                            pos = m2;
                        } else if k2 < n && s[k2] == '}' {
                            jend = k2 + 1;
                            proof {
                                assert(spec_tpl_members(s@, j0 as int, empty_tpl_data(), 128)
                                    == Ok::<(TplData, int), TemplateErrorView>(
                                    (dtpl, jend as int),
                                ));
                            }
                            break;
                        } else {
                            return Err(syntax_error());
                        }
                    },
                }
            }
        }

        let k = skip_ws(&s, jend);
        if k != n {
            return Err(
                TemplateError::JsonError {
                    message: "trailing characters after the document".to_owned(),
                },
            );
        }
        let es = match elements {
            None => {
                return Err(
                    TemplateError::JsonError { message: "missing elements array".to_owned() },
                );
            },
            Some(es) => es,
        };
        let t = ReceiptTemplate {
            width: match width {
                Some(v) => chars_to_string(&v),
                None => "80mm".to_owned(),
            },
            currency: match currency {
                Some(v) => chars_to_string(&v),
                None => "FCFA".to_owned(),
            },
            language: match language {
                Some(v) => chars_to_string(&v),
                None => "fr".to_owned(),
            },
            elements: es,
        };
        Ok(t)
    }
}

/// Parse a JSON string and render it directly to printer bytes: the
/// simplest entry point of the template engine. Fails exactly where the
/// document parser or the renderer fails, with that error, and yields no
/// partial buffer.
pub fn render_json(json: &str) -> (r: Result<Vec<u8>, TemplateError>)
    ensures
        match r {
            Ok(bytes) => spec_template_data(json@) matches Ok(d) && (exists|t: ReceiptTemplate|
                #[trigger] template_matches(d, t) && crate::template::spec_render(t) == Ok::<
                    Seq<u8>,
                    TemplateErrorView,
                >(bytes@)),
            Err(e) => spec_template_data(json@) == Err::<TplData, TemplateErrorView>(e@) || (
            spec_template_data(json@) matches Ok(d) && (exists|t: ReceiptTemplate|
                #[trigger] template_matches(d, t) && crate::template::spec_render(t) == Err::<
                    Seq<u8>,
                    TemplateErrorView,
                >(e@))),
        },
{
    match ReceiptTemplate::from_json(json) {
        Err(e) => Err(e),
        Ok(t) => {
            let out = t.render();
            match out {
                Ok(bytes) => {
                    proof {
                        let d = spec_template_data(json@)->Ok_0;
                        assert(template_matches(d, t) && crate::template::spec_render(t) == Ok::<
                            Seq<u8>,
                            TemplateErrorView,
                        >(bytes@));
                    }
                    Ok(bytes)
                },
                Err(e) => {
                    proof {
                        let d = spec_template_data(json@)->Ok_0;
                        assert(template_matches(d, t) && crate::template::spec_render(t) == Err::<
                            Seq<u8>,
                            TemplateErrorView,
                        >(e@));
                    }
                    Err(e)
                },
            }
        },
    }
}


} // verus!
