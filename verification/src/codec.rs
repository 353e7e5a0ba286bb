//! The telemetry codec: one UTF-8 text frame holds one JSON object that
//! describes the full game state.
//!
//! The frame grammar is parsed here directly, character by character:
//! an object of string keys whose values are strings (with the usual
//! escapes), plain decimal numbers (no exponent notation), booleans,
//! nulls, arrays and nested objects.  Known keys fill the corresponding
//! [`GameState`] field; unknown keys are skipped; fractional numbers are
//! read as fixed-point hundredths.

use vstd::prelude::*;

use crate::game::GameState;
use crate::game::GameStateView;
use crate::game::spec_default_state;
use crate::game::spec_status_from_code;
use crate::game::spec_beatmap_status_from_code;
use crate::game::status_from_code;
use crate::game::beatmap_status_from_code;
use crate::game::Mods;
use crate::text::push_char;
use crate::text::spec_is_ws;
use crate::text::is_ws;
use crate::text::spec_skip_ws;
use crate::text::lemma_skip_ws_bounds;
use crate::text::lemma_skip_ws_value;
use crate::text::str_chars;
use crate::text::str_eq;

verus! {

/// A frame that is not a complete, well-formed telemetry object.
/// Malformed telemetry is a fatal protocol fault, so no detail is kept.
#[derive(Clone, Copy, Debug, PartialEq, Eq, Structural)]
pub struct DecodeError;

/// Relies on char::from_u32: `Some` exactly for the values that are
/// Unicode scalar values (not surrogates, not above the maximum), and
/// then the character with that value.
pub assume_specification[ char::from_u32 ](u: u32) -> (r: Option<char>)
    ensures
        r == (if u < 0xD800 || (0xE000 <= u <= 0x10FFFF) {
            Some(u as char)
        } else {
            None::<char>
        }),
;

/// Skip insignificant whitespace from `i` on.
fn ws(v: &Vec<char>, i: usize) -> (j: usize)
    requires
        i <= v@.len(),
    ensures
        j == spec_skip_ws(v@, i as int),
        i <= j <= v@.len(),
{
    let mut j = i;
    while j < v.len() && is_ws(v[j])
        invariant
            i <= j <= v@.len(),
            forall|m: int| i <= m < j ==> spec_is_ws(v@[m]),
        decreases v@.len() - j,
    {
        j = j + 1;
    }
    proof {
        lemma_skip_ws_value(v@, i as int, j as int);
    }
    j
}

/// A decimal digit.
pub open spec fn spec_is_digit(c: char) -> bool {
    48 <= c as int <= 57
}

fn is_digit(c: char) -> (r: bool)
    ensures
        r == spec_is_digit(c),
{
    let u = c as u32;
    48 <= u && u <= 57
}

/// First position at or after `i` that holds no decimal digit, or the end.
pub open spec fn spec_digits_end(s: Seq<char>, i: int) -> int
    decreases s.len() - i,
    when 0 <= i <= s.len()
{
    if i >= s.len() {
        i
    } else if spec_is_digit(s[i]) {
        spec_digits_end(s, i + 1)
    } else {
        i
    }
}

pub proof fn lemma_digits_end_bounds(s: Seq<char>, i: int)
    requires
        0 <= i <= s.len(),
    ensures
        i <= spec_digits_end(s, i) <= s.len(),
        forall|m: int| i <= m < spec_digits_end(s, i) ==> spec_is_digit(s[m]),
        spec_digits_end(s, i) == s.len() || !spec_is_digit(s[spec_digits_end(s, i)]),
    decreases s.len() - i,
{
    if i < s.len() && spec_is_digit(s[i]) {
        lemma_digits_end_bounds(s, i + 1);
    }
}

proof fn lemma_digits_end_value(s: Seq<char>, i: int, j: int)
    requires
        0 <= i <= j <= s.len(),
        forall|m: int| i <= m < j ==> spec_is_digit(s[m]),
        j == s.len() || !spec_is_digit(s[j]),
    ensures
        spec_digits_end(s, i) == j,
    decreases j - i,
{
    if i < j {
        lemma_digits_end_value(s, i + 1, j);
    }
}

/// The value of the decimal digits `s[i..j)`, most significant first.
pub open spec fn spec_digits_val(s: Seq<char>, i: int, j: int) -> int
    decreases j - i,
    when i <= j
{
    if i >= j {
        0
    } else {
        spec_digits_val(s, i, j - 1) * 10 + (s[j - 1] as int - 48)
    }
}

proof fn lemma_digits_val_nonneg(s: Seq<char>, i: int, j: int)
    requires
        0 <= i <= j <= s.len(),
        forall|m: int| i <= m < j ==> spec_is_digit(s[m]),
    ensures
        spec_digits_val(s, i, j) >= 0,
    decreases j - i,
{
    if i < j {
        lemma_digits_val_nonneg(s, i, j - 1);
        assert(s[j - 1] as int - 48 >= 0);
        assert(spec_digits_val(s, i, j - 1) * 10 >= 0) by (nonlinear_arith)
            requires
                spec_digits_val(s, i, j - 1) >= 0,
        ;
    }
}

/// Once the digit value has passed a bound it never comes back under it.
proof fn lemma_digits_val_mono(s: Seq<char>, i: int, m: int, j: int)
    requires
        0 <= i <= m <= j <= s.len(),
        forall|k: int| i <= k < j ==> spec_is_digit(s[k]),
    ensures
        spec_digits_val(s, i, j) >= spec_digits_val(s, i, m),
    decreases j - m,
{
    if m < j {
        lemma_digits_val_mono(s, i, m, j - 1);
        lemma_digits_val_nonneg(s, i, j - 1);
        assert(s[j - 1] as int - 48 >= 0);
        assert(spec_digits_val(s, i, j) == spec_digits_val(s, i, j - 1) * 10 + (s[j - 1] as int
            - 48));
        assert(spec_digits_val(s, i, j - 1) * 10 >= spec_digits_val(s, i, j - 1)) by (nonlinear_arith)
            requires
                spec_digits_val(s, i, j - 1) >= 0,
        ;
    }
}

/// A parsed decimal number: sign, integral part, the first two fraction
/// digits (zero-padded), and whether a fraction was written at all.
pub ghost struct NumView {
    pub neg: bool,
    pub whole: int,
    pub frac2: int,
    pub has_frac: bool,
}

/// The first two fraction digits of `s[i..k)`, zero-padded on the right.
pub open spec fn spec_frac2(s: Seq<char>, i: int, k: int) -> int {
    (s[i] as int - 48) * 10 + (if i + 1 < k {
        s[i + 1] as int - 48
    } else {
        0
    })
}

/// Parse a plain decimal number at `i`: optional minus, digits, an
/// optional fraction.  Exponent notation and integral parts beyond the
/// largest unsigned machine word are refused.
pub open spec fn spec_parse_number(s: Seq<char>, i: int) -> Option<(NumView, int)>
    recommends
        0 <= i <= s.len(),
{
    if i >= s.len() {
        None
    } else {
        let neg = s[i] == '-';
        let i1 = if neg {
            i + 1
        } else {
            i
        };
        if i1 >= s.len() {
            None
        } else {
            let j = spec_digits_end(s, i1);
            if j == i1 {
                None
            } else {
                let whole = spec_digits_val(s, i1, j);
                if whole > u64::MAX {
                    None
                } else if j < s.len() && s[j] == '.' {
                    let k = spec_digits_end(s, j + 1);
                    if k == j + 1 {
                        None
                    } else if k < s.len() && (s[k] == 'e' || s[k] == 'E') {
                        None
                    } else {
                        Some(
                            (
                                NumView {
                                    neg,
                                    whole,
                                    frac2: spec_frac2(s, j + 1, k),
                                    has_frac: true,
                                },
                                k,
                            ),
                        )
                    }
                } else if j < s.len() && (s[j] == 'e' || s[j] == 'E') {
                    None
                } else {
                    Some((NumView { neg, whole, frac2: 0, has_frac: false }, j))
                }
            }
        }
    }
}

/// A parsed number at the executable level; `frac2` is in hundredths.
pub struct NumParts {
    pub neg: bool,
    pub whole: u64,
    pub frac2: u8,
    pub has_frac: bool,
}

impl View for NumParts {
    type V = NumView;

    open spec fn view(&self) -> NumView {
        NumView {
            neg: self.neg,
            whole: self.whole as int,
            frac2: self.frac2 as int,
            has_frac: self.has_frac,
        }
    }
}

/// Scan the digit run starting at `i` and compute its value, refusing a
/// value beyond the largest unsigned machine word.
fn digits_val(v: &Vec<char>, i: usize) -> (r: Option<(u64, usize)>)
    requires
        i <= v@.len(),
    ensures
        ({
            let j = spec_digits_end(v@, i as int);
            match r {
                Some((val, p)) => {
                    &&& p == j
                    &&& val == spec_digits_val(v@, i as int, j)
                    &&& i <= p <= v@.len()
                },
                None => spec_digits_val(v@, i as int, j) > u64::MAX,
            }
        }),
{
    proof {
        lemma_digits_end_bounds(v@, i as int);
    }
    let ghost j = spec_digits_end(v@, i as int);
    let mut p = i;
    let mut val: u64 = 0;
    while p < v.len() && is_digit(v[p])
        invariant
            i <= p <= v@.len(),
            j == spec_digits_end(v@, i as int),
            i <= j <= v@.len(),
            j == v@.len() || !spec_is_digit(v@[j]),
            forall|m: int| i <= m < j ==> spec_is_digit(v@[m]),
            forall|m: int| i <= m < p ==> spec_is_digit(v@[m]),
            val == spec_digits_val(v@, i as int, p as int),
        decreases v@.len() - p,
    {
        proof {
            assert(spec_is_digit(v@[p as int]));
            if p >= j {
                // p == j would put a digit at the stop position
                assert(false);
            }
        }
        let d = (v[p] as u32 - 48) as u64;
        if val > (u64::MAX - d) / 10 {
            proof {
                assert(val * 10 + d > u64::MAX) by (nonlinear_arith)
                    requires
                        val > (u64::MAX - d) / 10,
                        d <= 9,
                ;
                assert(spec_digits_val(v@, i as int, p + 1) == val * 10 + d);
                lemma_digits_val_mono(v@, i as int, p + 1, j);
            }
            return None;
        }
        proof {
            assert(val * 10 + d <= u64::MAX) by (nonlinear_arith)
                requires
                    val <= (u64::MAX - d) / 10,
                    d <= 9,
            ;
        }
        val = val * 10 + d;
        p = p + 1;
    }
    proof {
        // the loop stopped at the end or on a non-digit, so p is the run's end
        if p < j {
            assert(spec_is_digit(v@[p as int]));
            assert(false);
        }
        if p > j {
            assert(spec_is_digit(v@[j]));
            assert(false);
        }
        assert(p == j);
    }
    Some((val, p))
}

/// Parse a number at `i` (see `spec_parse_number`).
fn parse_number(v: &Vec<char>, i: usize) -> (r: Option<(NumParts, usize)>)
    requires
        i <= v@.len(),
    ensures
        ({
            let s = spec_parse_number(v@, i as int);
            match r {
                Some((n, p)) => {
                    &&& s == Some((n@, p as int))
                    &&& i < p <= v@.len()
                    &&& n.frac2 <= 99
                },
                None => s is None,
            }
        }),
{
    if i >= v.len() {
        return None;
    }
    let neg = v[i] == '-';
    let i1 = if neg {
        i + 1
    } else {
        i
    };
    if i1 >= v.len() {
        return None;
    }
    let whole_r = digits_val(v, i1);
    let (whole, j) = match whole_r {
        None => {
            return None;
        },
        Some(wj) => wj,
    };
    if j == i1 {
        return None;
    }
    if j < v.len() && v[j] == '.' {
        let frac_r = digits_val(v, j + 1);
        let ghost k = spec_digits_end(v@, j + 1);
        let frac_end = match frac_r {
            None => {
                // the run is too long to evaluate, but its first two
                // digits are all the fraction contributes; find its end
                let mut q = j + 1;
                while q < v.len() && is_digit(v[q])
                    invariant
                        j + 1 <= q <= v@.len(),
                        forall|m: int| j + 1 <= m < q ==> spec_is_digit(v@[m]),
                    decreases v@.len() - q,
                {
                    q = q + 1;
                }
                proof {
                    lemma_digits_end_value(v@, j + 1, q as int);
                }
                q
            },
            Some((_, p)) => p,
        };
        if frac_end == j + 1 {
            return None;
        }
        if frac_end < v.len() && (v[frac_end] == 'e' || v[frac_end] == 'E') {
            return None;
        }
        proof {
            lemma_digits_end_bounds(v@, j + 1);
        }
        let d1 = (v[j + 1] as u32 - 48) as u8;
        let d2 = if j + 2 < frac_end {
            (v[j + 2] as u32 - 48) as u8
        } else {
            0
        };
        let frac2 = d1 * 10 + d2;
        proof {
            assert(frac2 <= 99);
        }
        Some((NumParts { neg, whole, frac2, has_frac: true }, frac_end))
    } else if j < v.len() && (v[j] == 'e' || v[j] == 'E') {
        None
    } else {
        Some((NumParts { neg, whole, frac2: 0, has_frac: false }, j))
    }
}

/// The value of one hexadecimal digit character.
pub open spec fn spec_hex_val(c: char) -> Option<int> {
    if 48 <= c as int <= 57 {
        Some(c as int - 48)
    } else if 97 <= c as int <= 102 {
        Some(c as int - 87)
    } else if 65 <= c as int <= 70 {
        Some(c as int - 55)
    } else {
        None
    }
}

/// The value of the four hexadecimal digits at `i`.
pub open spec fn spec_hex4(s: Seq<char>, i: int) -> Option<int>
    recommends
        0 <= i,
        i + 4 <= s.len(),
{
    match (spec_hex_val(s[i]), spec_hex_val(s[i + 1]), spec_hex_val(s[i + 2]), spec_hex_val(
        s[i + 3],
    )) {
        (Some(a), Some(b), Some(c), Some(d)) => Some(a * 4096 + b * 256 + c * 16 + d),
        _ => None,
    }
}

/// One escape sequence whose backslash sits at `i`: the character it
/// denotes and how many input characters it occupies (2, or 6 for a
/// four-digit scalar escape; surrogate values are refused).
pub open spec fn spec_escape(s: Seq<char>, i: int) -> Option<(char, int)>
    recommends
        0 <= i < s.len(),
{
    if i + 1 >= s.len() {
        None
    } else {
        let c = s[i + 1];
        if c == '"' {
            Some(('"', 2))
        } else if c == '\\' {
            Some(('\\', 2))
        } else if c == '/' {
            Some(('/', 2))
        } else if c == 'b' {
            Some(('\u{0008}', 2))
        } else if c == 'f' {
            Some(('\u{000C}', 2))
        } else if c == 'n' {
            Some(('\n', 2))
        } else if c == 'r' {
            Some(('\r', 2))
        } else if c == 't' {
            Some(('\t', 2))
        } else if c == 'u' {
            if i + 6 > s.len() {
                None
            } else {
                match spec_hex4(s, i + 2) {
                    None => None,
                    Some(u) => if 0xD800 <= u < 0xE000 {
                        None
                    } else {
                        Some((u as char, 6))
                    },
                }
            }
        } else {
            None
        }
    }
}

/// The contents of a string literal whose opening quote sits just before
/// `i`, and the position after the closing quote.
pub open spec fn spec_string_tail(s: Seq<char>, i: int) -> Option<(Seq<char>, int)>
    decreases s.len() - i,
    when 0 <= i <= s.len()
{
    if i >= s.len() {
        None
    } else if s[i] == '"' {
        Some((Seq::<char>::empty(), i + 1))
    } else if s[i] == '\\' {
        match spec_escape(s, i) {
            None => None,
            Some((c, n)) => if n < 2 || i + n > s.len() {
                None
            } else {
                match spec_string_tail(s, i + n) {
                    None => None,
                    Some((rest, k)) => Some((seq![c] + rest, k)),
                }
            },
        }
    } else {
        match spec_string_tail(s, i + 1) {
            None => None,
            Some((rest, k)) => Some((seq![s[i]] + rest, k)),
        }
    }
}

/// A parsed string's end position is after its opening position and
/// within bounds.
pub proof fn lemma_string_tail_bounds(s: Seq<char>, i: int)
    requires
        0 <= i <= s.len(),
        spec_string_tail(s, i) is Some,
    ensures
        i < (spec_string_tail(s, i)->0).1 <= s.len(),
    decreases s.len() - i,
{
    if i >= s.len() {
    } else if s[i] == '"' {
    } else if s[i] == '\\' {
        match spec_escape(s, i) {
            None => {},
            Some((c, n)) => {
                if 2 <= n && i + n <= s.len() {
                    lemma_string_tail_bounds(s, i + n);
                }
            },
        }
    } else {
        lemma_string_tail_bounds(s, i + 1);
    }
}

fn hex_val(c: char) -> (r: Option<u32>)
    ensures
        match r {
            Some(x) => spec_hex_val(c) == Some(x as int) && x < 16,
            None => spec_hex_val(c) is None,
        },
{
    let u = c as u32;
    if 48 <= u && u <= 57 {
        Some(u - 48)
    } else if 97 <= u && u <= 102 {
        Some(u - 87)
    } else if 65 <= u && u <= 70 {
        Some(u - 55)
    } else {
        None
    }
}

fn hex4(v: &Vec<char>, i: usize) -> (r: Option<u32>)
    requires
        i + 4 <= v@.len(),
    ensures
        match r {
            Some(u) => spec_hex4(v@, i as int) == Some(u as int) && u <= 0xFFFF,
            None => spec_hex4(v@, i as int) is None,
        },
{
    let n = v.len();
    proof {
        // the length bound keeps the index arithmetic in range
        assert(i + 4 <= n);
    }
    let a = hex_val(v[i]);
    let b = hex_val(v[i + 1]);
    let c = hex_val(v[i + 2]);
    let d = hex_val(v[i + 3]);
    match (a, b, c, d) {
        (Some(a), Some(b), Some(c), Some(d)) => Some(a * 4096 + b * 256 + c * 16 + d),
        _ => None,
    }
}

/// Parse the rest of a string literal whose opening quote sits just
/// before `i` (see `spec_string_tail`).
fn string_tail(v: &Vec<char>, i: usize) -> (r: Option<(String, usize)>)
    requires
        i <= v@.len(),
    ensures
        match r {
            Some(cp) => spec_string_tail(v@, i as int) == Some((cp.0@, cp.1 as int)) && i < cp.1
                <= v@.len(),
            None => spec_string_tail(v@, i as int) is None,
        },
{
    let mut acc = String::new();
    let mut cur = i;
    loop
        invariant
            i <= cur <= v@.len(),
            spec_string_tail(v@, i as int) == (match spec_string_tail(v@, cur as int) {
                Some((rest, k)) => Some((acc@ + rest, k)),
                None => None::<(Seq<char>, int)>,
            }),
        decreases v@.len() - cur,
    {
        if cur >= v.len() {
            return None;
        }
        let c = v[cur];
        if c == '"' {
            proof {
                assert(acc@ + Seq::<char>::empty() =~= acc@);
                lemma_string_tail_bounds(v@, i as int);
            }
            return Some((acc, cur + 1));
        }
        if c == '\\' {
            if cur + 1 >= v.len() {
                return None;
            }
            let e = v[cur + 1];
            let ec: char;
            let n: usize;
            if e == '"' {
                ec = '"';
                n = 2;
            } else if e == '\\' {
                ec = '\\';
                n = 2;
            } else if e == '/' {
                ec = '/';
                n = 2;
            } else if e == 'b' {
                ec = '\u{0008}';
                n = 2;
            } else if e == 'f' {
                ec = '\u{000C}';
                n = 2;
            } else if e == 'n' {
                ec = '\n';
                n = 2;
            } else if e == 'r' {
                ec = '\r';
                n = 2;
            } else if e == 't' {
                ec = '\t';
                n = 2;
            } else if e == 'u' {
                if v.len() - cur < 6 {
                    return None;
                }
                match hex4(v, cur + 2) {
                    None => {
                        return None;
                    },
                    Some(u) => {
                        if 0xD800 <= u && u < 0xE000 {
                            return None;
                        }
                        match char::from_u32(u) {
                            Some(c2) => {
                                ec = c2;
                                n = 6;
                            },
                            None => {
                                return None;
                            },
                        }
                    },
                }
            } else {
                return None;
            }
            proof {
                assert(spec_escape(v@, cur as int) == Some((ec, n as int)));
            }
            let ghost prev = acc@;
            push_char(&mut acc, ec);
            proof {
                match spec_string_tail(v@, cur + n) {
                    Some((rest, k)) => {
                        assert(prev + (seq![ec] + rest) =~= prev.push(ec) + rest);
                    },
                    None => {},
                }
            }
            cur = cur + n;
        } else {
            let ghost prev = acc@;
            push_char(&mut acc, c);
            proof {
                match spec_string_tail(v@, cur + 1) {
                    Some((rest, k)) => {
                        assert(prev + (seq![c] + rest) =~= prev.push(c) + rest);
                    },
                    None => {},
                }
            }
            cur = cur + 1;
        }
    }
}

/// Position after the value that starts at `i`, whatever its kind, or
/// `None` where no well-formed value starts there.
pub open spec fn spec_skip_value(s: Seq<char>, i: int) -> Option<int>
    decreases s.len() - i, 0int,
    when 0 <= i <= s.len()
{
    if i >= s.len() {
        None
    } else if s[i] == '{' {
        spec_skip_object_rest(s, i + 1)
    } else if s[i] == '[' {
        spec_skip_array_rest(s, i + 1)
    } else if s[i] == '"' {
        match spec_string_tail(s, i + 1) {
            None => None,
            Some((c, k)) => {
                proof {
                    lemma_string_tail_bounds(s, i + 1);
                }
                Some(k)
            },
        }
    } else if s[i] == 't' {
        if i + 4 <= s.len() && s[i + 1] == 'r' && s[i + 2] == 'u' && s[i + 3] == 'e' {
            Some(i + 4)
        } else {
            None
        }
    } else if s[i] == 'f' {
        if i + 5 <= s.len() && s[i + 1] == 'a' && s[i + 2] == 'l' && s[i + 3] == 's' && s[i + 4]
            == 'e' {
            Some(i + 5)
        } else {
            None
        }
    } else if s[i] == 'n' {
        if i + 4 <= s.len() && s[i + 1] == 'u' && s[i + 2] == 'l' && s[i + 3] == 'l' {
            Some(i + 4)
        } else {
            None
        }
    } else {
        match spec_parse_number(s, i) {
            None => None,
            Some((num, p)) => if i < p <= s.len() {
                Some(p)
            } else {
                None
            },
        }
    }
}

/// Position after the rest of an object whose opening brace sits just
/// before `i`: members separated by commas, then the closing brace.
pub open spec fn spec_skip_object_rest(s: Seq<char>, i: int) -> Option<int>
    decreases s.len() - i, 1int,
    when 0 <= i <= s.len()
{
    let j = spec_skip_ws(s, i);
    proof {
        lemma_skip_ws_bounds(s, i);
    }
    if j >= s.len() {
        None
    } else if s[j] == '}' {
        Some(j + 1)
    } else if s[j] != '"' {
        None
    } else {
        match spec_string_tail(s, j + 1) {
            None => None,
            Some((key, k)) => {
                proof {
                    lemma_string_tail_bounds(s, j + 1);
                }
                let k1 = spec_skip_ws(s, k);
                proof {
                    lemma_skip_ws_bounds(s, k);
                }
                if k1 >= s.len() || s[k1] != ':' {
                    None
                } else {
                    let w = spec_skip_ws(s, k1 + 1);
                    proof {
                        lemma_skip_ws_bounds(s, k1 + 1);
                    }
                    match spec_skip_value(s, w) {
                        None => None,
                        Some(p) => if p <= w || p > s.len() {
                            None
                        } else {
                            let p1 = spec_skip_ws(s, p);
                            proof {
                                lemma_skip_ws_bounds(s, p);
                            }
                            if p1 >= s.len() {
                                None
                            } else if s[p1] == '}' {
                                Some(p1 + 1)
                            } else if s[p1] == ',' {
                                spec_skip_object_rest(s, p1 + 1)
                            } else {
                                None
                            }
                        },
                    }
                }
            },
        }
    }
}

/// Position after the rest of an array whose opening bracket sits just
/// before `i`: values separated by commas, then the closing bracket.
pub open spec fn spec_skip_array_rest(s: Seq<char>, i: int) -> Option<int>
    decreases s.len() - i, 1int,
    when 0 <= i <= s.len()
{
    let j = spec_skip_ws(s, i);
    proof {
        lemma_skip_ws_bounds(s, i);
    }
    if j >= s.len() {
        None
    } else if s[j] == ']' {
        Some(j + 1)
    } else {
        match spec_skip_value(s, j) {
            None => None,
            Some(p) => if p <= j || p > s.len() {
                None
            } else {
                let p1 = spec_skip_ws(s, p);
                proof {
                    lemma_skip_ws_bounds(s, p);
                }
                if p1 >= s.len() {
                    None
                } else if s[p1] == ']' {
                    Some(p1 + 1)
                } else if s[p1] == ',' {
                    spec_skip_array_rest(s, p1 + 1)
                } else {
                    None
                }
            },
        }
    }
}

/// Skip the value at `i` (see `spec_skip_value`).
fn skip_value(v: &Vec<char>, i: usize) -> (r: Option<usize>)
    requires
        i <= v@.len(),
    ensures
        match r {
            Some(p) => spec_skip_value(v@, i as int) == Some(p as int) && i < p <= v@.len(),
            None => spec_skip_value(v@, i as int) is None,
        },
    decreases v@.len() - i, 0int,
{
    let n = v.len();
    if i >= n {
        return None;
    }
    let c = v[i];
    if c == '{' {
        skip_object_rest(v, i + 1)
    } else if c == '[' {
        skip_array_rest(v, i + 1)
    } else if c == '"' {
        match string_tail(v, i + 1) {
            None => None,
            Some((_, k)) => Some(k),
        }
    } else if c == 't' {
        if n - i >= 4 && v[i + 1] == 'r' && v[i + 2] == 'u' && v[i + 3] == 'e' {
            Some(i + 4)
        } else {
            None
        }
    } else if c == 'f' {
        if n - i >= 5 && v[i + 1] == 'a' && v[i + 2] == 'l' && v[i + 3] == 's' && v[i + 4]
            == 'e' {
            Some(i + 5)
        } else {
            None
        }
    } else if c == 'n' {
        if n - i >= 4 && v[i + 1] == 'u' && v[i + 2] == 'l' && v[i + 3] == 'l' {
            Some(i + 4)
        } else {
            None
        }
    } else {
        match parse_number(v, i) {
            None => None,
            Some((_, p)) => Some(p),
        }
    }
}

/// Skip the rest of an object (see `spec_skip_object_rest`).
fn skip_object_rest(v: &Vec<char>, i: usize) -> (r: Option<usize>)
    requires
        i <= v@.len(),
    ensures
        match r {
            Some(p) => spec_skip_object_rest(v@, i as int) == Some(p as int) && i <= p
                <= v@.len(),
            None => spec_skip_object_rest(v@, i as int) is None,
        },
    decreases v@.len() - i, 1int,
{
    let n = v.len();
    let j = ws(v, i);
    if j >= n {
        return None;
    }
    if v[j] == '}' {
        return Some(j + 1);
    }
    if v[j] != '"' {
        return None;
    }
    let (_, k) = match string_tail(v, j + 1) {
        None => {
            return None;
        },
        Some(ck) => ck,
    };
    let k1 = ws(v, k);
    if k1 >= n || v[k1] != ':' {
        return None;
    }
    let w = ws(v, k1 + 1);
    let p = match skip_value(v, w) {
        None => {
            return None;
        },
        Some(p) => p,
    };
    let p1 = ws(v, p);
    if p1 >= n {
        return None;
    }
    if v[p1] == '}' {
        return Some(p1 + 1);
    }
    if v[p1] == ',' {
        return skip_object_rest(v, p1 + 1);
    }
    None
}

/// Skip the rest of an array (see `spec_skip_array_rest`).
fn skip_array_rest(v: &Vec<char>, i: usize) -> (r: Option<usize>)
    requires
        i <= v@.len(),
    ensures
        match r {
            Some(p) => spec_skip_array_rest(v@, i as int) == Some(p as int) && i <= p
                <= v@.len(),
            None => spec_skip_array_rest(v@, i as int) is None,
        },
    decreases v@.len() - i, 1int,
{
    let n = v.len();
    let j = ws(v, i);
    if j >= n {
        return None;
    }
    if v[j] == ']' {
        return Some(j + 1);
    }
    let p = match skip_value(v, j) {
        None => {
            return None;
        },
        Some(p) => p,
    };
    let p1 = ws(v, p);
    if p1 >= n {
        return None;
    }
    if v[p1] == ']' {
        return Some(p1 + 1);
    }
    if v[p1] == ',' {
        return skip_array_rest(v, p1 + 1);
    }
    None
}

/// The signed value of a parsed number's integral part.
pub open spec fn spec_signed(n: NumView) -> int {
    if n.neg {
        -n.whole
    } else {
        n.whole
    }
}

/// A whole number within `[lo, hi]` at `i`: a fraction or a value out of
/// range is refused.
pub open spec fn spec_num_in_range(s: Seq<char>, i: int, lo: int, hi: int) -> Option<(int, int)> {
    match spec_parse_number(s, i) {
        None => None,
        Some((n, p)) => if !n.has_frac && lo <= spec_signed(n) <= hi {
            Some((spec_signed(n), p))
        } else {
            None
        },
    }
}

fn num_i64_in(v: &Vec<char>, i: usize, lo: i64, hi: i64) -> (r: Option<(i64, usize)>)
    requires
        i <= v@.len(),
    ensures
        match r {
            Some(xp) => spec_num_in_range(v@, i as int, lo as int, hi as int) == Some(
                (xp.0 as int, xp.1 as int),
            ) && i < xp.1 <= v@.len(),
            None => spec_num_in_range(v@, i as int, lo as int, hi as int) is None,
        },
{
    let (parts, p) = match parse_number(v, i) {
        None => {
            return None;
        },
        Some(np) => np,
    };
    if parts.has_frac {
        return None;
    }
    let val: i64;
    if parts.neg {
        if parts.whole > 9223372036854775808u64 {
            return None;
        }
        if parts.whole == 9223372036854775808u64 {
            val = i64::MIN;
        } else {
            val = -(parts.whole as i64);
        }
    } else {
        if parts.whole > 9223372036854775807u64 {
            return None;
        }
        val = parts.whole as i64;
    }
    if val < lo || val > hi {
        return None;
    }
    Some((val, p))
}

/// The fixed-point value of a parsed number, in hundredths (fraction
/// digits beyond the second are discarded).
pub open spec fn spec_centi_of(n: NumView) -> int {
    n.whole * 100 + n.frac2
}

/// A non-negative fixed-point value at `i`, at most `max` hundredths.
pub open spec fn spec_num_centi(s: Seq<char>, i: int, max: int) -> Option<(int, int)> {
    match spec_parse_number(s, i) {
        None => None,
        Some((n, p)) => if !n.neg && spec_centi_of(n) <= max {
            Some((spec_centi_of(n), p))
        } else {
            None
        },
    }
}

fn num_centi(v: &Vec<char>, i: usize, max: u64) -> (r: Option<(u64, usize)>)
    requires
        i <= v@.len(),
        max >= 99,
    ensures
        match r {
            Some(cp) => spec_num_centi(v@, i as int, max as int) == Some(
                (cp.0 as int, cp.1 as int),
            ) && cp.0 <= max && i < cp.1 <= v@.len(),
            None => spec_num_centi(v@, i as int, max as int) is None,
        },
{
    let (parts, p) = match parse_number(v, i) {
        None => {
            return None;
        },
        Some(np) => np,
    };
    if parts.neg {
        return None;
    }
    let f = parts.frac2 as u64;
    if parts.whole > (max - f) / 100 {
        proof {
            assert(parts.whole * 100 + f > max) by (nonlinear_arith)
                requires
                    parts.whole > (max - f) / 100,
                    f <= 99,
                    max >= f,
            ;
        }
        return None;
    }
    proof {
        assert(parts.whole * 100 <= max - f) by (nonlinear_arith)
            requires
                parts.whole <= (max - f) / 100,
                max >= f,
        ;
    }
    let c = parts.whole * 100 + f;
    Some((c, p))
}

/// A string value at `i`: opening quote, contents, closing quote.
pub open spec fn spec_string_value(s: Seq<char>, i: int) -> Option<(Seq<char>, int)> {
    if i < s.len() && s[i] == '"' {
        spec_string_tail(s, i + 1)
    } else {
        None
    }
}

fn string_value(v: &Vec<char>, i: usize) -> (r: Option<(String, usize)>)
    requires
        i <= v@.len(),
    ensures
        match r {
            Some(cp) => spec_string_value(v@, i as int) == Some((cp.0@, cp.1 as int)) && i < cp.1
                <= v@.len(),
            None => spec_string_value(v@, i as int) is None,
        },
{
    if i < v.len() && v[i] == '"' {
        string_tail(v, i + 1)
    } else {
        None
    }
}

/// The rest of an array of strings whose opening bracket sits just
/// before `i`: its contents appended to `acc`, and the position after
/// the closing bracket.
pub open spec fn spec_string_array_rest(s: Seq<char>, i: int, acc: Seq<Seq<char>>) -> Option<
    (Seq<Seq<char>>, int),
>
    decreases s.len() - i,
    when 0 <= i <= s.len()
{
    let j = spec_skip_ws(s, i);
    proof {
        lemma_skip_ws_bounds(s, i);
    }
    if j >= s.len() {
        None
    } else if s[j] == ']' {
        Some((acc, j + 1))
    } else if s[j] != '"' {
        None
    } else {
        match spec_string_tail(s, j + 1) {
            None => None,
            Some((c, k)) => {
                proof {
                    lemma_string_tail_bounds(s, j + 1);
                }
                let k1 = spec_skip_ws(s, k);
                proof {
                    lemma_skip_ws_bounds(s, k);
                }
                if k1 >= s.len() {
                    None
                } else if s[k1] == ']' {
                    Some((acc.push(c), k1 + 1))
                } else if s[k1] == ',' {
                    spec_string_array_rest(s, k1 + 1, acc.push(c))
                } else {
                    None
                }
            },
        }
    }
}

/// An array of strings at `i`.
pub open spec fn spec_string_array(s: Seq<char>, i: int) -> Option<(Seq<Seq<char>>, int)> {
    if i < s.len() && s[i] == '[' {
        spec_string_array_rest(s, i + 1, Seq::<Seq<char>>::empty())
    } else {
        None
    }
}

fn string_array(v: &Vec<char>, i: usize) -> (r: Option<(Vec<String>, usize)>)
    requires
        i <= v@.len(),
    ensures
        match r {
            Some(cp) => spec_string_array(v@, i as int) == Some((cp.0.deep_view(), cp.1 as int))
                && i < cp.1 <= v@.len(),
            None => spec_string_array(v@, i as int) is None,
        },
{
    let n = v.len();
    if !(i < n && v[i] == '[') {
        return None;
    }
    let start = i + 1;
    let mut acc: Vec<String> = Vec::new();
    let mut cur = start;
    proof {
        assert(acc.deep_view() =~= Seq::<Seq<char>>::empty());
    }
    loop
        invariant
            start <= cur <= v@.len(),
            n == v@.len(),
            i + 1 == start,
            i < v@.len() && v@[i as int] == '[',
            spec_string_array_rest(v@, start as int, Seq::<Seq<char>>::empty())
                == spec_string_array_rest(v@, cur as int, acc.deep_view()),
        decreases v@.len() - cur,
    {
        let j = ws(v, cur);
        if j >= n {
            proof {
                assert(spec_string_array_rest(v@, cur as int, acc.deep_view()) is None);
            }
            return None;
        }
        if v[j] == ']' {
            return Some((acc, j + 1));
        }
        if v[j] != '"' {
            return None;
        }
        let (c, k) = match string_tail(v, j + 1) {
            None => {
                return None;
            },
            Some(ck) => ck,
        };
        let k1 = ws(v, k);
        if k1 >= n {
            return None;
        }
        if v[k1] == ']' {
            let ghost prev = acc.deep_view();
            acc.push(c);
            proof {
                assert(acc.deep_view() =~= prev.push(c@));
            }
            return Some((acc, k1 + 1));
        }
        if v[k1] != ',' {
            return None;
        }
        let ghost prev = acc.deep_view();
        acc.push(c);
        proof {
            assert(acc.deep_view() =~= prev.push(c@));
        }
        cur = k1 + 1;
    }
}

/// Parse the value of the member named `key` at `i` and fold it into
/// `acc`: a known key fills its field, an unknown key is skipped.
pub open spec fn spec_member_value(
    s: Seq<char>,
    i: int,
    key: Seq<char>,
    acc: GameStateView,
) -> Option<(GameStateView, int)> {
    if key == "map_id"@ {
        match spec_num_in_range(s, i, -0x8000_0000, 0x7fff_ffff) {
            None => None,
            Some((x, p)) => Some((GameStateView { map_id: x, ..acc }, p)),
        }
    } else if key == "mapset_id"@ {
        match spec_num_in_range(s, i, -0x8000_0000, 0x7fff_ffff) {
            None => None,
            Some((x, p)) => Some((GameStateView { mapset_id: x, ..acc }, p)),
        }
    } else if key == "score"@ {
        match spec_num_in_range(s, i, -0x8000_0000, 0x7fff_ffff) {
            None => None,
            Some((x, p)) => Some((GameStateView { score: x, ..acc }, p)),
        }
    } else if key == "combo"@ {
        match spec_num_in_range(s, i, -0x8000, 0x7fff) {
            None => None,
            Some((x, p)) => Some((GameStateView { combo: x, ..acc }, p)),
        }
    } else if key == "max_combo"@ {
        match spec_num_in_range(s, i, -0x8000, 0x7fff) {
            None => None,
            Some((x, p)) => Some((GameStateView { max_combo: x, ..acc }, p)),
        }
    } else if key == "hit_300"@ {
        match spec_num_in_range(s, i, -0x8000, 0x7fff) {
            None => None,
            Some((x, p)) => Some((GameStateView { hit_300: x, ..acc }, p)),
        }
    } else if key == "hit_100"@ {
        match spec_num_in_range(s, i, -0x8000, 0x7fff) {
            None => None,
            Some((x, p)) => Some((GameStateView { hit_100: x, ..acc }, p)),
        }
    } else if key == "hit_50"@ {
        match spec_num_in_range(s, i, -0x8000, 0x7fff) {
            None => None,
            Some((x, p)) => Some((GameStateView { hit_50: x, ..acc }, p)),
        }
    } else if key == "hit_geki"@ {
        match spec_num_in_range(s, i, -0x8000, 0x7fff) {
            None => None,
            Some((x, p)) => Some((GameStateView { hit_geki: x, ..acc }, p)),
        }
    } else if key == "hit_katu"@ {
        match spec_num_in_range(s, i, -0x8000, 0x7fff) {
            None => None,
            Some((x, p)) => Some((GameStateView { hit_katu: x, ..acc }, p)),
        }
    } else if key == "hit_miss"@ {
        match spec_num_in_range(s, i, -0x8000, 0x7fff) {
            None => None,
            Some((x, p)) => Some((GameStateView { hit_miss: x, ..acc }, p)),
        }
    } else if key == "mode"@ {
        match spec_num_in_range(s, i, 0, 0xff) {
            None => None,
            Some((x, p)) => Some((GameStateView { mode: x, ..acc }, p)),
        }
    } else if key == "menu_mods"@ {
        match spec_num_in_range(s, i, 0, 0xffff_ffff) {
            None => None,
            Some((x, p)) => Some((GameStateView { menu_mods: x, ..acc }, p)),
        }
    } else if key == "ar"@ {
        match spec_num_centi(s, i, 0xffff_ffff) {
            None => None,
            Some((x, p)) => Some((GameStateView { ar: x, ..acc }, p)),
        }
    } else if key == "cs"@ {
        match spec_num_centi(s, i, 0xffff_ffff) {
            None => None,
            Some((x, p)) => Some((GameStateView { cs: x, ..acc }, p)),
        }
    } else if key == "hp"@ {
        match spec_num_centi(s, i, 0xffff_ffff) {
            None => None,
            Some((x, p)) => Some((GameStateView { hp: x, ..acc }, p)),
        }
    } else if key == "od"@ {
        match spec_num_centi(s, i, 0xffff_ffff) {
            None => None,
            Some((x, p)) => Some((GameStateView { od: x, ..acc }, p)),
        }
    } else if key == "accuracy"@ {
        match spec_num_centi(s, i, 0xffff_ffff) {
            None => None,
            Some((x, p)) => Some((GameStateView { accuracy: x, ..acc }, p)),
        }
    } else if key == "stars_mods"@ {
        match spec_num_centi(s, i, 0xffff_ffff_ffff_ffff) {
            None => None,
            Some((x, p)) => Some((GameStateView { stars_mods: x, ..acc }, p)),
        }
    } else if key == "bpm"@ {
        match spec_num_centi(s, i, 0xffff_ffff_ffff_ffff) {
            None => None,
            Some((x, p)) => Some((GameStateView { bpm: x, ..acc }, p)),
        }
    } else if key == "current_pp"@ {
        match spec_num_centi(s, i, 0xffff_ffff_ffff_ffff) {
            None => None,
            Some((x, p)) => Some((GameStateView { current_pp: x, ..acc }, p)),
        }
    } else if key == "ss_pp"@ {
        match spec_num_centi(s, i, 0xffff_ffff_ffff_ffff) {
            None => None,
            Some((x, p)) => Some((GameStateView { ss_pp: x, ..acc }, p)),
        }
    } else if key == "status"@ {
        match spec_parse_number(s, i) {
            None => None,
            Some((n, p)) => if n.has_frac {
                None
            } else {
                Some((GameStateView { status: spec_status_from_code(spec_signed(n)), ..acc }, p))
            },
        }
    } else if key == "beatmap_status"@ {
        match spec_parse_number(s, i) {
            None => None,
            Some((n, p)) => if n.has_frac {
                None
            } else {
                Some(
                    (
                        GameStateView {
                            beatmap_status: spec_beatmap_status_from_code(spec_signed(n)),
                            ..acc
                        },
                        p,
                    ),
                )
            },
        }
    } else if key == "artist"@ {
        match spec_string_value(s, i) {
            None => None,
            Some((c, p)) => Some((GameStateView { artist: c, ..acc }, p)),
        }
    } else if key == "title"@ {
        match spec_string_value(s, i) {
            None => None,
            Some((c, p)) => Some((GameStateView { title: c, ..acc }, p)),
        }
    } else if key == "creator"@ {
        match spec_string_value(s, i) {
            None => None,
            Some((c, p)) => Some((GameStateView { creator: c, ..acc }, p)),
        }
    } else if key == "difficulty"@ {
        match spec_string_value(s, i) {
            None => None,
            Some((c, p)) => Some((GameStateView { difficulty: c, ..acc }, p)),
        }
    } else if key == "beatmap_full_path"@ {
        match spec_string_value(s, i) {
            None => None,
            Some((c, p)) => Some((GameStateView { beatmap_full_path: c, ..acc }, p)),
        }
    } else if key == "background_path_full"@ {
        match spec_string_value(s, i) {
            None => None,
            Some((c, p)) => Some((GameStateView { background_path_full: c, ..acc }, p)),
        }
    } else if key == "mods_str"@ {
        match spec_string_array(s, i) {
            None => None,
            Some((xs, p)) => Some((GameStateView { mods_str: xs, ..acc }, p)),
        }
    } else {
        match spec_skip_value(s, i) {
            None => None,
            Some(p) => Some((acc, p)),
        }
    }
}

/// Parse the member named `key` at `i` into `gs` (see
/// `spec_member_value`).
fn member_value(v: &Vec<char>, i: usize, key: &String, gs: &mut GameState) -> (r: Option<usize>)
    requires
        i <= v@.len(),
    ensures
        match r {
            Some(p) => spec_member_value(v@, i as int, key@, old(gs)@) == Some(
                (final(gs)@, p as int),
            ) && i < p <= v@.len(),
            None => spec_member_value(v@, i as int, key@, old(gs)@) is None,
        },
{
    let k = key.as_str();
    if str_eq(k, "map_id") {
        match num_i64_in(v, i, -0x8000_0000, 0x7fff_ffff) {
            None => None,
            Some((x, p)) => {
                gs.map_id = x as i32;
                Some(p)
            },
        }
    } else if str_eq(k, "mapset_id") {
        match num_i64_in(v, i, -0x8000_0000, 0x7fff_ffff) {
            None => None,
            Some((x, p)) => {
                gs.mapset_id = x as i32;
                Some(p)
            },
        }
    } else if str_eq(k, "score") {
        match num_i64_in(v, i, -0x8000_0000, 0x7fff_ffff) {
            None => None,
            Some((x, p)) => {
                gs.score = x as i32;
                Some(p)
            },
        }
    } else if str_eq(k, "combo") {
        match num_i64_in(v, i, -0x8000, 0x7fff) {
            None => None,
            Some((x, p)) => {
                gs.combo = x as i16;
                Some(p)
            },
        }
    } else if str_eq(k, "max_combo") {
        match num_i64_in(v, i, -0x8000, 0x7fff) {
            None => None,
            Some((x, p)) => {
                gs.max_combo = x as i16;
                Some(p)
            },
        }
    } else if str_eq(k, "hit_300") {
        match num_i64_in(v, i, -0x8000, 0x7fff) {
            None => None,
            Some((x, p)) => {
                gs.hit_300 = x as i16;
                Some(p)
            },
        }
    } else if str_eq(k, "hit_100") {
        match num_i64_in(v, i, -0x8000, 0x7fff) {
            None => None,
            Some((x, p)) => {
                gs.hit_100 = x as i16;
                Some(p)
            },
        }
    } else if str_eq(k, "hit_50") {
        match num_i64_in(v, i, -0x8000, 0x7fff) {
            None => None,
            Some((x, p)) => {
                gs.hit_50 = x as i16;
                Some(p)
            },
        }
    } else if str_eq(k, "hit_geki") {
        match num_i64_in(v, i, -0x8000, 0x7fff) {
            None => None,
            Some((x, p)) => {
                gs.hit_geki = x as i16;
                Some(p)
            },
        }
    } else if str_eq(k, "hit_katu") {
        match num_i64_in(v, i, -0x8000, 0x7fff) {
            None => None,
            Some((x, p)) => {
                gs.hit_katu = x as i16;
                Some(p)
            },
        }
    } else if str_eq(k, "hit_miss") {
        match num_i64_in(v, i, -0x8000, 0x7fff) {
            None => None,
            Some((x, p)) => {
                gs.hit_miss = x as i16;
                Some(p)
            },
        }
    } else if str_eq(k, "mode") {
        match num_i64_in(v, i, 0, 0xff) {
            None => None,
            Some((x, p)) => {
                gs.mode = x as u8;
                Some(p)
            },
        }
    } else if str_eq(k, "menu_mods") {
        match num_i64_in(v, i, 0, 0xffff_ffff) {
            None => None,
            Some((x, p)) => {
                gs.menu_mods = Mods(x as u32);
                Some(p)
            },
        }
    } else if str_eq(k, "ar") {
        match num_centi(v, i, 0xffff_ffff) {
            None => None,
            Some((x, p)) => {
                gs.ar = x as u32;
                Some(p)
            },
        }
    } else if str_eq(k, "cs") {
        match num_centi(v, i, 0xffff_ffff) {
            None => None,
            Some((x, p)) => {
                gs.cs = x as u32;
                Some(p)
            },
        }
    } else if str_eq(k, "hp") {
        match num_centi(v, i, 0xffff_ffff) {
            None => None,
            Some((x, p)) => {
                gs.hp = x as u32;
                Some(p)
            },
        }
    } else if str_eq(k, "od") {
        match num_centi(v, i, 0xffff_ffff) {
            None => None,
            Some((x, p)) => {
                gs.od = x as u32;
                Some(p)
            },
        }
    } else if str_eq(k, "accuracy") {
        match num_centi(v, i, 0xffff_ffff) {
            None => None,
            Some((x, p)) => {
                gs.accuracy = x as u32;
                Some(p)
            },
        }
    } else if str_eq(k, "stars_mods") {
        match num_centi(v, i, 0xffff_ffff_ffff_ffff) {
            None => None,
            Some((x, p)) => {
                gs.stars_mods = x;
                Some(p)
            },
        }
    } else if str_eq(k, "bpm") {
        match num_centi(v, i, 0xffff_ffff_ffff_ffff) {
            None => None,
            Some((x, p)) => {
                gs.bpm = x;
                Some(p)
            },
        }
    } else if str_eq(k, "current_pp") {
        match num_centi(v, i, 0xffff_ffff_ffff_ffff) {
            None => None,
            Some((x, p)) => {
                gs.current_pp = x;
                Some(p)
            },
        }
    } else if str_eq(k, "ss_pp") {
        match num_centi(v, i, 0xffff_ffff_ffff_ffff) {
            None => None,
            Some((x, p)) => {
                gs.ss_pp = x;
                Some(p)
            },
        }
    } else if str_eq(k, "status") {
        match parse_number(v, i) {
            None => None,
            Some((n, p)) => {
                if n.has_frac {
                    None
                } else {
                    if n.neg && n.whole > 0 {
                        gs.status = crate::game::GameStatus::Unknown;
                    } else {
                        gs.status = status_from_code(n.whole);
                    }
                    Some(p)
                }
            },
        }
    } else if str_eq(k, "beatmap_status") {
        match parse_number(v, i) {
            None => None,
            Some((n, p)) => {
                if n.has_frac {
                    None
                } else {
                    if n.neg && n.whole > 0 {
                        gs.beatmap_status = crate::game::BeatmapStatus::Unknown;
                    } else {
                        gs.beatmap_status = beatmap_status_from_code(n.whole);
                    }
                    Some(p)
                }
            },
        }
    } else if str_eq(k, "artist") {
        match string_value(v, i) {
            None => None,
            Some((c, p)) => {
                gs.artist = c;
                Some(p)
            },
        }
    } else if str_eq(k, "title") {
        match string_value(v, i) {
            None => None,
            Some((c, p)) => {
                gs.title = c;
                Some(p)
            },
        }
    } else if str_eq(k, "creator") {
        match string_value(v, i) {
            None => None,
            Some((c, p)) => {
                gs.creator = c;
                Some(p)
            },
        }
    } else if str_eq(k, "difficulty") {
        match string_value(v, i) {
            None => None,
            Some((c, p)) => {
                gs.difficulty = c;
                Some(p)
            },
        }
    } else if str_eq(k, "beatmap_full_path") {
        match string_value(v, i) {
            None => None,
            Some((c, p)) => {
                gs.beatmap_full_path = c;
                Some(p)
            },
        }
    } else if str_eq(k, "background_path_full") {
        match string_value(v, i) {
            None => None,
            Some((c, p)) => {
                gs.background_path_full = c;
                Some(p)
            },
        }
    } else if str_eq(k, "mods_str") {
        match string_array(v, i) {
            None => None,
            Some((xs, p)) => {
                gs.mods_str = xs;
                Some(p)
            },
        }
    } else {
        match skip_value(v, i) {
            None => None,
            Some(p) => Some(p),
        }
    }
}

/// Fold the members of the frame object into `acc`, from position `i`
/// (just after the opening brace or a comma) to just after the closing
/// brace.
pub open spec fn spec_obj_members(s: Seq<char>, i: int, acc: GameStateView) -> Option<
    (GameStateView, int),
>
    decreases s.len() - i,
    when 0 <= i <= s.len()
{
    let j = spec_skip_ws(s, i);
    proof {
        lemma_skip_ws_bounds(s, i);
    }
    if j >= s.len() {
        None
    } else if s[j] == '}' {
        Some((acc, j + 1))
    } else if s[j] != '"' {
        None
    } else {
        match spec_string_tail(s, j + 1) {
            None => None,
            Some((key, k)) => {
                proof {
                    lemma_string_tail_bounds(s, j + 1);
                }
                let k1 = spec_skip_ws(s, k);
                proof {
                    lemma_skip_ws_bounds(s, k);
                }
                if k1 >= s.len() || s[k1] != ':' {
                    None
                } else {
                    let w = spec_skip_ws(s, k1 + 1);
                    proof {
                        lemma_skip_ws_bounds(s, k1 + 1);
                    }
                    match spec_member_value(s, w, key, acc) {
                        None => None,
                        Some((acc2, p)) => if p <= w || p > s.len() {
                            None
                        } else {
                            let p1 = spec_skip_ws(s, p);
                            proof {
                                lemma_skip_ws_bounds(s, p);
                            }
                            if p1 >= s.len() {
                                None
                            } else if s[p1] == '}' {
                                Some((acc2, p1 + 1))
                            } else if s[p1] == ',' {
                                spec_obj_members(s, p1 + 1, acc2)
                            } else {
                                None
                            }
                        },
                    }
                }
            },
        }
    }
}

/// Fold the members of the frame object into `gs` (see
/// `spec_obj_members`).
fn obj_members(v: &Vec<char>, start: usize, gs: &mut GameState) -> (r: Option<usize>)
    requires
        start <= v@.len(),
    ensures
        match r {
            Some(p) => spec_obj_members(v@, start as int, old(gs)@) == Some(
                (final(gs)@, p as int),
            ) && p <= v@.len(),
            None => spec_obj_members(v@, start as int, old(gs)@) is None,
        },
{
    let ghost base = gs@;
    let n = v.len();
    let mut cur = start;
    loop
        invariant
            start <= cur <= v@.len(),
            n == v@.len(),
            spec_obj_members(v@, start as int, base) == spec_obj_members(v@, cur as int, gs@),
            base == old(gs)@,
        decreases v@.len() - cur,
    {
        let j = ws(v, cur);
        if j >= n {
            return None;
        }
        if v[j] == '}' {
            return Some(j + 1);
        }
        if v[j] != '"' {
            return None;
        }
        let (key, k) = match string_tail(v, j + 1) {
            None => {
                return None;
            },
            Some(ck) => ck,
        };
        let k1 = ws(v, k);
        if k1 >= n || v[k1] != ':' {
            return None;
        }
        let w = ws(v, k1 + 1);
        let p = match member_value(v, w, &key, gs) {
            None => {
                return None;
            },
            Some(p) => p,
        };
        let p1 = ws(v, p);
        if p1 >= n {
            return None;
        }
        if v[p1] == '}' {
            return Some(p1 + 1);
        }
        if v[p1] != ',' {
            return None;
        }
        cur = p1 + 1;
    }
}

/// What one telemetry frame decodes to: the full game state, or nothing
/// where the text is not one complete, well-formed frame object.
pub open spec fn spec_decode(s: Seq<char>) -> Option<GameStateView> {
    let j = spec_skip_ws(s, 0);
    if !(0 <= j < s.len()) || s[j] != '{' {
        None
    } else {
        match spec_obj_members(s, j + 1, spec_default_state()) {
            None => None,
            Some((gs, p)) => if !(0 <= p <= s.len()) {
                None
            } else if spec_skip_ws(s, p) == s.len() {
                Some(gs)
            } else {
                None
            },
        }
    }
}

/// Decode one telemetry text frame into a game state.
///
/// Returns the state exactly when the frame is one complete, well-formed
/// frame object (see `spec_decode`); every other input is a decode
/// error, which the listener treats as fatal.
pub fn decode_frame(s: &str) -> (r: Result<GameState, DecodeError>)
    ensures
        match r {
            Ok(g) => spec_decode(s@) == Some(g@),
            Err(_) => spec_decode(s@) is None,
        },
{
    let v = str_chars(s);
    let n = v.len();
    let j = ws(&v, 0);
    if j >= n || v[j] != '{' {
        return Err(DecodeError);
    }
    let mut gs = GameState::default();
    let p = match obj_members(&v, j + 1, &mut gs) {
        None => {
            return Err(DecodeError);
        },
        Some(p) => p,
    };
    let e = ws(&v, p);
    if e == n {
        Ok(gs)
    } else {
        Err(DecodeError)
    }
}

} // verus!
