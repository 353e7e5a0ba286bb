//! Character-level text helpers: case folding, prefix tests, whitespace
//! tokenization, decimal rendering of integers and of fixed-point
//! hundredths, and concatenation — everything replies are built from.

use vstd::prelude::*;

verus! {

use vstd::string::StrSliceExecFns;
use vstd::string::StringExecFns;

/// Relies on String::push: appends the given character to the end of the
/// string.
#[verifier::external_body]
pub fn push_char(s: &mut String, c: char)
    ensures
        final(s)@ == old(s)@.push(c),
{
    s.push(c);
}

/// ASCII lower case of one character; everything else is untouched.
pub open spec fn spec_lower_char(c: char) -> char {
    if 65 <= c as u32 <= 90 {
        ((c as u32) + 32) as char
    } else {
        c
    }
}

/// ASCII lower case of a character sequence.
pub open spec fn spec_lower(s: Seq<char>) -> Seq<char> {
    s.map_values(|c: char| spec_lower_char(c))
}

fn lower_char(c: char) -> (r: char)
    ensures
        r == spec_lower_char(c),
{
    let u = c as u32;
    if 65 <= u && u <= 90 {
        ((u as u8) + 32) as char
    } else {
        c
    }
}

/// ASCII lower case of a string.
pub fn lower(s: &str) -> (r: String)
    ensures
        r@ == spec_lower(s@),
{
    let n = s.unicode_len();
    let mut r = String::new();
    let mut i: usize = 0;
    while i < n
        invariant
            i <= n,
            n == s@.len(),
            r@ == spec_lower(s@.subrange(0, i as int)),
        decreases n - i,
    {
        let c = s.get_char(i);
        push_char(&mut r, lower_char(c));
        proof {
            assert(spec_lower(s@.subrange(0, i + 1)) =~= spec_lower(
                s@.subrange(0, i as int),
            ).push(spec_lower_char(s@[i as int])));
        }
        i = i + 1;
    }
    proof {
        assert(s@.subrange(0, n as int) =~= s@);
    }
    r
}

/// The characters of `s` as a vector, for position-indexed scanning.
pub fn str_chars(s: &str) -> (v: Vec<char>)
    ensures
        v@ == s@,
{
    let n = s.unicode_len();
    let mut v: Vec<char> = Vec::new();
    let mut i: usize = 0;
    while i < n
        invariant
            i <= n,
            n == s@.len(),
            v@ == s@.subrange(0, i as int),
        decreases n - i,
    {
        v.push(s.get_char(i));
        proof {
            assert(v@ =~= s@.subrange(0, i + 1));
        }
        i = i + 1;
    }
    proof {
        assert(s@.subrange(0, n as int) =~= s@);
    }
    v
}

/// Character-for-character equality of two strings.
pub fn str_eq(a: &str, b: &str) -> (r: bool)
    ensures
        r == (a@ == b@),
{
    let na = a.unicode_len();
    let nb = b.unicode_len();
    if na != nb {
        return false;
    }
    let mut i: usize = 0;
    while i < na
        invariant
            i <= na,
            na == a@.len(),
            na == b@.len(),
            forall|m: int| 0 <= m < i ==> a@[m] == b@[m],
        decreases na - i,
    {
        if a.get_char(i) != b.get_char(i) {
            return false;
        }
        i = i + 1;
    }
    proof {
        assert(a@ =~= b@);
    }
    true
}

/// `p` is a prefix of `s`.
pub open spec fn spec_has_prefix(s: Seq<char>, p: Seq<char>) -> bool {
    p.len() <= s.len() && s.subrange(0, p.len() as int) == p
}

pub fn has_prefix(s: &str, p: &str) -> (r: bool)
    ensures
        r == spec_has_prefix(s@, p@),
{
    let ns = s.unicode_len();
    let np = p.unicode_len();
    if np > ns {
        return false;
    }
    let mut i: usize = 0;
    while i < np
        invariant
            i <= np,
            np <= ns,
            ns == s@.len(),
            np == p@.len(),
            forall|m: int| 0 <= m < i ==> s@[m] == p@[m],
        decreases np - i,
    {
        if s.get_char(i) != p.get_char(i) {
            proof {
                assert(s@.subrange(0, p@.len() as int)[i as int] != p@[i as int]);
            }
            return false;
        }
        i = i + 1;
    }
    proof {
        assert(s@.subrange(0, p@.len() as int) =~= p@);
    }
    true
}

/// The whitespace that separates command arguments.
pub open spec fn spec_is_ws(c: char) -> bool {
    c == ' ' || c == '\t' || c == '\n' || c == '\r'
}

pub fn is_ws(c: char) -> (r: bool)
    ensures
        r == spec_is_ws(c),
{
    c == ' ' || c == '\t' || c == '\n' || c == '\r'
}

/// First position at or after `i` that holds whitespace, or the end.
pub open spec fn spec_token_end(s: Seq<char>, i: int) -> int
    decreases s.len() - i,
    when 0 <= i <= s.len()
{
    if i >= s.len() {
        i
    } else if spec_is_ws(s[i]) {
        i
    } else {
        spec_token_end(s, i + 1)
    }
}

/// First position at or after `i` that holds no whitespace, or the end.
pub open spec fn spec_skip_ws(s: Seq<char>, i: int) -> int
    decreases s.len() - i,
    when 0 <= i <= s.len()
{
    if i >= s.len() {
        i
    } else if spec_is_ws(s[i]) {
        spec_skip_ws(s, i + 1)
    } else {
        i
    }
}

pub proof fn lemma_token_end_bounds(s: Seq<char>, i: int)
    requires
        0 <= i <= s.len(),
    ensures
        i <= spec_token_end(s, i) <= s.len(),
    decreases s.len() - i,
{
    if i < s.len() && !spec_is_ws(s[i]) {
        lemma_token_end_bounds(s, i + 1);
    }
}

pub proof fn lemma_skip_ws_bounds(s: Seq<char>, i: int)
    requires
        0 <= i <= s.len(),
    ensures
        i <= spec_skip_ws(s, i) <= s.len(),
    decreases s.len() - i,
{
    if i < s.len() && spec_is_ws(s[i]) {
        lemma_skip_ws_bounds(s, i + 1);
    }
}

/// `spec_skip_ws` lands exactly on the first non-whitespace position.
pub proof fn lemma_skip_ws_value(s: Seq<char>, i: int, j: int)
    requires
        0 <= i <= j <= s.len(),
        forall|m: int| i <= m < j ==> spec_is_ws(s[m]),
        j == s.len() || !spec_is_ws(s[j]),
    ensures
        spec_skip_ws(s, i) == j,
    decreases j - i,
{
    if i < j {
        lemma_skip_ws_value(s, i + 1, j);
    }
}

/// `spec_token_end` lands exactly on the first whitespace position.
proof fn lemma_token_end_value(s: Seq<char>, i: int, j: int)
    requires
        0 <= i <= j <= s.len(),
        forall|m: int| i <= m < j ==> !spec_is_ws(s[m]),
        j == s.len() || spec_is_ws(s[j]),
    ensures
        spec_token_end(s, i) == j,
    decreases j - i,
{
    if i < j {
        lemma_token_end_value(s, i + 1, j);
    }
}

/// The whitespace-separated tokens of `s` from position `i` on.
pub open spec fn spec_tokens_from(s: Seq<char>, i: int) -> Seq<Seq<char>>
    decreases s.len() - i,
    when 0 <= i <= s.len()
{
    let j = spec_skip_ws(s, i);
    proof {
        lemma_skip_ws_bounds(s, i);
    }
    if j >= s.len() {
        Seq::<Seq<char>>::empty()
    } else {
        let k = spec_token_end(s, j + 1);
        proof {
            lemma_token_end_bounds(s, j + 1);
        }
        seq![s.subrange(j, k)] + spec_tokens_from(s, k)
    }
}

/// The whitespace-separated tokens of the whole of `s`.
pub open spec fn spec_tokens(s: Seq<char>) -> Seq<Seq<char>> {
    spec_tokens_from(s, 0)
}

/// Split `s` on whitespace.
pub fn tokens(s: &str) -> (r: Vec<String>)
    ensures
        r.deep_view() == spec_tokens(s@),
{
    let n = s.unicode_len();
    let mut r: Vec<String> = Vec::new();
    let mut i: usize = 0;
    while i < n
        invariant
            i <= n,
            n == s@.len(),
            spec_tokens(s@) == r.deep_view() + spec_tokens_from(s@, i as int),
        decreases n - i,
    {
        let ghost i0 = i as int;
        // skip the whitespace run
        while i < n && is_ws(s.get_char(i))
            invariant
                i0 <= i <= n,
                n == s@.len(),
                forall|m: int| i0 <= m < i ==> spec_is_ws(s@[m]),
            decreases n - i,
        {
            i = i + 1;
        }
        proof {
            lemma_skip_ws_value(s@, i0, i as int);
        }
        if i < n {
            let start = i;
            i = i + 1;
            // scan to the end of the token
            while i < n && !is_ws(s.get_char(i))
                invariant
                    start < i <= n,
                    n == s@.len(),
                    forall|m: int| start + 1 <= m < i ==> !spec_is_ws(s@[m]),
                decreases n - i,
            {
                i = i + 1;
            }
            proof {
                lemma_token_end_value(s@, start + 1, i as int);
            }
            let tok = String::from_str(s.substring_char(start, i));
            let ghost prev = r.deep_view();
            r.push(tok);
            proof {
                assert(r.deep_view() =~= prev + seq![s@.subrange(start as int, i as int)]);
                assert(spec_tokens_from(s@, i0) == seq![s@.subrange(start as int, i as int)]
                    + spec_tokens_from(s@, i as int));
                assert(prev + (seq![s@.subrange(start as int, i as int)] + spec_tokens_from(
                    s@,
                    i as int,
                )) =~= (prev + seq![s@.subrange(start as int, i as int)]) + spec_tokens_from(
                    s@,
                    i as int,
                ));
            }
        } else {
            proof {
                assert(spec_tokens_from(s@, i0) =~= Seq::<Seq<char>>::empty());
                assert(r.deep_view() + Seq::<Seq<char>>::empty() =~= r.deep_view());
            }
        }
    }
    proof {
        assert(spec_tokens_from(s@, i as int) =~= Seq::<Seq<char>>::empty());
        assert(r.deep_view() + Seq::<Seq<char>>::empty() =~= r.deep_view());
    }
    r
}

/// The decimal digit character for `d`.
pub open spec fn spec_digit(d: int) -> char {
    (48 + d) as char
}

/// Decimal rendering of a non-negative integer, most significant digit
/// first.
pub open spec fn spec_nat_seq(n: int) -> Seq<char>
    decreases n,
{
    if n < 10 {
        seq![spec_digit(n)]
    } else {
        spec_nat_seq(n / 10).push(spec_digit(n % 10))
    }
}

/// Decimal rendering of an integer, with a leading minus when negative.
pub open spec fn spec_int_seq(n: int) -> Seq<char> {
    if n < 0 {
        seq!['-'] + spec_nat_seq(-n)
    } else {
        spec_nat_seq(n)
    }
}

/// Rendering of a fixed-point value in hundredths with exactly two
/// decimal places.
pub open spec fn spec_centi_seq(n: int) -> Seq<char> {
    spec_nat_seq(n / 100) + seq!['.', spec_digit((n % 100) / 10), spec_digit(n % 10)]
}

fn digit_char(d: u64) -> (c: char)
    requires
        d < 10,
    ensures
        c == spec_digit(d as int),
{
    ((48 + d as u8)) as char
}

/// Decimal rendering of `n`.
pub fn u64_string(n: u64) -> (r: String)
    ensures
        r@ == spec_nat_seq(n as int),
    decreases n,
{
    if n < 10 {
        let mut s = String::new();
        push_char(&mut s, digit_char(n));
        s
    } else {
        let mut s = u64_string(n / 10);
        push_char(&mut s, digit_char(n % 10));
        s
    }
}

/// Decimal rendering of `n`, minus sign included.
pub fn i32_string(n: i32) -> (r: String)
    ensures
        r@ == spec_int_seq(n as int),
{
    if n < 0 {
        let m: i64 = -(n as i64);
        let mut s = String::new();
        push_char(&mut s, '-');
        let digits = u64_string(m as u64);
        s.append(digits.as_str());
        proof {
            assert(s@ =~= spec_int_seq(n as int));
        }
        s
    } else {
        u64_string(n as u64)
    }
}

/// Rendering of `n` hundredths as a decimal number with two decimal
/// places.
pub fn centi_string(n: u64) -> (r: String)
    ensures
        r@ == spec_centi_seq(n as int),
{
    let mut s = u64_string(n / 100);
    push_char(&mut s, '.');
    push_char(&mut s, digit_char((n % 100) / 10));
    push_char(&mut s, digit_char(n % 10));
    proof {
        assert((n % 100) / 10 == ((n as int) % 100) / 10);
        assert(s@ =~= spec_centi_seq(n as int));
    }
    s
}

/// The concatenation of the sequences of `xs` from `i` on, in order,
/// with nothing between them.
pub open spec fn spec_concat_from(xs: Seq<Seq<char>>, i: int) -> Seq<char>
    decreases xs.len() - i,
    when 0 <= i <= xs.len()
{
    if i >= xs.len() {
        Seq::<char>::empty()
    } else {
        xs[i] + spec_concat_from(xs, i + 1)
    }
}

/// The concatenation of all sequences of `xs`, in order.
pub open spec fn spec_concat(xs: Seq<Seq<char>>) -> Seq<char> {
    spec_concat_from(xs, 0)
}

/// Append every string of `xs` to `out`, in order.
pub fn append_all(out: &mut String, xs: &Vec<String>)
    ensures
        final(out)@ == old(out)@ + spec_concat(xs.deep_view()),
{
    let ghost base = out@;
    let mut i: usize = 0;
    while i < xs.len()
        invariant
            i <= xs.len(),
            base + spec_concat(xs.deep_view()) == out@ + spec_concat_from(
                xs.deep_view(),
                i as int,
            ),
        decreases xs.len() - i,
    {
        let ghost before = out@;
        out.append(xs[i].as_str());
        proof {
            assert(xs.deep_view()[i as int] == xs@[i as int]@);
            assert(before + spec_concat_from(xs.deep_view(), i as int) =~= (before
                + xs.deep_view()[i as int]) + spec_concat_from(xs.deep_view(), i + 1));
        }
        i = i + 1;
    }
    proof {
        assert(spec_concat_from(xs.deep_view(), xs.deep_view().len() as int)
            =~= Seq::<char>::empty());
        assert(out@ + Seq::<char>::empty() =~= out@);
    }
}

/// The sequences of `xs` from `i` on, joined with single spaces.
pub open spec fn spec_join_from(xs: Seq<Seq<char>>, i: int) -> Seq<char>
    decreases xs.len() - i,
    when 0 <= i <= xs.len()
{
    if i >= xs.len() {
        Seq::<char>::empty()
    } else if i == xs.len() - 1 {
        xs[i]
    } else {
        xs[i] + seq![' '] + spec_join_from(xs, i + 1)
    }
}

/// All sequences of `xs`, joined with single spaces.
pub open spec fn spec_join(xs: Seq<Seq<char>>) -> Seq<char> {
    spec_join_from(xs, 0)
}

/// Join the strings of `xs` from index `from` on with single spaces.
pub fn join_from(xs: &Vec<String>, from: usize) -> (r: String)
    requires
        from <= xs.len(),
    ensures
        r@ == spec_join_from(xs.deep_view(), from as int),
    decreases xs.len() - from,
{
    let mut s = String::new();
    if from >= xs.len() {
        return s;
    }
    s.append(xs[from].as_str());
    proof {
        assert(s@ =~= xs.deep_view()[from as int]);
    }
    if from + 1 < xs.len() {
        push_char(&mut s, ' ');
        let rest = join_from(xs, from + 1);
        s.append(rest.as_str());
        proof {
            assert(s@ =~= spec_join_from(xs.deep_view(), from as int));
        }
    }
    s
}

} // verus!

