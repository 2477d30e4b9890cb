//! Character-level helpers on strings, each stated over `Seq<char>`.
use vstd::prelude::*;
use vstd::string::*;

verus! {

/// The Unicode `White_Space` property, as `char::is_whitespace` defines it.
pub open spec fn is_ws(c: char) -> bool {
    let u = c as u32;
    (0x9 <= u && u <= 0xD) || u == 0x20 || u == 0x85 || u == 0xA0 || u == 0x1680 || (0x2000 <= u
        && u <= 0x200A) || u == 0x2028 || u == 0x2029 || u == 0x202F || u == 0x205F || u == 0x3000
}

pub fn char_is_ws(c: char) -> (r: bool)
    ensures
        r == is_ws(c),
{
    let u = c as u32;
    (0x9 <= u && u <= 0xD) || u == 0x20 || u == 0x85 || u == 0xA0 || u == 0x1680 || (0x2000 <= u
        && u <= 0x200A) || u == 0x2028 || u == 0x2029 || u == 0x202F || u == 0x205F || u == 0x3000
}

/// Index of the first non-whitespace character at or after `i` (or the length).
pub open spec fn first_non_ws(s: Seq<char>, i: int) -> int
    decreases s.len() - i,
{
    if 0 <= i < s.len() && is_ws(s[i]) {
        first_non_ws(s, i + 1)
    } else {
        i
    }
}

/// End of `s.subrange(0, j)` once trailing whitespace is dropped.
pub open spec fn trailing_end(s: Seq<char>, j: int) -> int
    decreases j,
{
    if 0 < j <= s.len() && is_ws(s[j - 1]) {
        trailing_end(s, j - 1)
    } else {
        j
    }
}

/// `s` without its leading and trailing whitespace.
pub open spec fn trim_seq(s: Seq<char>) -> Seq<char> {
    let a = first_non_ws(s, 0);
    if a == s.len() {
        Seq::empty()
    } else {
        s.subrange(a, trailing_end(s, s.len() as int))
    }
}

/// Whether every character of `s` is whitespace (true of the empty string).
pub open spec fn is_blank(s: Seq<char>) -> bool {
    forall|i: int| 0 <= i < s.len() ==> is_ws(#[trigger] s[i])
}

proof fn lemma_first_non_ws_blank(s: Seq<char>, i: int)
    requires
        0 <= i <= s.len(),
    ensures
        (first_non_ws(s, i) == s.len()) <==> (forall|k: int| i <= k < s.len() ==> is_ws(
            #[trigger] s[k],
        )),
    decreases s.len() - i,
{
    if i < s.len() {
        lemma_first_non_ws_blank(s, i + 1);
    }
}

/// A trimmed string is empty exactly when the input is blank.
pub proof fn lemma_trim_empty_iff_blank(s: Seq<char>)
    ensures
        (trim_seq(s).len() == 0) <==> is_blank(s),
{
    lemma_first_non_ws_blank(s, 0);
    lemma_first_non_ws_range(s, 0);
    let a = first_non_ws(s, 0);
    if a < s.len() {
        lemma_trailing_end_past(s, s.len() as int, a);
        assert(!is_ws(s[a]));
        assert(trim_seq(s).len() > 0);
    } else {
        assert(trim_seq(s) =~= Seq::<char>::empty());
    }
}

proof fn lemma_first_non_ws_range(s: Seq<char>, i: int)
    requires
        0 <= i <= s.len(),
    ensures
        i <= first_non_ws(s, i) <= s.len(),
        first_non_ws(s, i) < s.len() ==> !is_ws(s[first_non_ws(s, i)]),
    decreases s.len() - i,
{
    if i < s.len() && is_ws(s[i]) {
        lemma_first_non_ws_range(s, i + 1);
    }
}

proof fn lemma_trailing_end_past(s: Seq<char>, j: int, a: int)
    requires
        0 <= a < j <= s.len(),
        !is_ws(s[a]),
    ensures
        a < trailing_end(s, j) <= j,
    decreases j,
{
    if is_ws(s[j - 1]) {
        lemma_trailing_end_past(s, j - 1, a);
    }
}

/// `str::trim`: drops leading and trailing whitespace.
pub fn trim_text(s: &str) -> (r: String)
    ensures
        r@ == trim_seq(s@),
{
    let n = s.unicode_len();
    let mut a: usize = 0;
    while a < n && char_is_ws(s.get_char(a))
        invariant
            a <= n,
            n == s@.len(),
            first_non_ws(s@, 0) == first_non_ws(s@, a as int),
        decreases n - a,
    {
        a = a + 1;
    }
    if a == n {
        return String::new();
    }
    let mut b: usize = n;
    while b > a && char_is_ws(s.get_char(b - 1))
        invariant
            a < n,
            a < b <= n,
            n == s@.len(),
            !is_ws(s@[a as int]),
            trailing_end(s@, n as int) == trailing_end(s@, b as int),
        decreases b,
    {
        b = b - 1;
    }
    let sub = s.substring_char(a, b);
    String::from_str(sub)
}

/// Whether `needle` occurs in `hay` as a contiguous run.
pub open spec fn seq_contains(hay: Seq<char>, needle: Seq<char>) -> bool {
    exists|i: int|
        0 <= i && i + needle.len() <= hay.len() && #[trigger] hay.subrange(i, i + needle.len())
            == needle
}

fn matches_at(hay: &str, needle: &str, i: usize, hn: usize, nn: usize) -> (r: bool)
    requires
        hn == hay@.len(),
        nn == needle@.len(),
        i + nn <= hn,
    ensures
        r == (hay@.subrange(i as int, i + nn) == needle@),
{
    let mut k: usize = 0;
    while k < nn
        invariant
            k <= nn,
            hn == hay@.len(),
            nn == needle@.len(),
            i + nn <= hn,
            forall|t: int| 0 <= t < k ==> hay@[i + t] == needle@[t],
        decreases nn - k,
    {
        if hay.get_char(i + k) != needle.get_char(k) {
            assert(hay@.subrange(i as int, i + nn)[k as int] != needle@[k as int]);
            return false;
        }
        k = k + 1;
    }
    assert(hay@.subrange(i as int, i + nn) =~= needle@);
    true
}

/// `str::contains` with a string pattern.
pub fn text_contains(hay: &str, needle: &str) -> (r: bool)
    ensures
        r == seq_contains(hay@, needle@),
{
    let hn = hay.unicode_len();
    let nn = needle.unicode_len();
    if nn > hn {
        return false;
    }
    let last = hn - nn;
    let mut i: usize = 0;
    while i <= last
        invariant
            hn == hay@.len(),
            nn == needle@.len(),
            last == hn - nn,
            i <= last + 1,
            forall|j: int|
                0 <= j < i ==> #[trigger] hay@.subrange(j, j + nn) != needle@,
        decreases last + 1 - i,
    {
        if matches_at(hay, needle, i, hn, nn) {
            return true;
        }
        if i == last {
            return false;
        }
        i = i + 1;
    }
    false
}

/// Where the last path segment of `s.subrange(0, j)` starts.
pub open spec fn segment_start(s: Seq<char>, j: int) -> int
    decreases j,
{
    if 0 < j <= s.len() && s[j - 1] != '/' {
        segment_start(s, j - 1)
    } else {
        j
    }
}

/// The part of `s` after its last `/` (all of `s` when it has none).
pub open spec fn basename_seq(s: Seq<char>) -> Seq<char> {
    s.subrange(segment_start(s, s.len() as int), s.len() as int)
}

/// The last segment of a `/`-separated name.
pub fn basename(s: &str) -> (r: String)
    ensures
        r@ == basename_seq(s@),
{
    let n = s.unicode_len();
    let mut b: usize = n;
    while b > 0 && s.get_char(b - 1) != '/'
        invariant
            b <= n,
            n == s@.len(),
            segment_start(s@, n as int) == segment_start(s@, b as int),
        decreases b,
    {
        b = b - 1;
    }
    String::from_str(s.substring_char(b, n))
}

/// Strict lexicographic order by code point, which is the order of `str`.
pub open spec fn lex_lt(a: Seq<char>, b: Seq<char>) -> bool
    decreases a.len(),
{
    if a.len() == 0 {
        b.len() > 0
    } else if b.len() == 0 {
        false
    } else if a[0] != b[0] {
        (a[0] as int) < (b[0] as int)
    } else {
        lex_lt(a.drop_first(), b.drop_first())
    }
}

pub proof fn lemma_lex_total(a: Seq<char>, b: Seq<char>)
    ensures
        a != b ==> (lex_lt(a, b) || lex_lt(b, a)),
        !(lex_lt(a, b) && lex_lt(b, a)),
    decreases a.len(),
{
    if a.len() > 0 && b.len() > 0 {
        if a[0] == b[0] {
            lemma_lex_total(a.drop_first(), b.drop_first());
            if a != b {
                assert(a =~= seq![a[0]] + a.drop_first());
                assert(b =~= seq![b[0]] + b.drop_first());
            }
        } else {
            assert((a[0] as int) != (b[0] as int));
        }
    } else if a.len() == 0 && b.len() == 0 {
        assert(a =~= b);
    }
}

pub proof fn lemma_lex_transitive(a: Seq<char>, b: Seq<char>, c: Seq<char>)
    requires
        lex_lt(a, b),
        lex_lt(b, c),
    ensures
        lex_lt(a, c),
    decreases a.len(),
{
    if a.len() > 0 && b.len() > 0 && c.len() > 0 {
        if a[0] == b[0] && b[0] == c[0] {
            lemma_lex_transitive(a.drop_first(), b.drop_first(), c.drop_first());
        }
    }
}

proof fn lemma_lex_step(a: Seq<char>, b: Seq<char>, i: int)
    requires
        0 <= i < a.len(),
        i < b.len(),
        a[i] == b[i],
    ensures
        lex_lt(a.subrange(i, a.len() as int), b.subrange(i, b.len() as int)) == lex_lt(
            a.subrange(i + 1, a.len() as int),
            b.subrange(i + 1, b.len() as int),
        ),
{
    assert(a.subrange(i, a.len() as int).drop_first() =~= a.subrange(i + 1, a.len() as int));
    assert(b.subrange(i, b.len() as int).drop_first() =~= b.subrange(i + 1, b.len() as int));
}

/// `a < b` as `str` orders them.
pub fn text_lt(a: &str, b: &str) -> (r: bool)
    ensures
        r == lex_lt(a@, b@),
{
    let an = a.unicode_len();
    let bn = b.unicode_len();
    let mut i: usize = 0;
    assert(a@.subrange(0, an as int) =~= a@);
    assert(b@.subrange(0, bn as int) =~= b@);
    while i < an && i < bn
        invariant
            an == a@.len(),
            bn == b@.len(),
            i <= an,
            i <= bn,
            lex_lt(a@, b@) == lex_lt(
                a@.subrange(i as int, an as int),
                b@.subrange(i as int, bn as int),
            ),
        decreases an - i,
    {
        let ca = a.get_char(i);
        let cb = b.get_char(i);
        if ca != cb {
            return (ca as u32) < (cb as u32);
        }
        proof {
            lemma_lex_step(a@, b@, i as int);
        }
        i = i + 1;
    }
    i == an && i < bn
}

pub open spec fn is_digit(c: char) -> bool {
    '0' <= c && c <= '9'
}

/// The value of a run of decimal digits.
pub open spec fn digits_value(s: Seq<char>) -> int
    decreases s.len(),
{
    if s.len() == 0 {
        0
    } else {
        digits_value(s.drop_last()) * 10 + (s.last() as int - '0' as int)
    }
}

/// The digits after an optional leading `+`.
pub open spec fn unsigned_digits(s: Seq<char>) -> Seq<char> {
    if s.len() > 0 && s[0] == '+' {
        s.drop_first()
    } else {
        s
    }
}

/// Whether `str::parse::<u64>` accepts `s`: an optional `+`, then one or more
/// decimal digits whose value fits in a `u64`.
pub open spec fn is_u64_text(s: Seq<char>) -> bool {
    let d = unsigned_digits(s);
    d.len() > 0 && (forall|i: int| 0 <= i < d.len() ==> is_digit(#[trigger] d[i]))
        && digits_value(d) <= u64::MAX
}

pub fn text_is_u64(s: &str) -> (r: bool)
    ensures
        r == is_u64_text(s@),
{
    text_to_u64(s).is_some()
}

/// `str::parse::<u64>`: the value of `s` where it is an unsigned decimal.
pub fn text_to_u64(s: &str) -> (r: Option<u64>)
    ensures
        r is Some == is_u64_text(s@),
        r matches Some(v) ==> v == digits_value(unsigned_digits(s@)),
{
    let n = s.unicode_len();
    let mut start: usize = 0;
    if n > 0 && s.get_char(0) == '+' {
        start = 1;
    }
    let ghost d = unsigned_digits(s@);
    assert(d =~= s@.subrange(start as int, n as int));
    if start == n {
        return None;
    }
    let mut i: usize = start;
    let mut value: u64 = 0;
    let mut over = false;
    while i < n
        invariant
            start <= i <= n,
            n == s@.len(),
            d == s@.subrange(start as int, n as int),
            d == unsigned_digits(s@),
            forall|k: int| 0 <= k < i - start ==> is_digit(#[trigger] d[k]),
            digits_value(d.subrange(0, i - start)) >= 0,
            !over ==> digits_value(d.subrange(0, i - start)) == value as int,
            over ==> digits_value(d.subrange(0, i - start)) > u64::MAX,
        decreases n - i,
    {
        let c = s.get_char(i);
        if !('0' <= c && c <= '9') {
            assert(d[i - start] == c && !is_digit(d[i - start]));
            assert(unsigned_digits(s@) == d);
            assert(!is_u64_text(s@));
            return None;
        }
        let ghost prev = d.subrange(0, i - start);
        assert(d.subrange(0, i - start + 1).drop_last() =~= prev);
        let dig = (c as u32 - '0' as u32) as u64;
        if !over {
            if value > (u64::MAX - dig) / 10 {
                over = true;
                assert(digits_value(prev) * 10 + dig > u64::MAX) by (nonlinear_arith)
                    requires
                        digits_value(prev) == value as int,
                        value > (u64::MAX - dig) / 10,
                        0 <= dig <= 9,
                ;
            } else {
                assert(value * 10 + dig <= u64::MAX) by (nonlinear_arith)
                    requires
                        value <= (u64::MAX - dig) / 10,
                        0 <= dig <= 9,
                ;
                value = value * 10 + dig;
            }
        } else {
            assert(digits_value(prev) * 10 + dig > u64::MAX) by (nonlinear_arith)
                requires
                    digits_value(prev) > u64::MAX,
                    0 <= dig <= 9,
            ;
        }
        i = i + 1;
    }
    assert(d.subrange(0, n - start) =~= d);
    if over {
        None
    } else {
        Some(value)
    }
}

} // verus!
