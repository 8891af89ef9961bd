//! Character-level text utilities used across the library.
//!
//! Texts are specified by their character view (`Seq<char>`); the helpers
//! below implement the few string operations the compiler needs, each with an
//! exact specification.
use vstd::prelude::*;
use vstd::utf8::*;

verus! {

// ---------------------------------------------------------------------------
// Character classes (std `char` methods)
// ---------------------------------------------------------------------------

/// What `char::is_alphanumeric` returns for a character (Unicode tables).
pub uninterp spec fn is_alphanumeric(c: char) -> bool;

/// What `char::is_whitespace` returns for a character (Unicode tables).
pub uninterp spec fn is_whitespace(c: char) -> bool;

/// ASCII letters and digits.
pub open spec fn is_ascii_alphanumeric(c: char) -> bool {
    ('a' <= c && c <= 'z') || ('A' <= c && c <= 'Z') || ('0' <= c && c <= '9')
}

/// ASCII whitespace as `char::is_whitespace` classifies it.
pub open spec fn is_ascii_white(c: char) -> bool {
    c == ' ' || c == '\t' || c == '\n' || c == '\r' || c == '\x0B' || c == '\x0C'
}

/// `char::is_alphanumeric`: true for characters that are alphabetic or numeric
/// in the Unicode sense. The contract states the name for every character and,
/// as std documents, that on ASCII it is exactly `[A-Za-z0-9]`; which
/// non-ASCII characters qualify is left to the Unicode tables.
#[verifier::external_body]
pub(crate) fn char_is_alphanumeric(c: char) -> (r: bool)
    ensures
        r == is_alphanumeric(c),
        (c as u32) < 128 ==> (r <==> is_ascii_alphanumeric(c)),
{
    c.is_alphanumeric()
}

/// `char::is_whitespace`: true for characters with the Unicode `White_Space`
/// property. The contract states the name and, on ASCII, the documented set
/// (space, tab, line feed, vertical tab, form feed, carriage return); non-ASCII
/// whitespace is left to the Unicode tables.
#[verifier::external_body]
pub(crate) fn char_is_whitespace(c: char) -> (r: bool)
    ensures
        r == is_whitespace(c),
        (c as u32) < 128 ==> (r <==> is_ascii_white(c)),
{
    c.is_whitespace()
}

// ---------------------------------------------------------------------------
// Building strings
// ---------------------------------------------------------------------------

/// `String::push`: appends one character.
#[verifier::external_body]
pub(crate) fn push_char(s: &mut String, c: char)
    ensures
        final(s)@ == old(s)@.push(c),
{
    s.push(c);
}

/// What `str::to_lowercase` returns for a text (Unicode case tables).
pub uninterp spec fn lowercased(s: Seq<char>) -> Seq<char>;

/// `str::to_lowercase`: the text with every character mapped to its Unicode
/// lower case. The contract names the result and states that an ASCII text
/// is lowered as ASCII (`A`-`Z` to `a`-`z`, the rest kept), as the Unicode
/// lower case of an ASCII character is; other case mappings are left to the
/// tables of std.
#[verifier::external_body]
pub(crate) fn to_lowercase(s: &str) -> (r: String)
    ensures
        r@ == lowercased(s@),
        (forall|i: int| 0 <= i < s@.len() ==> (#[trigger] s@[i] as u32) < 128) ==> r@
            == ascii_lower_seq(s@),
{
    s.to_lowercase()
}

/// The characters of a string slice, in order.
pub fn to_chars(s: &str) -> (v: Vec<char>)
    ensures
        v@ == s@,
{
    let mut v: Vec<char> = Vec::new();
    for c in it: s.chars()
        invariant
            v@ == it.seq().take(it.index() as int),
            it.seq() == s@,
    {
        v.push(c);
    }
    proof {
        assert(v@ =~= s@);
    }
    v
}

/// The string made of the characters `v[from..to]`.
pub fn string_from_range(v: &Vec<char>, from: usize, to: usize) -> (s: String)
    requires
        from <= to <= v.len(),
    ensures
        s@ == v@.subrange(from as int, to as int),
{
    let mut s = String::new();
    let mut i = from;
    while i < to
        invariant
            from <= i <= to <= v.len(),
            s@ == v@.subrange(from as int, i as int),
        decreases to - i,
    {
        push_char(&mut s, v[i]);
        i = i + 1;
        proof {
            assert(s@ =~= v@.subrange(from as int, i as int));
        }
    }
    s
}

/// The string made of all the characters of `v`.
pub fn string_from_chars(v: &Vec<char>) -> (s: String)
    ensures
        s@ == v@,
{
    let s = string_from_range(v, 0, v.len());
    proof {
        assert(v@.subrange(0, v@.len() as int) =~= v@);
    }
    s
}

/// A fresh string equal to the slice.
pub fn owned(s: &str) -> (r: String)
    ensures
        r@ == s@,
{
    String::from_str(s)
}

/// Appends a string slice.
pub fn append_str(s: &mut String, other: &str)
    ensures
        final(s)@ == old(s)@ + other@,
{
    s.append(other);
}

// ---------------------------------------------------------------------------
// Prefixes, suffixes, occurrences
// ---------------------------------------------------------------------------

pub open spec fn starts_with(s: Seq<char>, p: Seq<char>) -> bool {
    p.len() <= s.len() && s.take(p.len() as int) == p
}

pub open spec fn ends_with(s: Seq<char>, p: Seq<char>) -> bool {
    p.len() <= s.len() && s.skip(s.len() - p.len()) == p
}

pub open spec fn occurs_at(s: Seq<char>, p: Seq<char>, i: int) -> bool {
    0 <= i && i + p.len() <= s.len() && s.subrange(i, i + p.len()) == p
}

pub open spec fn contains_seq(s: Seq<char>, p: Seq<char>) -> bool {
    exists|i: int| occurs_at(s, p, i)
}

/// Whether `p` occurs in `v` at position `i`.
pub fn occurs_at_exec(v: &Vec<char>, p: &Vec<char>, i: usize) -> (r: bool)
    ensures
        r == occurs_at(v@, p@, i as int),
{
    if i > v.len() || p.len() > v.len() - i {
        return false;
    }
    let mut k: usize = 0;
    while k < p.len()
        invariant
            i + p.len() <= v.len(),
            k <= p.len(),
            forall|j: int| 0 <= j < k ==> v@[i + j] == p@[j],
        decreases p.len() - k,
    {
        if v[i + k] != p[k] {
            proof {
                assert(v@.subrange(i as int, i + p.len())[k as int] != p@[k as int]);
            }
            return false;
        }
        k = k + 1;
    }
    proof {
        assert(v@.subrange(i as int, i + p.len()) =~= p@);
    }
    true
}

/// `str::starts_with` on character views.
pub fn starts_with_exec(v: &Vec<char>, p: &Vec<char>) -> (r: bool)
    ensures
        r == starts_with(v@, p@),
{
    let r = occurs_at_exec(v, p, 0);
    proof {
        if p@.len() <= v@.len() {
            assert(v@.subrange(0, p@.len() as int) =~= v@.take(p@.len() as int));
        }
    }
    r
}

/// `str::ends_with` on character views.
pub fn ends_with_exec(v: &Vec<char>, p: &Vec<char>) -> (r: bool)
    ensures
        r == ends_with(v@, p@),
{
    if p.len() > v.len() {
        return false;
    }
    let r = occurs_at_exec(v, p, v.len() - p.len());
    proof {
        assert(v@.subrange(v@.len() - p@.len(), v@.len() as int) =~= v@.skip(
            v@.len() - p@.len(),
        ));
    }
    r
}

/// `str::contains` for a string pattern, on character views.
pub fn contains_exec(v: &Vec<char>, p: &Vec<char>) -> (r: bool)
    ensures
        r == contains_seq(v@, p@),
{
    let mut i: usize = 0;
    loop
        invariant
            i <= v.len(),
            forall|j: int| 0 <= j < i ==> !occurs_at(v@, p@, j),
        decreases v.len() - i,
    {
        if occurs_at_exec(v, p, i) {
            return true;
        }
        if i == v.len() {
            proof {
                assert forall|j: int| !occurs_at(v@, p@, j) by {
                    if 0 <= j && j + p@.len() <= v@.len() {
                        assert(j <= i);
                    }
                }
            }
            return false;
        }
        i = i + 1;
    }
}

// ---------------------------------------------------------------------------
// Leading and trailing runs of a character
// ---------------------------------------------------------------------------

/// Number of leading occurrences of `c` in `s`.
pub open spec fn leading_count(s: Seq<char>, c: char) -> nat
    decreases s.len(),
{
    if s.len() == 0 || s[0] != c {
        0
    } else {
        1 + leading_count(s.drop_first(), c)
    }
}

/// Number of trailing occurrences of `c` in `s`.
pub open spec fn trailing_count(s: Seq<char>, c: char) -> nat
    decreases s.len(),
{
    if s.len() == 0 || s.last() != c {
        0
    } else {
        1 + trailing_count(s.drop_last(), c)
    }
}

pub proof fn lemma_leading_count_bounded(s: Seq<char>, c: char)
    ensures
        leading_count(s, c) <= s.len(),
        forall|j: int| 0 <= j < leading_count(s, c) ==> s[j] == c,
        leading_count(s, c) < s.len() ==> s[leading_count(s, c) as int] != c,
    decreases s.len(),
{
    if s.len() > 0 && s[0] == c {
        lemma_leading_count_bounded(s.drop_first(), c);
        assert forall|j: int| 0 <= j < leading_count(s, c) implies s[j] == c by {
            if j > 0 {
                assert(s[j] == s.drop_first()[j - 1]);
            }
        }
    }
}

pub proof fn lemma_trailing_count_bounded(s: Seq<char>, c: char)
    ensures
        trailing_count(s, c) <= s.len(),
        forall|j: int| s.len() - trailing_count(s, c) <= j < s.len() ==> s[j] == c,
    decreases s.len(),
{
    if s.len() > 0 && s.last() == c {
        lemma_trailing_count_bounded(s.drop_last(), c);
        assert forall|j: int| s.len() - trailing_count(s, c) <= j < s.len() implies s[j] == c by {
            if j < s.len() - 1 {
                assert(s[j] == s.drop_last()[j]);
            }
        }
    }
}

proof fn lemma_leading_count_take(s: Seq<char>, c: char, k: int)
    requires
        0 <= k <= s.len(),
        forall|j: int| 0 <= j < k ==> s[j] == c,
        k == s.len() || s[k] != c,
    ensures
        leading_count(s, c) == k,
    decreases s.len(),
{
    if k > 0 {
        lemma_leading_count_take(s.drop_first(), c, k - 1);
    }
}

proof fn lemma_trailing_count_take(s: Seq<char>, c: char, k: int)
    requires
        0 <= k <= s.len(),
        forall|j: int| s.len() - k <= j < s.len() ==> s[j] == c,
        k == s.len() || s[s.len() - k - 1] != c,
    ensures
        trailing_count(s, c) == k,
    decreases s.len(),
{
    if k > 0 {
        let t = s.drop_last();
        assert forall|j: int| t.len() - (k - 1) <= j < t.len() implies t[j] == c by {
            assert(t[j] == s[j]);
        }
        if k - 1 < t.len() {
            assert(t[t.len() - (k - 1) - 1] == s[s.len() - k - 1]);
        }
        lemma_trailing_count_take(t, c, k - 1);
    }
}

/// Number of `'\n'` characters at the start of a string.
pub fn count_newlines_at_start(s: &str) -> (n: usize)
    ensures
        n == leading_count(s@, '\n'),
{
    let v = to_chars(s);
    let mut k: usize = 0;
    while k < v.len() && v[k] == '\n'
        invariant
            k <= v.len(),
            v@ == s@,
            forall|j: int| 0 <= j < k ==> v@[j] == '\n',
        decreases v.len() - k,
    {
        k = k + 1;
    }
    proof {
        lemma_leading_count_take(v@, '\n', k as int);
    }
    k
}

/// Number of `'\n'` characters at the end of a string.
pub fn count_newlines_at_end(s: &str) -> (n: usize)
    ensures
        n == trailing_count(s@, '\n'),
{
    let v = to_chars(s);
    let mut k: usize = 0;
    while k < v.len() && v[v.len() - 1 - k] == '\n'
        invariant
            k <= v.len(),
            v@ == s@,
            forall|j: int| v.len() - k <= j < v.len() ==> v@[j] == '\n',
        decreases v.len() - k,
    {
        k = k + 1;
    }
    proof {
        lemma_trailing_count_take(v@, '\n', k as int);
    }
    k
}

/// Number of occurrences of `c` at the start of a string.
pub fn count_leading_char(s: &str, c: char) -> (n: usize)
    ensures
        n == leading_count(s@, c),
{
    let v = to_chars(s);
    let mut k: usize = 0;
    while k < v.len() && v[k] == c
        invariant
            k <= v.len(),
            v@ == s@,
            forall|j: int| 0 <= j < k ==> v@[j] == c,
        decreases v.len() - k,
    {
        k = k + 1;
    }
    proof {
        lemma_leading_count_take(v@, c, k as int);
    }
    k
}

// ---------------------------------------------------------------------------
// Decimal numbers
// ---------------------------------------------------------------------------

pub open spec fn is_ascii_digit(c: char) -> bool {
    '0' <= c && c <= '9'
}

/// The value of a string of decimal digits.
pub open spec fn decimal_value(s: Seq<char>) -> int
    decreases s.len(),
{
    if s.len() == 0 {
        0
    } else {
        decimal_value(s.drop_last()) * 10 + ((s.last() as int) - ('0' as int))
    }
}

/// A string without its leading `+`, if it has one.
pub open spec fn without_plus(s: Seq<char>) -> Seq<char> {
    if s.len() > 0 && s[0] == '+' {
        s.drop_first()
    } else {
        s
    }
}

pub open spec fn all_digits(d: Seq<char>) -> bool {
    forall|i: int| 0 <= i < d.len() ==> is_ascii_digit(#[trigger] d[i])
}

/// What `str::parse::<u32>` yields: an optional `+`, then one or more ASCII
/// digits whose value fits in a `u32`.
pub open spec fn parsed_u32(s: Seq<char>) -> Option<u32> {
    let d = without_plus(s);
    if d.len() > 0 && all_digits(d) && decimal_value(d) <= u32::MAX {
        Some(decimal_value(d) as u32)
    } else {
        None
    }
}

proof fn lemma_decimal_value_nonneg(s: Seq<char>)
    requires
        forall|i: int| 0 <= i < s.len() ==> is_ascii_digit(#[trigger] s[i]),
    ensures
        decimal_value(s) >= 0,
    decreases s.len(),
{
    if s.len() > 0 {
        lemma_decimal_value_nonneg(s.drop_last());
    }
}

/// Parses a decimal `u32` as `str::parse` does.
pub fn parse_u32(s: &str) -> (r: Option<u32>)
    ensures
        r == parsed_u32(s@),
{
    let v = to_chars(s);
    let from: usize = if v.len() > 0 && v[0] == '+' {
        1
    } else {
        0
    };
    let ghost d = without_plus(s@);
    proof {
        assert(d =~= v@.skip(from as int));
    }
    if from == v.len() {
        return None;
    }
    let mut acc: u64 = 0;
    let mut over = false;
    let mut i: usize = from;
    proof {
        assert(d.take(0) =~= Seq::<char>::empty());
    }
    while i < v.len()
        invariant
            from <= i <= v.len(),
            v@ == s@,
            d =~= v@.skip(from as int),
            d == without_plus(s@),
            forall|j: int| 0 <= j < i - from ==> is_ascii_digit(#[trigger] d[j]),
            !over ==> acc == decimal_value(d.take(i - from)) && acc <= u32::MAX,
            over ==> decimal_value(d.take(i - from)) > u32::MAX,
        decreases v.len() - i,
    {
        let c = v[i];
        if !('0' <= c && c <= '9') {
            proof {
                let j = i - from;
                assert(d.len() == v@.len() - from);
                assert(0 <= j < d.len());
                assert(d[j] == c);
                assert(!is_ascii_digit(d[j]));
                assert(!all_digits(d));
                assert(d == without_plus(s@));
            }
            return None;
        }
        let digit = (c as u64) - ('0' as u64);
        proof {
            let t = d.take(i - from + 1);
            assert(t.drop_last() =~= d.take(i - from));
            assert(t.last() == c);
            assert(d[i - from] == c);
            lemma_decimal_value_nonneg(d.take(i - from));
        }
        if !over {
            let next = acc * 10 + digit;
            if next > 4294967295 {
                over = true;
            } else {
                acc = next;
            }
        }
        i = i + 1;
    }
    proof {
        assert(d.take(i - from) =~= d);
    }
    if over {
        None
    } else {
        Some(acc as u32)
    }
}

// ---------------------------------------------------------------------------
// Whitespace
// ---------------------------------------------------------------------------

pub open spec fn all_whitespace(s: Seq<char>) -> bool {
    forall|i: int| 0 <= i < s.len() ==> is_whitespace(#[trigger] s[i])
}

/// Whether `s.trim()` is empty: every character is whitespace.
pub fn is_blank(s: &str) -> (r: bool)
    ensures
        r == all_whitespace(s@),
{
    let v = to_chars(s);
    let mut i: usize = 0;
    while i < v.len()
        invariant
            i <= v.len(),
            v@ == s@,
            forall|j: int| 0 <= j < i ==> is_whitespace(#[trigger] v@[j]),
        decreases v.len() - i,
    {
        if !char_is_whitespace(v[i]) {
            return false;
        }
        i = i + 1;
    }
    true
}

/// Number of leading whitespace characters.
pub open spec fn leading_white(s: Seq<char>) -> nat
    decreases s.len(),
{
    if s.len() == 0 || !is_whitespace(s[0]) {
        0
    } else {
        1 + leading_white(s.drop_first())
    }
}

/// `str::trim_start` on character views.
pub open spec fn trim_start(s: Seq<char>) -> Seq<char> {
    s.skip(leading_white(s) as int)
}

proof fn lemma_leading_white_take(s: Seq<char>, k: int)
    requires
        0 <= k <= s.len(),
        forall|j: int| 0 <= j < k ==> is_whitespace(#[trigger] s[j]),
        k == s.len() || !is_whitespace(s[k]),
    ensures
        leading_white(s) == k,
    decreases s.len(),
{
    if k > 0 {
        assert forall|j: int| 0 <= j < k - 1 implies is_whitespace(#[trigger] s.drop_first()[j]) by {
            assert(s.drop_first()[j] == s[j + 1]);
        }
        lemma_leading_white_take(s.drop_first(), k - 1);
    }
}

/// Index of the first non-whitespace character of `v[from..]` (or `v.len()`).
pub fn skip_whitespace(v: &Vec<char>, from: usize) -> (k: usize)
    requires
        from <= v.len(),
    ensures
        from <= k <= v.len(),
        k - from == leading_white(v@.skip(from as int)),
{
    let mut k = from;
    while k < v.len() && char_is_whitespace(v[k])
        invariant
            from <= k <= v.len(),
            forall|j: int| from <= j < k ==> is_whitespace(#[trigger] v@[j]),
        decreases v.len() - k,
    {
        k = k + 1;
    }
    proof {
        let t = v@.skip(from as int);
        assert forall|j: int| 0 <= j < k - from implies is_whitespace(#[trigger] t[j]) by {
            assert(t[j] == v@[from + j]);
        }
        lemma_leading_white_take(t, k - from);
    }
    k
}

// ---------------------------------------------------------------------------
// Replacing every occurrence of a pattern
// ---------------------------------------------------------------------------

/// `str::replace`: every non-overlapping occurrence of `from`, scanned left to
/// right, is replaced by `to`.
pub open spec fn replaced(s: Seq<char>, from: Seq<char>, to: Seq<char>) -> Seq<char>
    recommends
        from.len() > 0,
    decreases s.len(),
{
    if from.len() == 0 || s.len() == 0 {
        s
    } else if starts_with(s, from) {
        to + replaced(s.skip(from.len() as int), from, to)
    } else {
        seq![s[0]] + replaced(s.drop_first(), from, to)
    }
}

/// Replaces every occurrence of `from` (non-empty) in `s` with `to`.
pub fn replace_all_occurrences(s: &str, from: &str, to: &str) -> (r: String)
    requires
        from@.len() > 0,
    ensures
        r@ == replaced(s@, from@, to@),
{
    let v = to_chars(s);
    let f = to_chars(from);
    let mut out = String::new();
    let mut i: usize = 0;
    proof {
        assert(v@.skip(0) =~= v@);
        assert(out@ + replaced(v@, f@, to@) =~= replaced(v@, f@, to@));
    }
    while i < v.len()
        invariant
            i <= v.len(),
            v@ == s@,
            f@ == from@,
            f@.len() > 0,
            out@ + replaced(v@.skip(i as int), f@, to@) == replaced(v@, f@, to@),
        decreases v.len() - i,
    {
        let ghost rest = v@.skip(i as int);
        if occurs_at_exec(&v, &f, i) {
            proof {
                assert(rest.take(f@.len() as int) =~= v@.subrange(i as int, i + f@.len()));
                assert(rest.skip(f@.len() as int) =~= v@.skip(i + f@.len()));
                assert(out@ + to@ + replaced(v@.skip(i + f@.len()), f@, to@) =~= out@ + (to@
                    + replaced(rest.skip(f@.len() as int), f@, to@)));
            }
            out.append(to);
            i = i + f.len();
        } else {
            proof {
                if f@.len() <= rest.len() {
                    assert(rest.take(f@.len() as int) =~= v@.subrange(i as int, i + f@.len()));
                }
                assert(rest.drop_first() =~= v@.skip(i + 1));
                assert(rest[0] == v@[i as int]);
                assert(out@.push(v@[i as int]) + replaced(v@.skip(i + 1), f@, to@) =~= out@ + (
                seq![rest[0]] + replaced(rest.drop_first(), f@, to@)));
            }
            push_char(&mut out, v[i]);
            i = i + 1;
        }
    }
    proof {
        assert(v@.skip(i as int).len() == 0);
        assert(out@ + replaced(v@.skip(i as int), f@, to@) =~= out@);
    }
    out
}

// ---------------------------------------------------------------------------
// Lines
// ---------------------------------------------------------------------------

/// The pieces of `s` between the occurrences of `sep` (always one more piece
/// than there are separators).
pub open spec fn split_on(s: Seq<char>, sep: char) -> Seq<Seq<char>>
    decreases s.len(),
{
    if s.len() == 0 {
        seq![Seq::<char>::empty()]
    } else {
        let rest = split_on(s.drop_first(), sep);
        if s[0] == sep {
            seq![Seq::<char>::empty()] + rest
        } else {
            rest.update(0, seq![s[0]] + rest[0])
        }
    }
}

proof fn lemma_split_on_nonempty(s: Seq<char>, sep: char)
    ensures
        split_on(s, sep).len() >= 1,
    decreases s.len(),
{
    if s.len() > 0 {
        lemma_split_on_nonempty(s.drop_first(), sep);
    }
}

/// A line terminated by `'\n'` loses one trailing `'\r'`.
pub open spec fn strip_cr(line: Seq<char>) -> Seq<char> {
    if line.len() > 0 && line.last() == '\r' {
        line.drop_last()
    } else {
        line
    }
}

/// `str::lines`: split at `'\n'`; a line that was terminated by `'\n'` loses
/// one trailing `'\r'`; a final empty piece (input ending with a line
/// terminator, or empty input) is not a line.
pub open spec fn lines(s: Seq<char>) -> Seq<Seq<char>> {
    let p = split_on(s, '\n');
    let terminated = p.drop_last().map_values(|l: Seq<char>| strip_cr(l));
    if p.last().len() == 0 {
        terminated
    } else {
        terminated.push(p.last())
    }
}

/// Merges `cur` in front of the first piece.
pub open spec fn prefix_first(cur: Seq<char>, p: Seq<Seq<char>>) -> Seq<Seq<char>> {
    p.update(0, cur + p[0])
}

proof fn lemma_split_step(v: Seq<char>, i: int, sep: char, acc: Seq<Seq<char>>, cur: Seq<char>)
    requires
        0 <= i < v.len(),
        split_on(v, sep) == acc + prefix_first(cur, split_on(v.skip(i), sep)),
    ensures
        v[i] == sep ==> split_on(v, sep) == acc.push(cur) + prefix_first(
            Seq::empty(),
            split_on(v.skip(i + 1), sep),
        ),
        v[i] != sep ==> split_on(v, sep) == acc + prefix_first(
            cur.push(v[i]),
            split_on(v.skip(i + 1), sep),
        ),
{
    let t = v.skip(i);
    assert(t.drop_first() =~= v.skip(i + 1));
    assert(t[0] == v[i]);
    let rest = split_on(v.skip(i + 1), sep);
    lemma_split_on_nonempty(v.skip(i + 1), sep);
    if v[i] == sep {
        assert(split_on(t, sep) == seq![Seq::<char>::empty()] + rest);
        assert(prefix_first(cur, split_on(t, sep)) =~= seq![cur] + rest);
        assert(prefix_first(Seq::empty(), rest) =~= rest) by {
            assert(Seq::<char>::empty() + rest[0] =~= rest[0]);
        }
        assert(acc + (seq![cur] + rest) =~= acc.push(cur) + rest);
    } else {
        assert(split_on(t, sep) == rest.update(0, seq![v[i]] + rest[0]));
        assert(cur + (seq![v[i]] + rest[0]) =~= cur.push(v[i]) + rest[0]);
        assert(prefix_first(cur, split_on(t, sep)) =~= prefix_first(cur.push(v[i]), rest));
    }
}

/// The lines of a string, as `str::lines` yields them.
pub fn lines_of(s: &str) -> (r: Vec<String>)
    ensures
        r@.len() == lines(s@).len(),
        forall|i: int| 0 <= i < r@.len() ==> #[trigger] r@[i]@ == lines(s@)[i],
{
    let v = to_chars(s);
    let mut pieces: Vec<Vec<char>> = Vec::new();
    let mut cur: Vec<char> = Vec::new();
    let mut i: usize = 0;
    proof {
        assert(v@.skip(0) =~= v@);
        lemma_split_on_nonempty(v@, '\n');
        assert(prefix_first(Seq::empty(), split_on(v@, '\n')) =~= split_on(v@, '\n')) by {
            assert(Seq::<char>::empty() + split_on(v@, '\n')[0] =~= split_on(v@, '\n')[0]);
        }
        assert(Seq::<Seq<char>>::empty() + split_on(v@, '\n') =~= split_on(v@, '\n'));
    }
    while i < v.len()
        invariant
            i <= v.len(),
            v@ == s@,
            split_on(v@, '\n') == pieces@.map_values(|p: Vec<char>| p@) + prefix_first(
                cur@,
                split_on(v@.skip(i as int), '\n'),
            ),
        decreases v.len() - i,
    {
        let ghost acc = pieces@.map_values(|p: Vec<char>| p@);
        proof {
            lemma_split_step(v@, i as int, '\n', acc, cur@);
        }
        if v[i] == '\n' {
            let done = cur;
            cur = Vec::new();
            pieces.push(done);
            proof {
                assert(pieces@.map_values(|p: Vec<char>| p@) =~= acc.push(done@));
            }
        } else {
            cur.push(v[i]);
        }
        i = i + 1;
    }
    let ghost acc = pieces@.map_values(|p: Vec<char>| p@);
    proof {
        assert(v@.skip(i as int) =~= Seq::<char>::empty());
        assert(prefix_first(cur@, seq![Seq::<char>::empty()]) =~= seq![cur@]) by {
            assert(cur@ + Seq::<char>::empty() =~= cur@);
        }
        assert(split_on(v@, '\n') =~= acc.push(cur@));
    }
    let ghost p = split_on(v@, '\n');
    let mut r: Vec<String> = Vec::new();
    let mut k: usize = 0;
    while k < pieces.len()
        invariant
            k <= pieces.len(),
            p == pieces@.map_values(|q: Vec<char>| q@).push(cur@),
            r@.len() == k,
            forall|j: int|
                0 <= j < k ==> #[trigger] r@[j]@ == strip_cr(p.drop_last()[j]),
        decreases pieces.len() - k,
    {
        let piece = &pieces[k];
        let n = piece.len();
        let line = if n > 0 && piece[n - 1] == '\r' {
            string_from_range(piece, 0, n - 1)
        } else {
            string_from_chars(piece)
        };
        proof {
            assert(p.drop_last()[k as int] == pieces@[k as int]@);
            if n > 0 && pieces@[k as int]@.last() == '\r' {
                assert(pieces@[k as int]@.subrange(0, n - 1) =~= pieces@[k as int]@.drop_last());
            }
        }
        r.push(line);
        k = k + 1;
    }
    if cur.len() > 0 {
        let last = string_from_chars(&cur);
        r.push(last);
    }
    proof {
        let terminated = p.drop_last().map_values(|l: Seq<char>| strip_cr(l));
        assert(p.last() == cur@);
        if cur@.len() == 0 {
            assert(r@.len() == terminated.len());
        } else {
            assert forall|j: int| 0 <= j < r@.len() implies #[trigger] r@[j]@ == lines(s@)[j] by {
                if j < k {
                    assert(lines(s@)[j] == terminated[j]);
                }
            }
        }
    }
    r
}

// ---------------------------------------------------------------------------
// Byte offsets
// ---------------------------------------------------------------------------

/// Every character takes at least one byte in UTF-8.
pub proof fn lemma_encode_len(chars: Seq<char>)
    ensures
        encode_utf8(chars).len() >= chars.len(),
    decreases chars.len(),
{
    if chars.len() > 0 {
        lemma_encode_len(chars.drop_first());
    }
}

/// The encoding of a concatenation is the concatenation of the encodings.
pub proof fn lemma_encode_concat(a: Seq<char>, b: Seq<char>)
    ensures
        encode_utf8(a + b) == encode_utf8(a) + encode_utf8(b),
    decreases a.len(),
{
    if a.len() == 0 {
        assert(a + b =~= b);
        assert(encode_utf8(a) + encode_utf8(b) =~= encode_utf8(b));
    } else {
        assert((a + b).drop_first() =~= a.drop_first() + b);
        assert((a + b)[0] == a[0]);
        lemma_encode_concat(a.drop_first(), b);
        assert(encode_utf8(a + b) =~= encode_utf8(a) + encode_utf8(b));
    }
}

/// A character boundary of a byte sequence stays one in a suffix that starts
/// at a character boundary.
proof fn lemma_boundary_in_suffix(bytes: Seq<u8>, a: int, b: int)
    requires
        valid_utf8(bytes),
        0 <= a <= b <= bytes.len(),
        is_char_boundary(bytes, a),
        is_char_boundary(bytes, b),
    ensures
        valid_utf8(bytes.subrange(a, bytes.len() as int)),
        is_char_boundary(bytes.subrange(a, bytes.len() as int), b - a),
{
    let t = bytes.subrange(a, bytes.len() as int);
    valid_utf8_split(bytes, a);
    is_char_boundary_start_end_of_seq(t);
    if b - a == 0 {
    } else if b == bytes.len() {
        assert(t.len() == b - a);
    } else {
        is_char_boundary_iff_not_is_continuation_byte(bytes, b);
        is_char_boundary_iff_not_is_continuation_byte(t, b - a);
        assert(t[b - a] == bytes[b]);
    }
}

/// The length of a string in bytes.
pub fn byte_len(s: &str) -> (n: usize)
    ensures
        n == encode_utf8(s@).len(),
{
    let b = s.as_bytes();
    proof {
        vstd::slice::axiom_spec_len(b);
    }
    b.len()
}

/// The text between two byte offsets that fall on character boundaries
/// (`&s[from..to]`, owned).
pub fn byte_slice(s: &str, from: usize, to: usize) -> (r: String)
    requires
        from <= to <= encode_utf8(s@).len(),
        is_char_boundary(encode_utf8(s@), from as int),
        is_char_boundary(encode_utf8(s@), to as int),
    ensures
        encode_utf8(r@) == encode_utf8(s@).subrange(from as int, to as int),
{
    let ghost bytes = encode_utf8(s@);
    proof {
        encode_utf8_valid_utf8(s@);
        lemma_boundary_in_suffix(bytes, from as int, to as int);
    }
    let (_, rest) = s.split_at(from);
    proof {
        assert(encode_utf8(rest@) =~= bytes.subrange(from as int, bytes.len() as int));
    }
    let (mid, _) = rest.split_at(to - from);
    proof {
        assert(encode_utf8(mid@) =~= bytes.subrange(from as int, to as int));
    }
    owned(mid)
}

// ---------------------------------------------------------------------------
// Case-insensitive comparison
// ---------------------------------------------------------------------------

/// ASCII lower case of one character.
pub open spec fn ascii_lower(c: char) -> char {
    if 'A' <= c && c <= 'Z' {
        ((c as u32) + 32) as char
    } else {
        c
    }
}

pub open spec fn ascii_lower_seq(s: Seq<char>) -> Seq<char> {
    s.map_values(|c: char| ascii_lower(c))
}

fn lower_matches(c: char, t: char) -> (r: bool)
    ensures
        r == (ascii_lower(c) == t),
{
    if 'A' <= c && c <= 'Z' {
        (c as u32) + 32 == (t as u32)
    } else {
        c == t
    }
}

/// Whether the ASCII lower case of `s` equals `target`.
pub fn eq_ascii_lowercase(s: &str, target: &str) -> (r: bool)
    ensures
        r == (ascii_lower_seq(s@) == target@),
{
    let v = to_chars(s);
    let t = to_chars(target);
    if v.len() != t.len() {
        proof {
            assert(ascii_lower_seq(s@).len() != target@.len());
        }
        return false;
    }
    let mut i: usize = 0;
    while i < v.len()
        invariant
            i <= v.len() == t.len(),
            v@ == s@,
            t@ == target@,
            forall|j: int| 0 <= j < i ==> ascii_lower(v@[j]) == t@[j],
        decreases v.len() - i,
    {
        if !lower_matches(v[i], t[i]) {
            proof {
                assert(ascii_lower_seq(s@)[i as int] != target@[i as int]);
            }
            return false;
        }
        i = i + 1;
    }
    proof {
        assert(ascii_lower_seq(s@) =~= target@);
    }
    true
}

} // verus!
