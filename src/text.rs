//! Character-sequence helpers shared by the request builder and the
//! response reader.
use vstd::prelude::*;

verus! {

/// Whitespace as trimmed around header values and reason phrases.
pub open spec fn is_space(c: char) -> bool {
    c == ' ' || c == '\t' || c == '\r' || c == '\n'
}

/// Index of the first occurrence of `c` in `s`, or `s.len()` when absent.
pub open spec fn first_index(s: Seq<char>, c: char) -> int
    decreases s.len(),
{
    if s.len() == 0 {
        0
    } else if s[0] == c {
        0
    } else {
        1 + first_index(s.drop_first(), c)
    }
}

/// The characters that a trim removes: double quotes, or else whitespace.
pub open spec fn in_class(c: char, quotes: bool) -> bool {
    if quotes {
        c == '"'
    } else {
        is_space(c)
    }
}

/// `s` without the leading characters of the class.
pub open spec fn trim_start_class(s: Seq<char>, quotes: bool) -> Seq<char>
    decreases s.len(),
{
    if s.len() > 0 && in_class(s[0], quotes) {
        trim_start_class(s.drop_first(), quotes)
    } else {
        s
    }
}

/// `s` without the trailing characters of the class.
pub open spec fn trim_end_class(s: Seq<char>, quotes: bool) -> Seq<char>
    decreases s.len(),
{
    if s.len() > 0 && in_class(s.last(), quotes) {
        trim_end_class(s.drop_last(), quotes)
    } else {
        s
    }
}

/// `s` without its leading whitespace.
pub open spec fn trim_start(s: Seq<char>) -> Seq<char> {
    trim_start_class(s, false)
}

/// `s` without its trailing whitespace.
pub open spec fn trim_end(s: Seq<char>) -> Seq<char> {
    trim_end_class(s, false)
}

/// `s` without the double quotes that surround it.
pub open spec fn trim_quotes(s: Seq<char>) -> Seq<char> {
    trim_end_class(trim_start_class(s, true), true)
}

/// Whether `s` ends with a line feed.
pub open spec fn ends_with_newline(s: Seq<char>) -> bool {
    s.len() > 0 && s.last() == '\n'
}

/// `s` without its line terminator (`"\r\n"` or `"\n"`).
pub open spec fn strip_eol(s: Seq<char>) -> Seq<char> {
    if s.len() >= 2 && s[s.len() - 2] == '\r' && s[s.len() - 1] == '\n' {
        s.subrange(0, s.len() - 2)
    } else if s.len() >= 1 && s[s.len() - 1] == '\n' {
        s.subrange(0, s.len() - 1)
    } else {
        s
    }
}

pub open spec fn is_digit(c: char) -> bool {
    '0' <= c && c <= '9'
}

pub open spec fn all_digits(s: Seq<char>) -> bool {
    forall|i: int| 0 <= i < s.len() ==> is_digit(#[trigger] s[i])
}

/// The value of a string of decimal digits.
pub open spec fn decimal_value(s: Seq<char>) -> int
    decreases s.len(),
{
    if s.len() == 0 {
        0
    } else {
        10 * decimal_value(s.drop_last()) + (s.last() as int - '0' as int)
    }
}

/// The digits of `s`, less a leading sign.
pub open spec fn unsigned_part(s: Seq<char>) -> Seq<char> {
    if s.len() > 0 && (s[0] == '-' || s[0] == '+') {
        s.drop_first()
    } else {
        s
    }
}

/// The value of a decimal integer with an optional sign.
pub open spec fn signed_value(s: Seq<char>) -> int {
    if s.len() > 0 && s[0] == '-' {
        -decimal_value(unsigned_part(s))
    } else {
        decimal_value(unsigned_part(s))
    }
}

/// Whether `s` is the decimal text of an `i32`: an optional `-` or `+`,
/// then one or more digits, with a value in the range of `i32`.
pub open spec fn is_i32_text(s: Seq<char>) -> bool {
    unsigned_part(s).len() > 0 && all_digits(unsigned_part(s)) && i32::MIN <= signed_value(s)
        <= i32::MAX
}

pub proof fn lemma_first_index(s: Seq<char>, c: char, i: int)
    requires
        0 <= i <= s.len(),
        forall|j: int| 0 <= j < i ==> s[j] != c,
        i == s.len() || s[i] == c,
    ensures
        first_index(s, c) == i,
    decreases i,
{
    if i > 0 {
        lemma_first_index(s.drop_first(), c, i - 1);
    }
}

/// Position of the first `c` in `v`, or `v.len()` when there is none.
pub fn find_char(v: &Vec<char>, c: char) -> (r: usize)
    ensures
        r as int == first_index(v@, c),
        r <= v.len(),
{
    let mut i: usize = 0;
    while i < v.len() && v[i] != c
        invariant
            i <= v.len(),
            forall|j: int| 0 <= j < i ==> v@[j] != c,
        decreases v.len() - i,
    {
        i = i + 1;
    }
    proof {
        lemma_first_index(v@, c, i as int);
    }
    i
}

/// The characters of `v` from `lo` up to `hi`.
pub fn slice_chars(v: &Vec<char>, lo: usize, hi: usize) -> (r: Vec<char>)
    requires
        lo <= hi <= v.len(),
    ensures
        r@ == v@.subrange(lo as int, hi as int),
{
    let mut r: Vec<char> = Vec::new();
    let mut i: usize = lo;
    while i < hi
        invariant
            lo <= i <= hi <= v.len(),
            r@ == v@.subrange(lo as int, i as int),
        decreases hi - i,
    {
        r.push(v[i]);
        i = i + 1;
    }
    r
}

proof fn lemma_trim_start_at(s: Seq<char>, quotes: bool, i: int)
    requires
        0 <= i <= s.len(),
        forall|j: int| 0 <= j < i ==> in_class(#[trigger] s[j], quotes),
        i == s.len() || !in_class(s[i], quotes),
    ensures
        trim_start_class(s, quotes) == s.subrange(i, s.len() as int),
    decreases i,
{
    if i > 0 {
        assert forall|j: int| 0 <= j < i - 1 implies in_class(#[trigger] s.drop_first()[j], quotes) by {
            assert(s.drop_first()[j] == s[j + 1]);
        }
        lemma_trim_start_at(s.drop_first(), quotes, i - 1);
        assert(s.drop_first().subrange(i - 1, s.len() - 1) =~= s.subrange(i, s.len() as int));
    } else {
        assert(s.subrange(0, s.len() as int) =~= s);
    }
}

pub proof fn lemma_trim_end_at(s: Seq<char>, quotes: bool, k: int)
    requires
        0 <= k <= s.len(),
        forall|j: int| k <= j < s.len() ==> in_class(#[trigger] s[j], quotes),
        k == 0 || !in_class(s[k - 1], quotes),
    ensures
        trim_end_class(s, quotes) == s.subrange(0, k),
    decreases s.len() - k,
{
    if k < s.len() {
        assert forall|j: int| k <= j < s.len() - 1 implies in_class(#[trigger] s.drop_last()[j], quotes) by {
            assert(s.drop_last()[j] == s[j]);
        }
        lemma_trim_end_at(s.drop_last(), quotes, k);
        assert(s.drop_last().subrange(0, k) =~= s.subrange(0, k));
    } else {
        assert(s.subrange(0, s.len() as int) =~= s);
    }
}

/// Whether `c` belongs to the class that a trim removes.
pub fn char_in_class(c: char, quotes: bool) -> (r: bool)
    ensures
        r == in_class(c, quotes),
{
    if quotes {
        c == '"'
    } else {
        c == ' ' || c == '\t' || c == '\r' || c == '\n'
    }
}

/// `v` without the leading characters of the class.
pub fn trim_start_chars(v: &Vec<char>, quotes: bool) -> (r: Vec<char>)
    ensures
        r@ == trim_start_class(v@, quotes),
{
    let mut i: usize = 0;
    while i < v.len() && char_in_class(v[i], quotes)
        invariant
            i <= v.len(),
            forall|j: int| 0 <= j < i ==> in_class(#[trigger] v@[j], quotes),
        decreases v.len() - i,
    {
        i = i + 1;
    }
    proof {
        lemma_trim_start_at(v@, quotes, i as int);
    }
    slice_chars(v, i, v.len())
}

/// `v` without the trailing characters of the class.
pub fn trim_end_chars(v: &Vec<char>, quotes: bool) -> (r: Vec<char>)
    ensures
        r@ == trim_end_class(v@, quotes),
{
    let mut k: usize = v.len();
    while k > 0 && char_in_class(v[k - 1], quotes)
        invariant
            k <= v.len(),
            forall|j: int| k <= j < v.len() ==> in_class(#[trigger] v@[j], quotes),
        decreases k,
    {
        k = k - 1;
    }
    proof {
        lemma_trim_end_at(v@, quotes, k as int);
    }
    slice_chars(v, 0, k)
}

/// `v` without its line terminator.
pub fn strip_eol_chars(v: &Vec<char>) -> (r: Vec<char>)
    ensures
        r@ == strip_eol(v@),
{
    let n = v.len();
    if n >= 2 && v[n - 2] == '\r' && v[n - 1] == '\n' {
        slice_chars(v, 0, n - 2)
    } else if n >= 1 && v[n - 1] == '\n' {
        slice_chars(v, 0, n - 1)
    } else {
        slice_chars(v, 0, n)
    }
}

proof fn lemma_decimal_bound(s: Seq<char>, k: int)
    requires
        all_digits(s),
        0 <= k <= s.len(),
    ensures
        0 <= decimal_value(s.subrange(0, k)) <= decimal_value(s),
    decreases s.len() - k,
{
    if k < s.len() {
        lemma_decimal_bound(s, k + 1);
        assert(s.subrange(0, k + 1).drop_last() =~= s.subrange(0, k));
        assert(is_digit(s[k]));
    } else {
        assert(s.subrange(0, k) =~= s);
    }
    lemma_decimal_nonneg(s.subrange(0, k));
}

proof fn lemma_decimal_nonneg(s: Seq<char>)
    requires
        all_digits(s),
    ensures
        decimal_value(s) >= 0,
    decreases s.len(),
{
    if s.len() > 0 {
        assert(is_digit(s.last()));
        assert(all_digits(s.drop_last())) by {
            assert forall|i: int| 0 <= i < s.drop_last().len() implies is_digit(#[trigger] s.drop_last()[i]) by {
                assert(s.drop_last()[i] == s[i]);
            }
        }
        lemma_decimal_nonneg(s.drop_last());
    }
}

/// Reads `v` as a run of decimal digits: `Some` of its value exactly when
/// `v` is non-empty, all digits, and its value is at most `limit`.
fn parse_magnitude(v: &Vec<char>, limit: i64) -> (r: Option<i64>)
    requires
        0 <= limit <= i32::MAX as int + 1,
    ensures
        r is Some <==> v@.len() > 0 && all_digits(v@) && decimal_value(v@) <= limit,
        r is Some ==> r->0 as int == decimal_value(v@),
{
    if v.len() == 0 {
        return None;
    }
    let mut i: usize = 0;
    while i < v.len()
        invariant
            i <= v.len(),
            forall|j: int| 0 <= j < i ==> is_digit(#[trigger] v@[j]),
        decreases v.len() - i,
    {
        if !('0' <= v[i] && v[i] <= '9') {
            return None;
        }
        i = i + 1;
    }
    let mut value: i64 = 0;
    let mut k: usize = 0;
    while k < v.len()
        invariant
            all_digits(v@),
            0 <= limit <= i32::MAX as int + 1,
            k <= v.len(),
            value as int == decimal_value(v@.subrange(0, k as int)),
            0 <= value <= limit,
        decreases v.len() - k,
    {
        let c = v[k];
        assert(is_digit(v@[k as int]));
        let d = (c as u32 - '0' as u32) as i64;
        assert(0 <= d <= 9);
        assert(d as int == c as int - '0' as int);
        assert(v@.subrange(0, k + 1).drop_last() =~= v@.subrange(0, k as int));
        assert(v@.subrange(0, k + 1).last() == c);
        assert(value * 10 + d <= 100 * (i32::MAX as int + 1)) by (nonlinear_arith)
            requires
                0 <= value <= i32::MAX as int + 1,
                0 <= d <= 9,
        ;
        proof {
            lemma_decimal_nonneg(v@.subrange(0, k as int));
        }
        value = value * 10 + d;
        if value > limit {
            proof {
                lemma_decimal_bound(v@, k + 1);
            }
            return None;
        }
        k = k + 1;
    }
    assert(v@.subrange(0, v.len() as int) =~= v@);
    Some(value)
}

/// Reads `v` as the decimal text of an `i32`, with an optional sign.
pub fn parse_i32(v: &Vec<char>) -> (r: Option<i32>)
    ensures
        r is Some <==> is_i32_text(v@),
        r is Some ==> r->0 as int == signed_value(v@),
{
    if v.len() > 0 && (v[0] == '-' || v[0] == '+') {
        let digits = slice_chars(v, 1, v.len());
        assert(digits@ =~= unsigned_part(v@));
        proof {
            if digits@.len() > 0 && all_digits(digits@) {
                lemma_decimal_nonneg(digits@);
            }
        }
        if v[0] == '-' {
            match parse_magnitude(&digits, 2147483648) {
                Some(m) => Some((-m) as i32),
                None => None,
            }
        } else {
            match parse_magnitude(&digits, 2147483647) {
                Some(m) => Some(m as i32),
                None => None,
            }
        }
    } else {
        proof {
            if v@.len() > 0 && all_digits(v@) {
                lemma_decimal_nonneg(v@);
            }
        }
        match parse_magnitude(v, 2147483647) {
            Some(m) => Some(m as i32),
            None => None,
        }
    }
}

/// The characters of `s`, in order.
pub fn chars_of(s: &str) -> (r: Vec<char>)
    ensures
        r@ == s@,
{
    let n = s.unicode_len();
    let mut r: Vec<char> = Vec::new();
    let mut i: usize = 0;
    while i < n
        invariant
            n == s@.len(),
            i <= n,
            r@ == s@.subrange(0, i as int),
        decreases n - i,
    {
        r.push(s.get_char(i));
        i = i + 1;
    }
    assert(s@.subrange(0, n as int) =~= s@);
    r
}

/// Relies on `Iterator::collect` into a `String`: the string made of the characters of `v`, in order.
#[verifier::external_body]
pub(crate) fn string_of(v: &Vec<char>) -> (r: String)
    ensures
        r@ == v@,
{
    v.iter().collect()
}

} // verus!
