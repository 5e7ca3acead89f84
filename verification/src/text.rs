//! Character-level string operations with exact contracts over `Seq<char>`:
//! prefixes and suffixes, searching, replacing, decimal formatting and parsing.
use vstd::prelude::*;

verus! {

/// `String::push` appends one character to the end of the string.
pub assume_specification[ String::push ](s: &mut String, ch: char)
    ensures
        final(s)@ == old(s)@.push(ch),
;

// ---------------------------------------------------------------------------
// Specifications
// ---------------------------------------------------------------------------

/// `s` begins with `p`.
pub open spec fn has_prefix(s: Seq<char>, p: Seq<char>) -> bool {
    p.len() <= s.len() && s.take(p.len() as int) == p
}

/// `s` ends with `p`.
pub open spec fn has_suffix(s: Seq<char>, p: Seq<char>) -> bool {
    p.len() <= s.len() && s.skip(s.len() - p.len()) == p
}

/// Index of the first occurrence of `c` in `s`, or `s.len()` when there is none.
pub open spec fn first_index(s: Seq<char>, c: char) -> nat
    decreases s.len(),
{
    if s.len() == 0 {
        0
    } else if s[0] == c {
        0
    } else {
        1 + first_index(s.skip(1), c)
    }
}

/// The part of `s` before the first `c` (all of `s` when `c` does not occur).
pub open spec fn before_first(s: Seq<char>, c: char) -> Seq<char> {
    s.take(first_index(s, c) as int)
}

/// The part of `s` after the first `c` (empty when `c` does not occur).
pub open spec fn after_first(s: Seq<char>, c: char) -> Seq<char> {
    if first_index(s, c) < s.len() {
        s.skip(first_index(s, c) as int + 1)
    } else {
        Seq::empty()
    }
}

/// `s` with every non-overlapping occurrence of `pat`, scanned from the left,
/// replaced by `rep`.
pub open spec fn replace_all(s: Seq<char>, pat: Seq<char>, rep: Seq<char>) -> Seq<char>
    decreases s.len(),
{
    if pat.len() == 0 || s.len() < pat.len() {
        s
    } else if s.take(pat.len() as int) == pat {
        rep + replace_all(s.skip(pat.len() as int), pat, rep)
    } else {
        seq![s[0]] + replace_all(s.skip(1), pat, rep)
    }
}

/// The ASCII digit for `d < 10`.
pub open spec fn digit_char(d: nat) -> char {
    if d == 0 { '0' }
    else if d == 1 { '1' }
    else if d == 2 { '2' }
    else if d == 3 { '3' }
    else if d == 4 { '4' }
    else if d == 5 { '5' }
    else if d == 6 { '6' }
    else if d == 7 { '7' }
    else if d == 8 { '8' }
    else { '9' }
}

/// The decimal representation of `n`, without sign or leading zeros.
pub open spec fn decimal(n: nat) -> Seq<char>
    decreases n,
{
    if n < 10 {
        seq![digit_char(n)]
    } else {
        decimal(n / 10).push(digit_char(n % 10))
    }
}

/// The decimal representation of a signed integer, with a leading `-` when negative.
pub open spec fn signed_decimal(n: int) -> Seq<char> {
    if n < 0 {
        seq!['-'] + decimal((-n) as nat)
    } else {
        decimal(n as nat)
    }
}

/// `c` is one of the ASCII digits.
pub open spec fn is_digit(c: char) -> bool {
    '0' <= c && c <= '9'
}

/// Every character of `s` is an ASCII digit.
pub open spec fn all_digits(s: Seq<char>) -> bool {
    forall|i: int| 0 <= i < s.len() ==> is_digit(#[trigger] s[i])
}

/// The value of a digit character.
pub open spec fn digit_value(c: char) -> nat {
    (c as int - '0' as int) as nat
}

/// The number that the digit string `s` denotes (0 for the empty string).
pub open spec fn digits_value(s: Seq<char>) -> nat
    decreases s.len(),
{
    if s.len() == 0 {
        0
    } else {
        digits_value(s.drop_last()) * 10 + digit_value(s.last())
    }
}

/// The digits of an unsigned number in the textual form that `str::parse`
/// accepts: an optional `+` followed by at least one digit.
pub open spec fn unsigned_text_value(s: Seq<char>) -> Option<nat> {
    let d = if s.len() > 0 && s[0] == '+' { s.skip(1) } else { s };
    if d.len() > 0 && all_digits(d) {
        Some(digits_value(d))
    } else {
        None
    }
}

/// The value of a signed number in the textual form that `str::parse`
/// accepts: an optional `+` or `-` followed by at least one digit.
pub open spec fn signed_text_value(s: Seq<char>) -> Option<int> {
    if s.len() > 0 && s[0] == '-' {
        let d = s.skip(1);
        if d.len() > 0 && all_digits(d) {
            Some(-(digits_value(d) as int))
        } else {
            None
        }
    } else {
        match unsigned_text_value(s) {
            Some(v) => Some(v as int),
            None => None,
        }
    }
}

/// What `s.parse::<u64>()` yields.
pub open spec fn parse_u64_spec(s: Seq<char>) -> Option<u64> {
    match unsigned_text_value(s) {
        Some(v) => if v <= u64::MAX { Some(v as u64) } else { None },
        None => None,
    }
}

/// What `s.parse::<i64>()` yields.
pub open spec fn parse_i64_spec(s: Seq<char>) -> Option<i64> {
    match signed_text_value(s) {
        Some(v) => if i64::MIN <= v <= i64::MAX { Some(v as i64) } else { None },
        None => None,
    }
}

/// What `s.parse::<i32>()` yields.
pub open spec fn parse_i32_spec(s: Seq<char>) -> Option<i32> {
    match signed_text_value(s) {
        Some(v) => if i32::MIN <= v <= i32::MAX { Some(v as i32) } else { None },
        None => None,
    }
}

// ---------------------------------------------------------------------------
// Lemmas
// ---------------------------------------------------------------------------

/// The first occurrence is characterised by: nothing before it is `c`, and it is `c`
/// (unless it is the end).
pub proof fn lemma_first_index(s: Seq<char>, c: char)
    ensures
        first_index(s, c) <= s.len(),
        forall|j: int| 0 <= j < first_index(s, c) ==> s[j] != c,
        first_index(s, c) < s.len() ==> s[first_index(s, c) as int] == c,
    decreases s.len(),
{
    if s.len() > 0 && s[0] != c {
        lemma_first_index(s.skip(1), c);
        assert forall|j: int| 0 <= j < first_index(s, c) implies s[j] != c by {
            if j > 0 {
                assert(s[j] == s.skip(1)[j - 1]);
            }
        }
    }
}

/// Any index with the characterising property is the first occurrence.
pub proof fn lemma_first_index_unique(s: Seq<char>, c: char, i: int)
    requires
        0 <= i <= s.len(),
        forall|j: int| 0 <= j < i ==> s[j] != c,
        i < s.len() ==> s[i] == c,
    ensures
        first_index(s, c) == i,
{
    lemma_first_index(s, c);
    if first_index(s, c) < i {
        assert(s[first_index(s, c) as int] == c);
    } else if first_index(s, c) > i {
        assert(s[i] != c);
    }
}

/// Digit characters are digits and denote their value.
pub proof fn lemma_digit_char(d: nat)
    requires
        d < 10,
    ensures
        is_digit(digit_char(d)),
        digit_value(digit_char(d)) == d,
{
}

/// Decimal representations are never empty and consist of digits.
pub proof fn lemma_decimal_digits(n: nat)
    ensures
        decimal(n).len() >= 1,
        all_digits(decimal(n)),
        digits_value(decimal(n)) == n,
    decreases n,
{
    if n < 10 {
        lemma_digit_char(n);
        assert(decimal(n).drop_last() =~= Seq::<char>::empty());
        assert(digits_value(decimal(n)) == digits_value(Seq::<char>::empty()) * 10 + digit_value(digit_char(n)));
    } else {
        lemma_digit_char(n % 10);
        lemma_decimal_digits(n / 10);
        let d = decimal(n / 10);
        let e = d.push(digit_char(n % 10));
        assert(e.drop_last() == d);
        assert(e.last() == digit_char(n % 10));
        assert(digits_value(e) == (n / 10) * 10 + n % 10);
        assert((n / 10) * 10 + n % 10 == n) by (nonlinear_arith);
        assert forall|i: int| 0 <= i < e.len() implies is_digit(#[trigger] e[i]) by {
            if i < d.len() {
                assert(e[i] == d[i]);
            }
        }
    }
}

/// The value of a digit string bounds the value of each of its prefixes.
pub proof fn lemma_digits_value_prefix(s: Seq<char>, k: int)
    requires
        0 <= k <= s.len(),
        all_digits(s),
    ensures
        digits_value(s.take(k)) <= digits_value(s),
    decreases s.len(),
{
    if k < s.len() {
        let t = s.drop_last();
        assert(all_digits(t)) by {
            assert forall|i: int| 0 <= i < t.len() implies is_digit(#[trigger] t[i]) by {
                assert(t[i] == s[i]);
            }
        }
        lemma_digits_value_prefix(t, k);
        assert(t.take(k) == s.take(k));
    } else {
        assert(s.take(k) == s);
    }
}

/// Extending a prefix by one digit multiplies its value by ten and adds the digit.
pub proof fn lemma_digits_value_step(s: Seq<char>, k: int)
    requires
        0 <= k < s.len(),
    ensures
        digits_value(s.take(k + 1)) == digits_value(s.take(k)) * 10 + digit_value(s[k]),
{
    assert(s.take(k + 1).drop_last() == s.take(k));
}

// ---------------------------------------------------------------------------
// Executable operations
// ---------------------------------------------------------------------------

/// The characters of `s`, in order.
pub fn chars_of(s: &str) -> (v: Vec<char>)
    ensures
        v@ == s@,
{
    let mut v: Vec<char> = Vec::new();
    broadcast use vstd::string::group_string_axioms;

    for c in it: s.chars()
        invariant
            it.seq() == s@,
            v@ == s@.take(it.index() as int),
    {
        v.push(c);
    }
    assert(v@ == s@);
    v
}

/// A `String` holding exactly the characters of `v`.
pub fn string_of(v: &[char]) -> (s: String)
    ensures
        s@ == v@,
{
    let mut s = String::new();
    let mut i: usize = 0;
    while i < v.len()
        invariant
            i <= v.len(),
            s@ == v@.subrange(0, i as int),
        decreases v.len() - i,
    {
        s.push(v[i]);
        i = i + 1;
    }
    assert(v@.subrange(0, v.len() as int) == v@);
    s
}

/// Appends every character of `src` to `dst`.
pub fn push_all(dst: &mut Vec<char>, src: &[char])
    ensures
        final(dst)@ == old(dst)@ + src@,
{
    let ghost start = dst@;
    let mut i: usize = 0;
    while i < src.len()
        invariant
            i <= src.len(),
            dst@ == start + src@.subrange(0, i as int),
        decreases src.len() - i,
    {
        dst.push(src[i]);
        i = i + 1;
    }
    assert(src@.subrange(0, src.len() as int) == src@);
}

/// Whether `s` begins with `p`.
pub fn starts_with(s: &[char], p: &[char]) -> (b: bool)
    ensures
        b == has_prefix(s@, p@),
{
    if p.len() > s.len() {
        return false;
    }
    let mut i: usize = 0;
    while i < p.len()
        invariant
            p.len() <= s.len(),
            i <= p.len(),
            forall|j: int| 0 <= j < i ==> s@[j] == p@[j],
        decreases p.len() - i,
    {
        if s[i] != p[i] {
            assert(s@.take(p.len() as int)[i as int] != p@[i as int]);
            return false;
        }
        i = i + 1;
    }
    assert(s@.take(p.len() as int) =~= p@);
    true
}

/// Whether `s` ends with `p`.
pub fn ends_with(s: &[char], p: &[char]) -> (b: bool)
    ensures
        b == has_suffix(s@, p@),
{
    if p.len() > s.len() {
        return false;
    }
    let off = s.len() - p.len();
    let mut i: usize = 0;
    while i < p.len()
        invariant
            p.len() <= s.len(),
            off == s.len() - p.len(),
            i <= p.len(),
            forall|j: int| 0 <= j < i ==> s@[off + j] == p@[j],
        decreases p.len() - i,
    {
        if s[off + i] != p[i] {
            assert(s@.skip(off as int)[i as int] != p@[i as int]);
            return false;
        }
        i = i + 1;
    }
    assert(s@.skip(off as int) =~= p@);
    true
}

/// Whether `s` ends with the single character `c`.
pub fn ends_with_char(s: &[char], c: char) -> (b: bool)
    ensures
        b == has_suffix(s@, seq![c]),
        b == (s@.len() > 0 && s@.last() == c),
{
    if s.len() == 0 {
        false
    } else {
        let b = s[s.len() - 1] == c;
        assert(s@.skip(s.len() - 1) =~= seq![s@.last()]);
        assert(seq![s@.last()][0] == s@.last());
        b
    }
}

/// Index of the first occurrence of `c` in `s` (its length when absent).
pub fn find_char(s: &[char], c: char) -> (i: usize)
    ensures
        i == first_index(s@, c),
        i <= s.len(),
{
    let mut i: usize = 0;
    while i < s.len() && s[i] != c
        invariant
            i <= s.len(),
            forall|j: int| 0 <= j < i ==> s@[j] != c,
        decreases s.len() - i,
    {
        i = i + 1;
    }
    proof {
        lemma_first_index_unique(s@, c, i as int);
    }
    i
}

/// The characters `s[from..to]`.
pub fn slice_chars(s: &[char], from: usize, to: usize) -> (r: Vec<char>)
    requires
        from <= to <= s.len(),
    ensures
        r@ == s@.subrange(from as int, to as int),
{
    let mut r: Vec<char> = Vec::new();
    let mut i: usize = from;
    while i < to
        invariant
            from <= i <= to,
            to <= s.len(),
            r@ == s@.subrange(from as int, i as int),
        decreases to - i,
    {
        r.push(s[i]);
        i = i + 1;
    }
    r
}

/// `s` with every non-overlapping occurrence of `pat` (scanned from the left)
/// replaced by `rep`, as `str::replace` does.
pub fn replace_chars(s: &[char], pat: &[char], rep: &[char]) -> (r: Vec<char>)
    requires
        pat.len() > 0,
    ensures
        r@ == replace_all(s@, pat@, rep@),
{
    let mut r: Vec<char> = Vec::new();
    let mut i: usize = 0;
    assert(s@.skip(0) =~= s@);
    while i < s.len()
        invariant
            pat@.len() > 0,
            i <= s.len(),
            r@ + replace_all(s@.skip(i as int), pat@, rep@) == replace_all(s@, pat@, rep@),
        decreases s.len() - i,
    {
        let ghost rest = s@.skip(i as int);
        let rest_v = slice_chars(s, i, s.len());
        assert(rest_v@ == rest);
        let ghost r0 = r@;
        if pat.len() <= s.len() - i && starts_with(&rest_v, pat) {
            assert(rest.take(pat@.len() as int) == pat@);
            assert(rest.skip(pat@.len() as int) =~= s@.skip(i + pat.len()));
            assert(replace_all(rest, pat@, rep@) == rep@ + replace_all(rest.skip(pat@.len() as int), pat@, rep@));
            push_all(&mut r, rep);
            i = i + pat.len();
            assert(r@ + replace_all(s@.skip(i as int), pat@, rep@) =~= r0 + replace_all(rest, pat@, rep@));
        } else {
            assert(rest.skip(1) =~= s@.skip(i + 1));
            assert(!has_prefix(rest, pat@));
            assert(replace_all(rest, pat@, rep@) == seq![rest[0]] + replace_all(rest.skip(1), pat@, rep@));
            r.push(s[i]);
            i = i + 1;
            assert(r@ + replace_all(s@.skip(i as int), pat@, rep@) =~= r0 + replace_all(rest, pat@, rep@));
        }
    }
    assert(s@.skip(s.len() as int) =~= Seq::<char>::empty());
    r
}

/// The ASCII digit for `d`.
pub fn digit_to_char(d: u64) -> (c: char)
    requires
        d < 10,
    ensures
        c == digit_char(d as nat),
{
    if d == 0 { '0' }
    else if d == 1 { '1' }
    else if d == 2 { '2' }
    else if d == 3 { '3' }
    else if d == 4 { '4' }
    else if d == 5 { '5' }
    else if d == 6 { '6' }
    else if d == 7 { '7' }
    else if d == 8 { '8' }
    else { '9' }
}

/// The decimal digits of `n`, as `n.to_string()` writes them.
pub fn u64_to_decimal(n: u64) -> (v: Vec<char>)
    ensures
        v@ == decimal(n as nat),
    decreases n,
{
    if n < 10 {
        let mut v: Vec<char> = Vec::new();
        v.push(digit_to_char(n));
        assert(v@ =~= seq![digit_char(n as nat)]);
        v
    } else {
        let mut v = u64_to_decimal(n / 10);
        v.push(digit_to_char(n % 10));
        v
    }
}

/// The decimal form of `n` with a leading `-` when negative, as `n.to_string()` writes it.
pub fn i64_to_decimal(n: i64) -> (v: Vec<char>)
    ensures
        v@ == signed_decimal(n as int),
{
    if n < 0 {
        let mag: u64 = if n == i64::MIN {
            9223372036854775808u64
        } else {
            (-n) as u64
        };
        let digits = u64_to_decimal(mag);
        let mut v: Vec<char> = Vec::new();
        v.push('-');
        push_all(&mut v, &digits);
        assert(v@ =~= seq!['-'] + decimal((-(n as int)) as nat));
        v
    } else {
        u64_to_decimal(n as u64)
    }
}

/// Whether `c` is an ASCII digit.
pub fn char_is_digit(c: char) -> (b: bool)
    ensures
        b == is_digit(c),
{
    '0' <= c && c <= '9'
}

/// The digits `s[start..]` read as a number, provided there is at least one, all
/// are digits, and the value does not exceed `cap`.
pub fn parse_digits_capped(s: &[char], start: usize, cap: u64) -> (r: Option<u64>)
    requires
        start <= s.len(),
    ensures
        ({
            let d = s@.skip(start as int);
            match r {
                Some(v) => d.len() > 0 && all_digits(d) && v == digits_value(d) && v <= cap,
                None => !(d.len() > 0 && all_digits(d) && digits_value(d) <= cap),
            }
        }),
{
    let ghost d = s@.skip(start as int);
    if start == s.len() {
        return None;
    }
    let mut acc: u64 = 0;
    let mut i: usize = start;
    assert(d.take(0) =~= Seq::<char>::empty());
    while i < s.len()
        invariant
            start <= i <= s.len(),
            d == s@.skip(start as int),
            acc as nat == digits_value(d.take(i - start)),
            acc <= cap,
            forall|j: int| 0 <= j < i - start ==> is_digit(#[trigger] d[j]),
        decreases s.len() - i,
    {
        let c = s[i];
        assert(d[i - start] == c);
        if !char_is_digit(c) {
            return None;
        }
        let dv: u64 = (c as u32 - '0' as u32) as u64;
        proof {
            lemma_digits_value_step(d, i - start);
        }
        assert(d.take(i - start + 1) =~= d.take((i + 1 - start) as int));
        let next = acc.checked_mul(10);
        if next.is_none() {
            proof {
                if all_digits(d) {
                    lemma_digits_value_prefix(d, i - start + 1);
                }
            }
            return None;
        }
        let next2 = next.unwrap().checked_add(dv);
        if next2.is_none() || next2.unwrap() > cap {
            proof {
                if all_digits(d) {
                    lemma_digits_value_prefix(d, i - start + 1);
                }
            }
            return None;
        }
        acc = next2.unwrap();
        i = i + 1;
    }
    assert(d.take(s.len() - start) =~= d);
    Some(acc)
}

/// `s.parse::<u64>()`: an optional `+` followed by decimal digits, without overflow.
pub fn parse_u64(s: &[char]) -> (r: Option<u64>)
    ensures
        r == parse_u64_spec(s@),
{
    let start: usize = if s.len() > 0 && s[0] == '+' { 1 } else { 0 };
    assert(start == 0 ==> s@.skip(0) =~= s@);
    parse_digits_capped(s, start, u64::MAX)
}

/// `s.parse::<i64>()`: an optional sign followed by decimal digits, within range.
pub fn parse_i64(s: &[char]) -> (r: Option<i64>)
    ensures
        r == parse_i64_spec(s@),
{
    if s.len() > 0 && s[0] == '-' {
        match parse_digits_capped(s, 1, 9223372036854775808u64) {
            Some(m) => {
                if m == 9223372036854775808u64 {
                    Some(i64::MIN)
                } else {
                    Some(-(m as i64))
                }
            },
            None => None,
        }
    } else {
        let start: usize = if s.len() > 0 && s[0] == '+' { 1 } else { 0 };
        assert(start == 0 ==> s@.skip(0) =~= s@);
        match parse_digits_capped(s, start, 9223372036854775807u64) {
            Some(m) => Some(m as i64),
            None => None,
        }
    }
}

/// `s.parse::<i32>()`: an optional sign followed by decimal digits, within range.
pub fn parse_i32(s: &[char]) -> (r: Option<i32>)
    ensures
        r == parse_i32_spec(s@),
{
    if s.len() > 0 && s[0] == '-' {
        match parse_digits_capped(s, 1, 2147483648u64) {
            Some(m) => {
                if m == 2147483648u64 {
                    Some(i32::MIN)
                } else {
                    Some(-(m as i32))
                }
            },
            None => None,
        }
    } else {
        let start: usize = if s.len() > 0 && s[0] == '+' { 1 } else { 0 };
        assert(start == 0 ==> s@.skip(0) =~= s@);
        match parse_digits_capped(s, start, 2147483647u64) {
            Some(m) => Some(m as i32),
            None => None,
        }
    }
}

/// `c` has the Unicode `White_Space` property (what `char::is_whitespace` tests).
pub open spec fn is_white_space(c: char) -> bool {
    ('\u{9}' <= c && c <= '\u{d}') || c == ' ' || c == '\u{85}' || c == '\u{a0}'
        || c == '\u{1680}' || ('\u{2000}' <= c && c <= '\u{200a}') || c == '\u{2028}'
        || c == '\u{2029}' || c == '\u{202f}' || c == '\u{205f}' || c == '\u{3000}'
}

/// `s` without its leading characters that satisfy `p`.
pub open spec fn strip_leading(s: Seq<char>, p: spec_fn(char) -> bool) -> Seq<char>
    decreases s.len(),
{
    if s.len() > 0 && p(s[0]) {
        strip_leading(s.skip(1), p)
    } else {
        s
    }
}

/// `s` without its trailing characters that satisfy `p`.
pub open spec fn strip_trailing(s: Seq<char>, p: spec_fn(char) -> bool) -> Seq<char>
    decreases s.len(),
{
    if s.len() > 0 && p(s.last()) {
        strip_trailing(s.drop_last(), p)
    } else {
        s
    }
}

/// What `str::trim` gives: `s` without leading and trailing white space.
pub open spec fn trim(s: Seq<char>) -> Seq<char> {
    strip_trailing(strip_leading(s, strip_pred(None)), strip_pred(None))
}

/// What `str::trim_matches(c)` gives for a single character `c`.
pub open spec fn trim_char(s: Seq<char>, c: char) -> Seq<char> {
    strip_trailing(strip_leading(s, strip_pred(Some(c))), strip_pred(Some(c)))
}

/// `s` after removing the suffix `p` for as long as `s` ends with it.
pub open spec fn strip_suffix_repeatedly(s: Seq<char>, p: Seq<char>) -> Seq<char>
    decreases s.len(),
{
    if p.len() > 0 && has_suffix(s, p) {
        strip_suffix_repeatedly(s.take(s.len() - p.len()), p)
    } else {
        s
    }
}

/// Splitting `s` at every `c`: the pieces between separators, as `str::split` yields them.
pub open spec fn split_all(s: Seq<char>, c: char) -> Seq<Seq<char>>
    decreases s.len(),
{
    if first_index(s, c) < s.len() {
        seq![before_first(s, c)] + split_all(after_first(s, c), c)
    } else {
        seq![s]
    }
}

proof fn lemma_strip_leading_at(s: Seq<char>, p: spec_fn(char) -> bool, i: int)
    requires
        0 <= i <= s.len(),
        forall|j: int| 0 <= j < i ==> p(#[trigger] s[j]),
        i < s.len() ==> !p(s[i]),
    ensures
        strip_leading(s, p) == s.skip(i),
    decreases i,
{
    if i == 0 {
        assert(s.skip(0) =~= s);
    } else {
        assert forall|j: int| 0 <= j < i - 1 implies p(#[trigger] s.skip(1)[j]) by {
            assert(s.skip(1)[j] == s[j + 1]);
        }
        lemma_strip_leading_at(s.skip(1), p, i - 1);
        assert(s.skip(1).skip(i - 1) =~= s.skip(i));
    }
}

proof fn lemma_strip_trailing_at(s: Seq<char>, p: spec_fn(char) -> bool, i: int)
    requires
        0 <= i <= s.len(),
        forall|j: int| i <= j < s.len() ==> p(#[trigger] s[j]),
        i > 0 ==> !p(s[i - 1]),
    ensures
        strip_trailing(s, p) == s.take(i),
    decreases s.len() - i,
{
    if i == s.len() {
        assert(s.take(i) =~= s);
    } else {
        let t = s.drop_last();
        assert forall|j: int| i <= j < t.len() implies p(#[trigger] t[j]) by {
            assert(t[j] == s[j]);
        }
        lemma_strip_trailing_at(t, p, i);
        assert(t.take(i) =~= s.take(i));
    }
}

/// Appends the characters of `s` to `v`.
pub fn append_str(v: &mut Vec<char>, s: &str)
    ensures
        final(v)@ == old(v)@ + s@,
{
    let c = chars_of(s);
    push_all(v, &c);
}

/// The characters that trimming removes: white space when `quote` is `None`, the
/// character `quote` otherwise.
pub open spec fn strip_pred(quote: Option<char>) -> spec_fn(char) -> bool {
    |c: char| match quote {
        None => is_white_space(c),
        Some(q) => c == q,
    }
}

/// `v` without leading and trailing characters that satisfy `strip_pred(quote)`.
fn strip_both(v: &[char], quote: Option<char>) -> (r: Vec<char>)
    ensures
        r@ == strip_trailing(strip_leading(v@, strip_pred(quote)), strip_pred(quote)),
{
    let ghost p = strip_pred(quote);
    let mut i: usize = 0;
    while i < v.len() && matches_strip(v[i], quote)
        invariant
            i <= v.len(),
            p == strip_pred(quote),
            forall|j: int| 0 <= j < i ==> p(#[trigger] v@[j]),
        decreases v.len() - i,
    {
        i = i + 1;
    }
    proof {
        lemma_strip_leading_at(v@, p, i as int);
    }
    let ghost lead = v@.skip(i as int);
    let mut j: usize = v.len();
    while j > i && matches_strip(v[j - 1], quote)
        invariant
            i <= j <= v.len(),
            p == strip_pred(quote),
            lead == v@.skip(i as int),
            forall|k: int| j <= k < v.len() ==> p(#[trigger] v@[k]),
        decreases j,
    {
        j = j - 1;
    }
    proof {
        assert forall|k: int| j - i <= k < lead.len() implies p(#[trigger] lead[k]) by {
            assert(lead[k] == v@[k + i]);
        }
        if j > i {
            assert(lead[j - i - 1] == v@[j - 1]);
        }
        lemma_strip_trailing_at(lead, p, j - i);
        assert(lead.take(j - i) =~= v@.subrange(i as int, j as int));
    }
    slice_chars(v, i, j)
}

fn matches_strip(c: char, quote: Option<char>) -> (b: bool)
    ensures
        b == strip_pred(quote)(c),
{
    match quote {
        None => {
            ('\u{9}' <= c && c <= '\u{d}') || c == ' ' || c == '\u{85}' || c == '\u{a0}'
                || c == '\u{1680}' || ('\u{2000}' <= c && c <= '\u{200a}') || c == '\u{2028}'
                || c == '\u{2029}' || c == '\u{202f}' || c == '\u{205f}' || c == '\u{3000}'
        },
        Some(q) => c == q,
    }
}

/// `str::trim`: `v` without leading and trailing white space.
pub fn trim_chars(v: &[char]) -> (r: Vec<char>)
    ensures
        r@ == trim(v@),
{
    strip_both(v, None)
}

/// `str::trim_matches(c)`: `v` without leading and trailing occurrences of `c`.
pub fn trim_matching(v: &[char], c: char) -> (r: Vec<char>)
    ensures
        r@ == trim_char(v@, c),
{
    strip_both(v, Some(c))
}

/// `v` after removing the suffix `p` for as long as it ends with it.
pub fn strip_suffix_all(v: &[char], p: &[char]) -> (r: Vec<char>)
    requires
        p.len() > 0,
    ensures
        r@ == strip_suffix_repeatedly(v@, p@),
{
    let mut cur = slice_chars(v, 0, v.len());
    assert(v@.subrange(0, v@.len() as int) =~= v@);
    while ends_with(&cur, p)
        invariant
            p@.len() > 0,
            strip_suffix_repeatedly(cur@, p@) == strip_suffix_repeatedly(v@, p@),
        decreases cur@.len(),
    {
        let n = cur.len() - p.len();
        cur = slice_chars(&cur, 0, n);
    }
    cur
}

/// The pieces of `v` between the separators `c`, as `str::split(c)` yields them.
pub fn split_chars(v: &[char], c: char) -> (r: Vec<Vec<char>>)
    ensures
        r@.len() == split_all(v@, c).len(),
        forall|i: int| 0 <= i < r@.len() ==> #[trigger] r@[i]@ == split_all(v@, c)[i],
{
    let mut r: Vec<Vec<char>> = Vec::new();
    let mut rest = slice_chars(v, 0, v.len());
    assert(v@.subrange(0, v@.len() as int) =~= v@);
    let ghost done: Seq<Seq<char>> = Seq::empty();
    loop
        invariant
            r@.len() == done.len(),
            forall|i: int| 0 <= i < r@.len() ==> #[trigger] r@[i]@ == done[i],
            done + split_all(rest@, c) == split_all(v@, c),
        decreases rest@.len(),
    {
        let k = find_char(&rest, c);
        if k < rest.len() {
            let piece = slice_chars(&rest, 0, k);
            let next = slice_chars(&rest, k + 1, rest.len());
            proof {
                assert(piece@ =~= before_first(rest@, c));
                assert(next@ =~= after_first(rest@, c));
                assert(done.push(piece@) + split_all(next@, c) =~= done + split_all(rest@, c));
                done = done.push(piece@);
            }
            r.push(piece);
            rest = next;
        } else {
            proof {
                assert(done.push(rest@) =~= done + split_all(rest@, c));
                done = done.push(rest@);
            }
            r.push(rest);
            return r;
        }
    }
}

} // verus!

verus! {

/// Reading back a formatted number gives the number: `n.to_string().parse::<u64>()`
/// is `Some(n)`.
pub proof fn lemma_decimal_roundtrip_u64(n: u64)
    ensures
        parse_u64_spec(decimal(n as nat)) == Some(n),
{
    lemma_decimal_digits(n as nat);
    let d = decimal(n as nat);
    assert(is_digit(d[0]));
    assert(d[0] != '+');
}

/// Reading back a formatted signed number gives the number:
/// `n.to_string().parse::<i64>()` is `Some(n)`.
pub proof fn lemma_decimal_roundtrip_i64(n: i64)
    ensures
        parse_i64_spec(signed_decimal(n as int)) == Some(n),
{
    if n < 0 {
        let m = (-(n as int)) as nat;
        lemma_decimal_digits(m);
        let s = signed_decimal(n as int);
        assert(s.skip(1) =~= decimal(m));
        assert(s[0] == '-');
    } else {
        lemma_decimal_digits(n as nat);
        let d = decimal(n as nat);
        assert(is_digit(d[0]));
        assert(d[0] != '-' && d[0] != '+');
    }
}

/// Replacing a pattern that does not occur changes nothing.
pub proof fn lemma_replace_absent(s: Seq<char>, pat: Seq<char>, rep: Seq<char>)
    requires
        pat.len() > 0,
        forall|i: int| 0 <= i <= s.len() - pat.len() ==> #[trigger] s.subrange(i, i + pat.len()) != pat,
    ensures
        replace_all(s, pat, rep) == s,
    decreases s.len(),
{
    if s.len() >= pat.len() {
        assert(s.subrange(0int, 0int + pat.len()) != pat);
        assert(s.take(pat.len() as int) == s.subrange(0int, 0int + pat.len()));
        let t = s.skip(1);
        assert forall|i: int| 0 <= i <= t.len() - pat.len() implies #[trigger] t.subrange(i, i + pat.len()) != pat by {
            assert(t.subrange(i, i + pat.len()) =~= s.subrange(i + 1, i + 1 + pat.len()));
        }
        lemma_replace_absent(t, pat, rep);
        assert(seq![s[0]] + t =~= s);
    }
}

/// No two neighbouring characters of `s` are both `c`.
pub open spec fn no_pair(s: Seq<char>, c: char) -> bool {
    forall|i: int| 0 <= i < s.len() - 1 ==> !(#[trigger] s[i] == c && s[i + 1] == c)
}

proof fn lemma_replace_keeps_first(s: Seq<char>, c: char, rep: Seq<char>)
    requires
        s.len() > 0,
        s[0] != c,
    ensures
        replace_all(s, seq![c, c], rep).len() > 0,
        replace_all(s, seq![c, c], rep)[0] == s[0],
{
    let pat = seq![c, c];
    if s.len() >= 2 {
        assert(s.take(2)[0] != pat[0]);
        assert(s.take(pat.len() as int) != pat);
    }
}

/// Replacing every pair `cc` by a text without `c` leaves no pair `cc`: a single
/// `c` that stays is never next to another one.
pub proof fn lemma_replace_pairs(s: Seq<char>, c: char, rep: Seq<char>)
    requires
        forall|i: int| 0 <= i < rep.len() ==> rep[i] != c,
    ensures
        no_pair(replace_all(s, seq![c, c], rep), c),
    decreases s.len(),
{
    let pat = seq![c, c];
    let r = replace_all(s, pat, rep);
    if s.len() < 2 {
        assert(r == s);
    } else if s.take(2) == pat {
        let t = replace_all(s.skip(2), pat, rep);
        lemma_replace_pairs(s.skip(2), c, rep);
        assert(r == rep + t);
        assert forall|i: int| 0 <= i < r.len() - 1 implies !(#[trigger] r[i] == c && r[i + 1] == c) by {
            if i < rep.len() {
                assert(r[i] == rep[i]);
            } else {
                assert(r[i] == t[i - rep.len()]);
                assert(r[i + 1] == t[i + 1 - rep.len()]);
            }
        }
    } else {
        let u = s.skip(1);
        let t = replace_all(u, pat, rep);
        lemma_replace_pairs(u, c, rep);
        assert(r == seq![s[0]] + t);
        if s[0] == c {
            assert(s.take(2) =~= seq![s[0], s[1]]);
            assert(s[1] != c);
            lemma_replace_keeps_first(u, c, rep);
        }
        assert forall|i: int| 0 <= i < r.len() - 1 implies !(#[trigger] r[i] == c && r[i + 1] == c) by {
            if i == 0 {
                assert(r[0] == s[0]);
                assert(r[1] == t[0]);
            } else {
                assert(r[i] == t[i - 1]);
                assert(r[i + 1] == t[i]);
            }
        }
    }
}

} // verus!
