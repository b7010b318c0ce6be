use vstd::prelude::*;

verus! {

/// The decimal digit character for `d` (for `d < 10`).
pub open spec fn digit_char(d: nat) -> char {
    if d == 0 { '0' } else if d == 1 { '1' } else if d == 2 { '2' } else if d == 3 { '3' }
    else if d == 4 { '4' } else if d == 5 { '5' } else if d == 6 { '6' } else if d == 7 { '7' }
    else if d == 8 { '8' } else { '9' }
}

/// The decimal representation of `n`, without leading zeros.
pub open spec fn nat_decimal(n: nat) -> Seq<char>
    decreases n,
{
    if n < 10 {
        seq![digit_char(n)]
    } else {
        nat_decimal(n / 10).push(digit_char(n % 10))
    }
}

/// The decimal representation of a signed integer, with a leading '-' when negative.
pub open spec fn int_decimal(n: int) -> Seq<char> {
    if n < 0 {
        seq!['-'] + nat_decimal((-n) as nat)
    } else {
        nat_decimal(n as nat)
    }
}

/// Whether `c` is one of the ASCII digits '0'..='9'.
pub open spec fn is_digit(c: char) -> bool {
    '0' <= c && c <= '9'
}

/// The numeric value of a digit character.
pub open spec fn digit_value(c: char) -> nat {
    (c as int - '0' as int) as nat
}

/// The value of a sequence of decimal digits.
pub open spec fn decimal_value(s: Seq<char>) -> nat
    decreases s.len(),
{
    if s.len() == 0 {
        0
    } else {
        decimal_value(s.drop_last()) * 10 + digit_value(s.last())
    }
}

/// The integer that `s` spells in Rust's integer syntax: an optional sign ('+', or '-' when
/// `signed`) followed by one or more decimal digits.
pub open spec fn int_text_value(s: Seq<char>, signed: bool) -> Option<int> {
    if s.len() > 0 && (s[0] == '+' || (signed && s[0] == '-')) {
        let d = s.drop_first();
        if d.len() > 0 && all_digits(d) {
            Some(if s[0] == '-' { -(decimal_value(d) as int) } else { decimal_value(d) as int })
        } else {
            None
        }
    } else if s.len() > 0 && all_digits(s) {
        Some(decimal_value(s) as int)
    } else {
        None
    }
}

/// Whether every character of `s` is a decimal digit.
pub open spec fn all_digits(s: Seq<char>) -> bool {
    forall|i: int| 0 <= i < s.len() ==> is_digit(#[trigger] s[i])
}

/// Whether `c` has the Unicode White_Space property (what `char::is_whitespace` tests).
pub open spec fn is_white_space(c: char) -> bool {
    ||| c == '\t' || c == '\n' || c == '\u{0B}' || c == '\u{0C}' || c == '\r' || c == ' '
    ||| c == '\u{85}' || c == '\u{A0}' || c == '\u{1680}'
    ||| '\u{2000}' <= c && c <= '\u{200A}'
    ||| c == '\u{2028}' || c == '\u{2029}' || c == '\u{202F}' || c == '\u{205F}' || c == '\u{3000}'
}

/// Tests the Unicode White_Space property.
pub fn char_is_whitespace(c: char) -> (r: bool)
    ensures
        r == is_white_space(c),
{
    c == '\t' || c == '\n' || c == '\u{0B}' || c == '\u{0C}' || c == '\r' || c == ' '
        || c == '\u{85}' || c == '\u{A0}' || c == '\u{1680}'
        || ('\u{2000}' <= c && c <= '\u{200A}')
        || c == '\u{2028}' || c == '\u{2029}' || c == '\u{202F}' || c == '\u{205F}' || c == '\u{3000}'
}

/// Whether `c` has the Unicode Alphabetic property, as `char::is_alphabetic` decides it.
pub uninterp spec fn unicode_alphabetic(c: char) -> bool;

/// Whether `c` is Alphabetic or Numeric in Unicode, as `char::is_alphanumeric` decides it.
pub uninterp spec fn unicode_alphanumeric(c: char) -> bool;

/// Calls `char::is_alphabetic`. Trusted: the result is `unicode_alphabetic(c)`, and on
/// ASCII characters it is true exactly for the letters 'a'..='z' and 'A'..='Z', as the
/// documentation of the Alphabetic property shows. Which non-ASCII characters are
/// alphabetic is left to the name.
#[verifier::external_body]
pub(crate) fn char_is_alphabetic(c: char) -> (r: bool)
    ensures
        r == unicode_alphabetic(c),
        (c as u32) < 128 ==> (r <==> (('a' <= c && c <= 'z') || ('A' <= c && c <= 'Z'))),
{
    c.is_alphabetic()
}

/// Calls `char::is_alphanumeric`. Trusted: the result is `unicode_alphanumeric(c)`; it holds of
/// every alphabetic character and of every ASCII digit, and on ASCII characters it is true
/// exactly for letters and digits.
#[verifier::external_body]
pub(crate) fn char_is_alphanumeric(c: char) -> (r: bool)
    ensures
        r == unicode_alphanumeric(c),
        unicode_alphabetic(c) ==> r,
        is_digit(c) ==> r,
        (c as u32) < 128 ==> (r <==> (('a' <= c && c <= 'z') || ('A' <= c && c <= 'Z') || is_digit(c))),
{
    c.is_alphanumeric()
}

/// Calls `String::push`: appends one character.
#[verifier::external_body]
pub(crate) fn push_char(s: &mut String, c: char)
    ensures
        final(s)@ == old(s)@.push(c),
{
    s.push(c)
}

/// The digit character of `d`.
pub fn digit_to_char(d: usize) -> (c: char)
    requires
        d < 10,
    ensures
        c == digit_char(d as nat),
{
    if d == 0 { '0' } else if d == 1 { '1' } else if d == 2 { '2' } else if d == 3 { '3' }
    else if d == 4 { '4' } else if d == 5 { '5' } else if d == 6 { '6' } else if d == 7 { '7' }
    else if d == 8 { '8' } else { '9' }
}

/// The decimal text of `n`.
pub fn usize_to_string(n: usize) -> (s: String)
    ensures
        s@ == nat_decimal(n as nat),
    decreases n,
{
    if n < 10 {
        let mut s = String::new();
        push_char(&mut s, digit_to_char(n));
        s
    } else {
        let mut s = usize_to_string(n / 10);
        push_char(&mut s, digit_to_char(n % 10));
        s
    }
}

/// The decimal text of `n`, with a leading '-' when negative.
pub fn i64_to_string(n: i64) -> (s: String)
    ensures
        s@ == int_decimal(n as int),
{
    if n < 0 {
        let m: u64 = if n == i64::MIN { 9223372036854775808u64 } else { (-n) as u64 };
        let mut s = String::new();
        push_char(&mut s, '-');
        let d = u64_to_string(m);
        s.append(d.as_str());
        s
    } else {
        u64_to_string(n as u64)
    }
}

/// The decimal text of `n`.
pub fn u64_to_string(n: u64) -> (s: String)
    ensures
        s@ == nat_decimal(n as nat),
    decreases n,
{
    if n < 10 {
        let mut s = String::new();
        push_char(&mut s, digit_to_char(n as usize));
        s
    } else {
        let mut s = u64_to_string(n / 10);
        push_char(&mut s, digit_to_char((n % 10) as usize));
        s
    }
}

/// The characters of `s`, in order.
pub fn chars_of(s: &str) -> (v: Vec<char>)
    ensures
        v@ == s@,
{
    let mut v: Vec<char> = Vec::new();
    for c in it: s.chars()
        invariant
            v@ == it.seq().take(it.index() as int),
    {
        v.push(c);
    }
    v
}

/// The string made of the characters `v[start..end]`.
pub fn string_of_range(v: &Vec<char>, start: usize, end: usize) -> (s: String)
    requires
        start <= end <= v.len(),
    ensures
        s@ == v@.subrange(start as int, end as int),
{
    let mut s = String::new();
    let mut i: usize = start;
    while i < end
        invariant
            start <= i <= end <= v.len(),
            s@ == v@.subrange(start as int, i as int),
        decreases end - i,
    {
        push_char(&mut s, v[i]);
        i += 1;
        assert(s@ =~= v@.subrange(start as int, i as int));
    }
    s
}

/// The string made of all the characters of `v`.
pub fn string_of_chars(v: &Vec<char>) -> (s: String)
    ensures
        s@ == v@,
{
    let s = string_of_range(v, 0, v.len());
    assert(v@.subrange(0, v@.len() as int) =~= v@);
    s
}

/// Parses a sequence of decimal digits as a value of at most `max`; `None` when it is larger.
pub fn parse_decimal(s: &str, max: u64) -> (r: Option<u64>)
    requires
        all_digits(s@),
    ensures
        decimal_value(s@) <= max ==> r == Some(decimal_value(s@) as u64),
        decimal_value(s@) > max ==> r is None,
{
    let v = chars_of(s);
    let mut acc: u64 = 0;
    let mut i: usize = 0;
    while i < v.len()
        invariant
            v@ == s@,
            all_digits(s@),
            i <= v.len(),
            acc as nat == decimal_value(v@.take(i as int)),
            acc <= max,
        decreases v.len() - i,
    {
        let c = v[i];
        assert(is_digit(v@[i as int]));
        let d: u64 = (c as u64) - ('0' as u64);
        assert(v@.take(i + 1).drop_last() =~= v@.take(i as int));
        if d > max || acc > (max - d) / 10 {
            proof {
                lemma_decimal_prefix_le(v@, i as int + 1);
                if d <= max {
                    assert(acc * 10 + d > max) by (nonlinear_arith)
                        requires acc > (max - d) / 10, d <= max;
                }
            }
            return None;
        }
        assert(acc * 10 + d <= max) by (nonlinear_arith)
            requires acc <= (max - d) / 10, d <= max;
        acc = acc * 10 + d;
        i += 1;
    }
    assert(v@.take(v.len() as int) =~= v@);
    Some(acc)
}

/// The value of a digit prefix never exceeds the value of the whole sequence.
proof fn lemma_decimal_prefix_le(s: Seq<char>, k: int)
    requires
        0 <= k <= s.len(),
    ensures
        decimal_value(s.take(k)) <= decimal_value(s),
    decreases s.len() - k,
{
    if k < s.len() {
        lemma_decimal_prefix_le(s, k + 1);
        assert(s.take(k + 1).drop_last() =~= s.take(k));
    } else {
        assert(s.take(k) =~= s);
    }
}

/// Whether the characters `v` spell out `lit`.
pub fn chars_equal_str(v: &Vec<char>, lit: &str) -> (r: bool)
    ensures
        r == (v@ == lit@),
{
    let w = chars_of(lit);
    if v.len() != w.len() {
        return false;
    }
    let mut i: usize = 0;
    while i < v.len()
        invariant
            w@ == lit@,
            v.len() == w.len(),
            i <= v.len(),
            forall|j: int| 0 <= j < i ==> v@[j] == w@[j],
        decreases v.len() - i,
    {
        if v[i] != w[i] {
            return false;
        }
        i += 1;
    }
    assert(v@ =~= w@);
    true
}

/// A string holding the text of `lit`.
pub fn string_from(lit: &str) -> (s: String)
    ensures
        s@ == lit@,
{
    let mut s = String::new();
    s.append(lit);
    s
}

/// Whether every character of `v` is a decimal digit.
fn chars_all_digits(v: &Vec<char>, from: usize) -> (r: bool)
    requires
        from <= v.len(),
    ensures
        r == all_digits(v@.skip(from as int)),
{
    let mut i = from;
    while i < v.len()
        invariant
            from <= i <= v.len(),
            forall|j: int| from <= j < i ==> is_digit(#[trigger] v@[j]),
        decreases v.len() - i,
    {
        if !(v[i] >= '0' && v[i] <= '9') {
            assert(!is_digit(v@.skip(from as int)[i - from]));
            return false;
        }
        i += 1;
    }
    assert forall|j: int| 0 <= j < v@.skip(from as int).len() implies is_digit(#[trigger] v@.skip(from as int)[j]) by {
        assert(v@.skip(from as int)[j] == v@[j + from]);
    }
    true
}

/// Parses text in Rust's `i64` syntax; `None` when it is not that syntax or out of range.
pub fn parse_i64_text(s: &String) -> (r: Option<i64>)
    ensures
        r == (match int_text_value(s@, true) {
            Some(v) => if i64::MIN <= v <= i64::MAX { Some(v as i64) } else { None },
            None => None,
        }),
{
    let v = chars_of(s.as_str());
    if v.len() == 0 {
        return None;
    }
    let neg = v[0] == '-';
    let signed = v[0] == '+' || v[0] == '-';
    let from: usize = if signed { 1 } else { 0 };
    if from >= v.len() || !chars_all_digits(&v, from) {
        proof {
            if signed {
                assert(v@.drop_first() =~= v@.skip(1));
            } else {
                assert(v@ =~= v@.skip(0));
            }
        }
        return None;
    }
    let digits = string_of_range(&v, from, v.len());
    proof {
        if signed {
            assert(digits@ =~= v@.drop_first());
            assert(v@.drop_first() =~= v@.skip(1));
        } else {
            assert(digits@ =~= v@);
            assert(v@ =~= v@.skip(0));
        }
    }
    let max: u64 = if neg { 9223372036854775808u64 } else { 9223372036854775807u64 };
    match parse_decimal(digits.as_str(), max) {
        None => None,
        Some(n) => {
            if neg {
                if n == 9223372036854775808u64 {
                    Some(i64::MIN)
                } else {
                    Some(-(n as i64))
                }
            } else {
                Some(n as i64)
            }
        },
    }
}

/// Parses text in Rust's `usize` syntax; `None` when it is not that syntax or out of range.
pub fn parse_usize_text(s: &String) -> (r: Option<usize>)
    ensures
        r == (match int_text_value(s@, false) {
            Some(v) => if v <= usize::MAX { Some(v as usize) } else { None },
            None => None,
        }),
{
    let v = chars_of(s.as_str());
    if v.len() == 0 {
        return None;
    }
    let signed = v[0] == '+';
    let from: usize = if signed { 1 } else { 0 };
    if from >= v.len() || !chars_all_digits(&v, from) {
        proof {
            if signed {
                assert(v@.drop_first() =~= v@.skip(1));
            } else {
                assert(v@ =~= v@.skip(0));
                if v@[0] == '-' {
                    assert(!is_digit(v@[0]));
                }
            }
        }
        return None;
    }
    let digits = string_of_range(&v, from, v.len());
    proof {
        if signed {
            assert(digits@ =~= v@.drop_first());
            assert(v@.drop_first() =~= v@.skip(1));
        } else {
            assert(digits@ =~= v@);
            assert(v@ =~= v@.skip(0));
            assert(is_digit(v@[0]));
        }
    }
    let max: u64 = if usize::MAX as u64 as usize == usize::MAX { usize::MAX as u64 } else { u64::MAX };
    match parse_decimal(digits.as_str(), max) {
        None => None,
        Some(n) => Some(n as usize),
    }
}

/// The number of bytes of `c` in UTF-8.
pub open spec fn utf8_width(c: char) -> nat {
    if (c as u32) < 0x80 {
        1
    } else if (c as u32) < 0x800 {
        2
    } else if (c as u32) < 0x10000 {
        3
    } else {
        4
    }
}

/// The number of bytes of a text in UTF-8.
pub open spec fn utf8_len(s: Seq<char>) -> nat
    decreases s.len(),
{
    if s.len() == 0 {
        0
    } else {
        utf8_len(s.drop_last()) + utf8_width(s.last())
    }
}

/// A text has at least as many bytes as characters, and at most four times as many.
pub proof fn lemma_utf8_len_bounds(s: Seq<char>)
    ensures
        s.len() <= utf8_len(s) <= 4 * s.len(),
    decreases s.len(),
{
    if s.len() > 0 {
        lemma_utf8_len_bounds(s.drop_last());
    }
}

/// The bytes of the first `k + 1` characters are those of the first `k` and of the next one;
/// a longer prefix has no fewer bytes, and none has more than the whole text.
pub proof fn lemma_utf8_prefix(s: Seq<char>, k: nat)
    requires
        k <= s.len(),
    ensures
        k < s.len() ==> utf8_len(s.take(k as int + 1)) == utf8_len(s.take(k as int)) + utf8_width(s[k as int]),
        utf8_len(s.take(k as int)) <= utf8_len(s),
    decreases s.len() - k,
{
    if k < s.len() {
        assert(s.take(k as int + 1).drop_last() =~= s.take(k as int));
        lemma_utf8_prefix(s, k + 1);
    } else {
        assert(s.take(k as int) =~= s);
    }
}

/// The number of bytes in UTF-8 of the first `k` characters.
pub fn utf8_prefix_len(cs: &Vec<char>, k: usize) -> (r: u128)
    requires
        k <= cs.len(),
    ensures
        r == utf8_len(cs@.take(k as int)),
{
    let mut r: u128 = 0;
    let mut i: usize = 0;
    assert(cs@.take(0) =~= Seq::<char>::empty());
    while i < k
        invariant
            i <= k <= cs.len(),
            r == utf8_len(cs@.take(i as int)),
            r <= 4 * i,
        decreases k - i,
    {
        proof { lemma_utf8_prefix(cs@, i as nat); }
        let v = cs[i] as u32;
        let w: u128 = if v < 0x80 { 1 } else if v < 0x800 { 2 } else if v < 0x10000 { 3 } else { 4 };
        r = r + w;
        i += 1;
    }
    r
}

} // verus!
