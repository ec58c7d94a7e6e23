//! Small text utilities: literal comparison and the grammar of decimal
//! integers as they appear in attribute values.

use vstd::prelude::*;
use vstd::string::*;

verus! {

/// Whether `a` holds exactly the characters of `lit`.
pub fn text_is(a: &String, lit: &str) -> (r: bool)
    ensures
        r == (a@ == lit@),
{
    let b = lit.to_owned();
    *a == b
}

/// An owned copy of `s`.
pub fn owned(s: &str) -> (r: String)
    ensures
        r@ == s@,
{
    s.to_owned()
}

pub open spec fn is_digit(c: char) -> bool {
    '0' <= c && c <= '9'
}

pub open spec fn digit_value(c: char) -> int {
    c as int - '0' as int
}

pub open spec fn all_digits(s: Seq<char>) -> bool {
    forall|i: int| 0 <= i < s.len() ==> is_digit(#[trigger] s[i])
}

/// The number that a string of decimal digits denotes, most significant
/// digit first.
pub open spec fn decimal_value(s: Seq<char>) -> nat
    decreases s.len(),
{
    if s.len() == 0 {
        0
    } else {
        (decimal_value(s.drop_last()) * 10 + digit_value(s.last())) as nat
    }
}

/// The integer literals accepted for a type with the range `min..=max`:
/// an optional sign (`-` only where the type is signed), then at least
/// one decimal digit, denoting a number within the range.
pub open spec fn integer_literal(s: Seq<char>, min: int, max: int) -> Option<int> {
    if s.len() > 0 && s[0] == '-' && min < 0 {
        let digits = s.skip(1);
        if digits.len() > 0 && all_digits(digits) && -decimal_value(digits) >= min {
            Some(-(decimal_value(digits) as int))
        } else {
            None
        }
    } else {
        let digits = if s.len() > 0 && s[0] == '+' {
            s.skip(1)
        } else {
            s
        };
        if digits.len() > 0 && all_digits(digits) && decimal_value(digits) <= max {
            Some(decimal_value(digits) as int)
        } else {
            None
        }
    }
}

pub proof fn lemma_decimal_value_grows(s: Seq<char>, n: int)
    requires
        0 <= n <= s.len(),
        all_digits(s),
    ensures
        decimal_value(s.take(n)) <= decimal_value(s),
    decreases s.len() - n,
{
    if n < s.len() {
        lemma_decimal_value_grows(s, n + 1);
        let t = s.take(n + 1);
        assert(t.drop_last() =~= s.take(n));
        assert(is_digit(t.last()));
    } else {
        assert(s.take(n) =~= s);
    }
}

/// Reads the digits of `s` from position `from` on. `None` where a
/// character is no digit, there is none, or the number exceeds `limit`.
fn read_digits(s: &str, from: usize, limit: u64) -> (r: Option<u64>)
    requires
        from <= s@.len(),
    ensures
        r == (if s@.skip(from as int).len() > 0 && all_digits(s@.skip(from as int))
            && decimal_value(s@.skip(from as int)) <= limit {
            Some(decimal_value(s@.skip(from as int)) as u64)
        } else {
            None
        }),
{
    let n = s.unicode_len();
    let ghost digits = s@.skip(from as int);
    if from == n {
        return None;
    }
    let mut acc: u64 = 0;
    let mut i: usize = from;
    while i < n
        invariant
            from <= i <= n,
            n == s@.len(),
            digits == s@.skip(from as int),
            all_digits(digits.take(i - from)),
            acc == decimal_value(digits.take(i - from)),
            acc <= limit,
        decreases n - i,
    {
        let c = s.get_char(i);
        let ghost next = digits.take(i - from + 1);
        assert(digits[i - from] == c);
        assert(next.drop_last() =~= digits.take(i - from));
        assert(next.last() == c);
        if !('0' <= c && c <= '9') {
            assert(!is_digit(digits[i - from]));
            return None;
        }
        let d: u64 = (c as u64) - ('0' as u64);
        assert(d == digit_value(c));
        assert(all_digits(next)) by {
            assert forall|j: int| 0 <= j < next.len() implies is_digit(#[trigger] next[j]) by {
                if j < i - from {
                    assert(digits.take(i - from)[j] == next[j]);
                }
            }
        }
        if limit < d || acc > (limit - d) / 10 {
            proof {
                assert(decimal_value(next) == acc * 10 + d);
                assert(decimal_value(next) > limit);
                if all_digits(digits) {
                    lemma_decimal_value_grows(digits, i - from + 1);
                }
            }
            return None;
        }
        acc = acc * 10 + d;
        i += 1;
    }
    assert(digits.take(i - from) =~= digits);
    Some(acc)
}

/// Parses an unsigned integer literal no greater than `max`.
pub fn parse_unsigned(s: &str, max: u64) -> (r: Option<u64>)
    ensures
        r.is_some() == integer_literal(s@, 0, max as int).is_some(),
        r.is_some() ==> r.unwrap() == integer_literal(s@, 0, max as int).unwrap(),
{
    let n = s.unicode_len();
    if n > 0 && s.get_char(0) == '+' {
        read_digits(s, 1, max)
    } else {
        assert(s@.skip(0) =~= s@);
        read_digits(s, 0, max)
    }
}

/// Parses a signed 32-bit integer literal.
pub fn parse_i32(s: &str) -> (r: Option<i32>)
    ensures
        r.is_some() == integer_literal(s@, i32::MIN as int, i32::MAX as int).is_some(),
        r.is_some() ==> r.unwrap() == integer_literal(
            s@,
            i32::MIN as int,
            i32::MAX as int,
        ).unwrap(),
{
    let n = s.unicode_len();
    if n > 0 && s.get_char(0) == '-' {
        match read_digits(s, 1, 2147483648) {
            Some(v) => {
                let w: i64 = -(v as i64);
                Some(w as i32)
            },
            None => None,
        }
    } else {
        match parse_unsigned(s, 2147483647) {
            Some(v) => Some(v as i32),
            None => None,
        }
    }
}

/// The index at which the run of decimal digits that starts at `from` ends.
pub open spec fn digits_end(s: Seq<char>, from: int) -> int
    decreases s.len() - from,
{
    if 0 <= from < s.len() && is_digit(s[from]) {
        digits_end(s, from + 1)
    } else {
        from
    }
}

pub open spec fn is_sign(c: char) -> bool {
    c == '+' || c == '-'
}

/// Whether `c` is the lower-case ASCII letter `lower` or its capital.
pub open spec fn is_letter(c: char, lower: char) -> bool {
    c == lower || ('A' <= c && c <= 'Z' && c as int + 32 == lower as int)
}

/// Whether `s` spells `word`, a word of lower-case ASCII letters, in any
/// mix of cases.
pub open spec fn spells(s: Seq<char>, word: Seq<char>) -> bool {
    s.len() == word.len() && forall|i: int|
        0 <= i < s.len() ==> is_letter(#[trigger] s[i], word[i])
}

pub open spec fn word_inf() -> Seq<char> {
    seq!['i', 'n', 'f']
}

pub open spec fn word_infinity() -> Seq<char> {
    seq!['i', 'n', 'f', 'i', 'n', 'i', 't', 'y']
}

pub open spec fn word_nan() -> Seq<char> {
    seq!['n', 'a', 'n']
}

/// An unsigned decimal number: digits with at most one point among them
/// and at least one digit, then optionally an exponent, which is `e` or
/// `E`, an optional sign and at least one digit.
pub open spec fn is_decimal_number(s: Seq<char>) -> bool {
    let i = digits_end(s, 0);
    let pointed = i < s.len() && s[i] == '.';
    let j = if pointed {
        digits_end(s, i + 1)
    } else {
        i
    };
    let mantissa_digits = if pointed {
        j - 1
    } else {
        j
    };
    mantissa_digits >= 1 && (j == s.len() || (is_letter(s[j], 'e') && {
        let k = if j + 1 < s.len() && is_sign(s[j + 1]) {
            j + 2
        } else {
            j + 1
        };
        k < s.len() && digits_end(s, k) == s.len()
    }))
}

/// The literals that denote a floating-point number: an optional sign,
/// then `inf`, `infinity` or `nan` in any case, or a decimal number.
pub open spec fn is_float_literal(s: Seq<char>) -> bool {
    let body = if s.len() > 0 && is_sign(s[0]) {
        s.skip(1)
    } else {
        s
    };
    spells(body, word_inf()) || spells(body, word_infinity()) || spells(body, word_nan())
        || is_decimal_number(body)
}

fn char_is_letter(c: char, lower: char) -> (r: bool)
    ensures
        r == is_letter(c, lower),
{
    c == lower || ('A' <= c && c <= 'Z' && c as u32 + 32 == lower as u32)
}

fn scan_digits(s: &str, base: usize, from: usize) -> (r: usize)
    requires
        base <= from <= s@.len(),
    ensures
        r - base == digits_end(s@.skip(base as int), from - base),
        from <= r <= s@.len(),
{
    let n = s.unicode_len();
    let ghost t = s@.skip(base as int);
    let mut i: usize = from;
    while i < n
        invariant
            base <= from <= i <= n,
            n == s@.len(),
            t == s@.skip(base as int),
            digits_end(t, from - base) == digits_end(t, i - base),
        decreases n - i,
    {
        let c = s.get_char(i);
        assert(t[i - base] == c);
        if !('0' <= c && c <= '9') {
            return i;
        }
        i += 1;
    }
    i
}

fn spells_word(s: &str, base: usize, a: char, b: char, c: char) -> (r: bool)
    requires
        base <= s@.len(),
    ensures
        r == spells(s@.skip(base as int), seq![a, b, c]),
{
    let n = s.unicode_len();
    let ghost t = s@.skip(base as int);
    if n - base != 3 {
        return false;
    }
    let x = s.get_char(base);
    let y = s.get_char(base + 1);
    let z = s.get_char(base + 2);
    assert(t[0] == x && t[1] == y && t[2] == z);
    let ghost w = seq![a, b, c];
    assert(w[0] == a && w[1] == b && w[2] == c);
    char_is_letter(x, a) && char_is_letter(y, b) && char_is_letter(z, c)
}

fn spells_infinity(s: &str, base: usize) -> (r: bool)
    requires
        base <= s@.len(),
    ensures
        r == spells(s@.skip(base as int), word_infinity()),
{
    let n = s.unicode_len();
    let ghost t = s@.skip(base as int);
    let ghost w = word_infinity();
    if n - base != 8 {
        return false;
    }
    let c0 = s.get_char(base);
    let c1 = s.get_char(base + 1);
    let c2 = s.get_char(base + 2);
    let c3 = s.get_char(base + 3);
    let c4 = s.get_char(base + 4);
    let c5 = s.get_char(base + 5);
    let c6 = s.get_char(base + 6);
    let c7 = s.get_char(base + 7);
    assert(t[0] == c0 && t[1] == c1 && t[2] == c2 && t[3] == c3);
    assert(t[4] == c4 && t[5] == c5 && t[6] == c6 && t[7] == c7);
    assert(w[0] == 'i' && w[1] == 'n' && w[2] == 'f' && w[3] == 'i');
    assert(w[4] == 'n' && w[5] == 'i' && w[6] == 't' && w[7] == 'y');
    char_is_letter(c0, 'i') && char_is_letter(c1, 'n') && char_is_letter(c2, 'f')
        && char_is_letter(c3, 'i') && char_is_letter(c4, 'n') && char_is_letter(c5, 'i')
        && char_is_letter(c6, 't') && char_is_letter(c7, 'y')
}

fn decimal_number_at(s: &str, base: usize) -> (r: bool)
    requires
        base <= s@.len(),
    ensures
        r == is_decimal_number(s@.skip(base as int)),
{
    let n = s.unicode_len();
    let ghost t = s@.skip(base as int);
    let i = scan_digits(s, base, base);
    let mut j = i;
    let mut mantissa_digits = i - base;
    if i < n {
        let c = s.get_char(i);
        assert(t[i - base] == c);
        if c == '.' {
            j = scan_digits(s, base, i + 1);
            mantissa_digits = j - base - 1;
        }
    }
    if mantissa_digits < 1 {
        return false;
    }
    if j == n {
        return true;
    }
    let e = s.get_char(j);
    assert(t[j - base] == e);
    if !char_is_letter(e, 'e') {
        return false;
    }
    let mut k = j + 1;
    if k < n {
        let g = s.get_char(k);
        assert(t[k - base] == g);
        if g == '+' || g == '-' {
            k = k + 1;
        }
    }
    if k >= n {
        return false;
    }
    let end = scan_digits(s, base, k);
    end == n
}

/// Whether `s` is a literal of a floating-point number.
pub fn is_float(s: &str) -> (r: bool)
    ensures
        r == is_float_literal(s@),
{
    let n = s.unicode_len();
    let mut base: usize = 0;
    if n > 0 {
        let c = s.get_char(0);
        if c == '+' || c == '-' {
            base = 1;
        }
    }
    assert(s@.skip(0) =~= s@);
    spells_word(s, base, 'i', 'n', 'f') || spells_infinity(s, base) || spells_word(
        s,
        base,
        'n',
        'a',
        'n',
    ) || decimal_number_at(s, base)
}

/// White space, as `char::is_whitespace` has it.
pub open spec fn is_space(c: char) -> bool {
    ('\u{9}' <= c && c <= '\u{d}') || c == ' ' || c == '\u{85}' || c == '\u{a0}' || c
        == '\u{1680}' || ('\u{2000}' <= c && c <= '\u{200a}') || c == '\u{2028}' || c == '\u{2029}'
        || c == '\u{202f}' || c == '\u{205f}' || c == '\u{3000}'
}

/// The sign of a zone offset: `+`, `-`, or the minus sign U+2212.
pub open spec fn is_offset_sign(c: char) -> bool {
    c == '+' || c == '-' || c == '\u{2212}'
}

/// The length of a text without the white space at its end.
pub open spec fn trimmed_len(s: Seq<char>) -> int
    decreases s.len(),
{
    if s.len() > 0 && is_space(s.last()) {
        trimmed_len(s.drop_last())
    } else {
        s.len() as int
    }
}

/// The start of the run of colons and white space that ends before
/// position `end`.
pub open spec fn separators_start(s: Seq<char>, end: int) -> int
    decreases end,
{
    if 0 < end <= s.len() && (s[end - 1] == ':' || is_space(s[end - 1])) {
        separators_start(s, end - 1)
    } else {
        end
    }
}

/// Whether a date-time text ends in a zone designator, white space
/// after it aside: `Z` or `UTC` in any case, or an offset, which is a
/// sign, two digits for the hours, any colons and white space, and two
/// digits for the minutes.
pub open spec fn has_zone_designator(s: Seq<char>) -> bool {
    let n = trimmed_len(s);
    let k = separators_start(s, n - 2);
    ||| n >= 1 && is_letter(s[n - 1], 'z')
    ||| n >= 3 && is_letter(s[n - 3], 'u') && is_letter(s[n - 2], 't') && is_letter(s[n - 1], 'c')
    ||| n >= 2 && is_digit(s[n - 1]) && is_digit(s[n - 2]) && k >= 3 && is_digit(s[k - 1])
        && is_digit(s[k - 2]) && is_offset_sign(s[k - 3])
}

fn char_is_digit(c: char) -> (r: bool)
    ensures
        r == is_digit(c),
{
    '0' <= c && c <= '9'
}

fn char_is_space(c: char) -> (r: bool)
    ensures
        r == is_space(c),
{
    ('\u{9}' <= c && c <= '\u{d}') || c == ' ' || c == '\u{85}' || c == '\u{a0}' || c
        == '\u{1680}' || ('\u{2000}' <= c && c <= '\u{200a}') || c == '\u{2028}' || c == '\u{2029}'
        || c == '\u{202f}' || c == '\u{205f}' || c == '\u{3000}'
}

fn length_trimmed(s: &str) -> (n: usize)
    ensures
        n == trimmed_len(s@),
        n <= s@.len(),
{
    let mut n = s.unicode_len();
    assert(s@.take(n as int) =~= s@);
    while n > 0
        invariant
            n <= s@.len(),
            trimmed_len(s@) == trimmed_len(s@.take(n as int)),
        decreases n,
    {
        let c = s.get_char(n - 1);
        assert(s@.take(n as int).last() == c);
        if !char_is_space(c) {
            return n;
        }
        assert(s@.take(n as int).drop_last() =~= s@.take(n - 1));
        n -= 1;
    }
    n
}

fn start_of_separators(s: &str, end: usize) -> (k: usize)
    requires
        end <= s@.len(),
    ensures
        k == separators_start(s@, end as int),
        k <= end,
{
    let mut k = end;
    while k > 0
        invariant
            k <= end <= s@.len(),
            separators_start(s@, end as int) == separators_start(s@, k as int),
        decreases k,
    {
        let c = s.get_char(k - 1);
        if !(c == ':' || char_is_space(c)) {
            return k;
        }
        k -= 1;
    }
    k
}

/// Whether `s` ends in a zone designator.
pub fn ends_in_zone(s: &str) -> (r: bool)
    ensures
        r == has_zone_designator(s@),
{
    let n = length_trimmed(s);
    if n >= 1 && char_is_letter(s.get_char(n - 1), 'z') {
        return true;
    }
    if n >= 3 && char_is_letter(s.get_char(n - 3), 'u') && char_is_letter(s.get_char(n - 2), 't')
        && char_is_letter(s.get_char(n - 1), 'c') {
        return true;
    }
    if n < 2 {
        return false;
    }
    if !(char_is_digit(s.get_char(n - 1)) && char_is_digit(s.get_char(n - 2))) {
        return false;
    }
    let k = start_of_separators(s, n - 2);
    if k < 3 {
        return false;
    }
    let sign = s.get_char(k - 3);
    char_is_digit(s.get_char(k - 1)) && char_is_digit(s.get_char(k - 2)) && (sign == '+' || sign
        == '-' || sign == '\u{2212}')
}

} // verus!
