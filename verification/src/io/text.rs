//! Lines, tokens and number literals: the lexical layer under the decoders.
//!
//! A file is a sequence of bytes. A line runs up to and including the next
//! line feed; where it is UTF-8, it is cut into tokens: white space is taken
//! off both ends, and what is left is split at every single blank, tab and
//! carriage return. Two separators in a row enclose an empty token, and a
//! line of white space alone holds one empty token.

use vstd::prelude::*;
use vstd::utf8::*;

verus! {

/// The characters with the Unicode property `White_Space`.
pub open spec fn is_space(c: char) -> bool {
    ||| ('\u{9}' <= c && c <= '\u{d}')
    ||| c == ' '
    ||| c == '\u{85}'
    ||| c == '\u{a0}'
    ||| c == '\u{1680}'
    ||| ('\u{2000}' <= c && c <= '\u{200a}')
    ||| c == '\u{2028}'
    ||| c == '\u{2029}'
    ||| c == '\u{202f}'
    ||| c == '\u{205f}'
    ||| c == '\u{3000}'
}

/// The characters at which a trimmed line is split.
pub open spec fn is_separator(c: char) -> bool {
    c == ' ' || c == '\t' || c == '\r'
}

/// How many characters of white space `s` begins with.
pub open spec fn leading_space(s: Seq<char>) -> nat
    decreases s.len(),
{
    if s.len() > 0 && is_space(s[0]) {
        1 + leading_space(s.skip(1))
    } else {
        0
    }
}

/// How many characters of white space `s` ends with.
pub open spec fn trailing_space(s: Seq<char>) -> nat
    decreases s.len(),
{
    if s.len() > 0 && is_space(s.last()) {
        1 + trailing_space(s.drop_last())
    } else {
        0
    }
}

/// `s` without the white space at its ends.
pub open spec fn trimmed(s: Seq<char>) -> Seq<char> {
    let t = s.skip(leading_space(s) as int);
    t.take(t.len() - trailing_space(t))
}

/// The index of the first separator in `s`, or its length where it has none.
pub open spec fn first_separator(s: Seq<char>) -> nat
    decreases s.len(),
{
    if s.len() == 0 || is_separator(s[0]) {
        0
    } else {
        1 + first_separator(s.skip(1))
    }
}

/// The pieces between the separators of `s`: one more than it has separators.
pub open spec fn split(s: Seq<char>) -> Seq<Seq<char>>
    decreases s.len(),
{
    let k = first_separator(s) as int;
    if k >= s.len() {
        seq![s]
    } else {
        seq![s.take(k)] + split(s.skip(k + 1))
    }
}

/// The tokens of a line.
pub open spec fn tokens(line: Seq<char>) -> Seq<Seq<char>> {
    split(trimmed(line))
}

/// Whether a line is a comment: it begins with `#`.
pub open spec fn is_comment(line: Seq<char>) -> bool {
    line.len() > 0 && line[0] == '#'
}

/// Whether a line is empty: it holds nothing, or white space alone.
pub open spec fn is_blank(line: Seq<char>) -> bool {
    trimmed(line).len() == 0
}

/// Where the line that starts at `start` ends: just behind the next line
/// feed, or at the end of the data.
pub open spec fn line_end(data: Seq<u8>, start: int) -> int
    decreases data.len() - start,
{
    if start < 0 || start >= data.len() {
        data.len() as int
    } else if data[start] == 10u8 {
        start + 1
    } else {
        line_end(data, start + 1)
    }
}

/// The text of the line that starts at `start`, where it is valid UTF-8.
pub open spec fn line_text(data: Seq<u8>, start: int) -> Option<Seq<char>> {
    let bytes = data.subrange(start, line_end(data, start));
    if valid_utf8(bytes) {
        Some(decode_utf8(bytes))
    } else {
        None
    }
}

/// The ten decimal digits.
pub open spec fn is_digit(c: char) -> bool {
    '0' <= c && c <= '9'
}

/// The number that a digit writes.
pub open spec fn digit_value(c: char) -> nat {
    (c as u32 - '0' as u32) as nat
}

/// Whether `s` is one or more decimal digits.
pub open spec fn is_decimal(s: Seq<char>) -> bool {
    s.len() > 0 && forall|i: int| 0 <= i < s.len() ==> is_digit(#[trigger] s[i])
}

/// The number that the digits of `s` write.
pub open spec fn decimal_value(s: Seq<char>) -> nat
    decreases s.len(),
{
    if s.len() == 0 {
        0
    } else {
        10 * decimal_value(s.drop_last()) + digit_value(s.last())
    }
}

/// Whether `s` begins with `+` or `-`.
pub open spec fn has_sign(s: Seq<char>) -> bool {
    s.len() > 0 && (s[0] == '+' || s[0] == '-')
}

/// The unsigned integer that `s` writes: digits behind an optional `+`,
/// with a value of at most `max`.
pub open spec fn unsigned_literal(s: Seq<char>, max: nat) -> Option<nat> {
    let digits = if s.len() > 0 && s[0] == '+' {
        s.skip(1)
    } else {
        s
    };
    if is_decimal(digits) && decimal_value(digits) <= max {
        Some(decimal_value(digits))
    } else {
        None
    }
}

/// The signed integer that `s` writes: digits behind an optional `+` or
/// `-`, with a value from `min` to `max`.
pub open spec fn signed_literal(s: Seq<char>, min: int, max: int) -> Option<int> {
    let digits = if has_sign(s) {
        s.skip(1)
    } else {
        s
    };
    let value = if s.len() > 0 && s[0] == '-' {
        -(decimal_value(digits) as int)
    } else {
        decimal_value(digits) as int
    };
    if is_decimal(digits) && min <= value <= max {
        Some(value)
    } else {
        None
    }
}

/// How many digits `s` begins with.
pub open spec fn leading_digits(s: Seq<char>) -> nat
    decreases s.len(),
{
    if s.len() > 0 && is_digit(s[0]) {
        1 + leading_digits(s.skip(1))
    } else {
        0
    }
}

/// Whether `c` is the small letter `w`, or its capital.
pub open spec fn is_letter(c: char, w: char) -> bool {
    c == w || ('A' <= c && c <= 'Z' && c as u32 + 32 == w as u32)
}

/// Whether `s` is `word`, a word in small letters, but for the case of its
/// letters.
pub open spec fn is_word(s: Seq<char>, word: Seq<char>) -> bool {
    s.len() == word.len() && forall|i: int|
        0 <= i < s.len() ==> is_letter(#[trigger] s[i], word[i])
}

/// Whether `s` is an exponent's value: digits behind an optional sign.
pub open spec fn is_exponent(s: Seq<char>) -> bool {
    is_decimal(
        if has_sign(s) {
            s.skip(1)
        } else {
            s
        },
    )
}

/// Whether `s` is a decimal number: digits with at most one point among or
/// beside them, at least one digit in all, and then an optional `e` or `E`
/// with an exponent.
pub open spec fn is_number(s: Seq<char>) -> bool {
    let whole = leading_digits(s);
    let rest = s.skip(whole as int);
    let pointed = rest.len() > 0 && rest[0] == '.';
    let behind = if pointed {
        rest.skip(1)
    } else {
        rest
    };
    let fraction = if pointed {
        leading_digits(behind)
    } else {
        0
    };
    let tail = behind.skip(fraction as int);
    &&& whole + fraction > 0
    &&& tail.len() > 0 ==> (tail[0] == 'e' || tail[0] == 'E') && is_exponent(tail.skip(1))
}

/// Whether `s` is a floating-point literal: behind an optional sign, a
/// decimal number or one of the words `inf`, `infinity` and `nan`.
pub open spec fn is_float_literal(s: Seq<char>) -> bool {
    let body = if has_sign(s) {
        s.skip(1)
    } else {
        s
    };
    ||| is_number(body)
    ||| is_word(body, seq!['i', 'n', 'f'])
    ||| is_word(body, seq!['n', 'a', 'n'])
    ||| is_word(body, seq!['i', 'n', 'f', 'i', 'n', 'i', 't', 'y'])
}

/// One decimal digit as text.
pub open spec fn digit_text(d: nat) -> Seq<char> {
    seq![(d + 48) as u8 as char]
}

/// A number in decimal notation, without leading zeros.
pub open spec fn decimal_text(n: nat) -> Seq<char>
    decreases n,
{
    if n < 10 {
        digit_text(n)
    } else {
        decimal_text(n / 10) + digit_text(n % 10)
    }
}

/// A line ends behind where it starts, and within the data.
pub proof fn lemma_line_end(data: Seq<u8>, start: int)
    requires
        0 <= start < data.len(),
    ensures
        start < line_end(data, start) <= data.len(),
    decreases data.len() - start,
{
    if data[start] != 10u8 {
        if start + 1 < data.len() {
            lemma_line_end(data, start + 1);
        } else {
            assert(line_end(data, start + 1) == data.len());
        }
    }
}

/// A number with its sign in decimal notation: `-` before what is below
/// zero.
pub open spec fn signed_text(v: int) -> Seq<char> {
    if v < 0 {
        "-"@ + decimal_text((-v) as nat)
    } else {
        decimal_text(v as nat)
    }
}

proof fn lemma_leading_space(s: Seq<char>, a: int)
    requires
        0 <= a <= s.len(),
        forall|j: int| 0 <= j < a ==> is_space(#[trigger] s[j]),
        a == s.len() || !is_space(s[a]),
    ensures
        leading_space(s) == a,
    decreases a,
{
    if a > 0 {
        lemma_leading_space(s.skip(1), a - 1);
    }
}

proof fn lemma_trailing_space(s: Seq<char>, k: int)
    requires
        0 <= k <= s.len(),
        forall|j: int| s.len() - k <= j < s.len() ==> is_space(#[trigger] s[j]),
        k == s.len() || !is_space(s[s.len() - k - 1]),
    ensures
        trailing_space(s) == k,
    decreases k,
{
    if k > 0 {
        lemma_trailing_space(s.drop_last(), k - 1);
    }
}

proof fn lemma_first_separator(s: Seq<char>, k: int)
    requires
        0 <= k <= s.len(),
        forall|j: int| 0 <= j < k ==> !is_separator(#[trigger] s[j]),
        k == s.len() || is_separator(s[k]),
    ensures
        first_separator(s) == k,
    decreases k,
{
    if k > 0 {
        lemma_first_separator(s.skip(1), k - 1);
    }
}

proof fn lemma_leading_digits(s: Seq<char>, k: int)
    requires
        0 <= k <= s.len(),
        forall|j: int| 0 <= j < k ==> is_digit(#[trigger] s[j]),
        k == s.len() || !is_digit(s[k]),
    ensures
        leading_digits(s) == k,
    decreases k,
{
    if k > 0 {
        lemma_leading_digits(s.skip(1), k - 1);
    }
}

/// Whether a character is white space.
pub fn is_space_char(c: char) -> (r: bool)
    ensures
        r == is_space(c),
{
    (c >= '\u{9}' && c <= '\u{d}') || c == ' ' || c == '\u{85}' || c == '\u{a0}' || c
        == '\u{1680}' || (c >= '\u{2000}' && c <= '\u{200a}') || c == '\u{2028}' || c
        == '\u{2029}' || c == '\u{202f}' || c == '\u{205f}' || c == '\u{3000}'
}

/// Whether a character is one at which a line is split.
pub fn is_separator_char(c: char) -> (r: bool)
    ensures
        r == is_separator(c),
{
    c == ' ' || c == '\t' || c == '\r'
}

/// Whether a character is a decimal digit.
pub fn is_digit_char(c: char) -> (r: bool)
    ensures
        r == is_digit(c),
{
    c >= '0' && c <= '9'
}

/// The characters of a text, one by one.
pub fn chars_of(s: &str) -> (r: Vec<char>)
    ensures
        r@ == s@,
{
    let mut out: Vec<char> = Vec::new();
    for c in it: s.chars()
        invariant
            out@ == it.seq().take(it.index() as int),
            it.seq() == s@,
    {
        out.push(c);
    }
    out
}

/// `core::str::from_utf8`: the text that the bytes encode. It is there
/// exactly where the bytes are valid UTF-8, and then holds the characters
/// that they decode to.
#[verifier::external_body]
pub(crate) fn utf8_text(bytes: &[u8]) -> (r: Option<&str>)
    ensures
        r is Some <==> valid_utf8(bytes@),
        r matches Some(s) ==> s@ == decode_utf8(bytes@),
{
    match core::str::from_utf8(bytes) {
        Ok(s) => Some(s),
        Err(_) => None,
    }
}

/// The end of the line that starts at `start`.
pub fn next_line(data: &[u8], start: usize) -> (end: usize)
    requires
        start <= data@.len(),
    ensures
        end == line_end(data@, start as int),
        start <= end <= data@.len(),
        start < data@.len() ==> start < end,
{
    let mut i: usize = start;
    while i < data.len() && data[i] != 10u8
        invariant
            start <= i <= data@.len(),
            line_end(data@, i as int) == line_end(data@, start as int),
        decreases data@.len() - i,
    {
        i += 1;
    }
    if i < data.len() {
        i + 1
    } else {
        i
    }
}

/// The text of the line from `start` to `end`, where it is valid UTF-8.
pub fn read_line(data: &[u8], start: usize, end: usize) -> (r: Option<&str>)
    requires
        start <= end <= data@.len(),
        end == line_end(data@, start as int),
    ensures
        r is Some == line_text(data@, start as int) is Some,
        r matches Some(s) ==> Some(s@) == line_text(data@, start as int),
{
    let bytes = vstd::slice::slice_subrange(data, start, end);
    utf8_text(bytes)
}

/// White space at the end of `s` stops before a character that is none.
proof fn lemma_trailing_space_bound(s: Seq<char>, j: int)
    requires
        0 <= j < s.len(),
        !is_space(s[j]),
    ensures
        trailing_space(s) <= s.len() - 1 - j,
    decreases s.len(),
{
    if is_space(s.last()) {
        lemma_trailing_space_bound(s.drop_last(), j);
    }
}

/// Whether a line is empty: it holds nothing, or white space alone.
pub fn is_blank_line(line: &str) -> (r: bool)
    ensures
        r == is_blank(line@),
{
    let cs = chars_of(line);
    let n = cs.len();
    let mut a: usize = 0;
    while a < n && is_space_char(cs[a])
        invariant
            a <= n,
            n == cs@.len(),
            forall|j: int| 0 <= j < a ==> is_space(#[trigger] cs@[j]),
        decreases n - a,
    {
        a += 1;
    }
    proof {
        lemma_leading_space(cs@, a as int);
        let t = cs@.skip(a as int);
        if a < n {
            assert(t[0] == cs@[a as int]);
            lemma_trailing_space_bound(t, 0);
        }
    }
    a == n
}

/// Whether a line begins with `#`.
pub fn starts_comment(line: &str) -> (r: bool)
    ensures
        r == is_comment(line@),
{
    let n = line.unicode_len();
    n > 0 && line.get_char(0) == '#'
}

/// Cuts a line into its tokens.
pub fn split_tokens(line: &str) -> (r: Vec<String>)
    ensures
        r.deep_view() == tokens(line@),
        r@.len() >= 1,
{
    let cs = chars_of(line);
    let n = cs.len();
    let mut a: usize = 0;
    while a < n && is_space_char(cs[a])
        invariant
            a <= n,
            n == cs@.len(),
            forall|j: int| 0 <= j < a ==> is_space(#[trigger] cs@[j]),
        decreases n - a,
    {
        a += 1;
    }
    let mut b: usize = n;
    while b > a && is_space_char(cs[b - 1])
        invariant
            a <= b <= n,
            n == cs@.len(),
            forall|j: int| b <= j < n ==> is_space(#[trigger] cs@[j]),
        decreases b,
    {
        b -= 1;
    }
    let ghost body = cs@.subrange(a as int, b as int);
    proof {
        lemma_leading_space(cs@, a as int);
        let t = cs@.skip(a as int);
        assert forall|j: int| t.len() - (n - b) <= j < t.len() implies is_space(
            #[trigger] t[j],
        ) by {
            assert(t[j] == cs@[j + a]);
        }
        lemma_trailing_space(t, n - b);
        assert(trimmed(cs@) =~= body);
    }
    let mut out: Vec<String> = Vec::new();
    let mut t: usize = a;
    let mut i: usize = a;
    while i < b
        invariant
            a <= t <= i <= b <= n,
            n == cs@.len(),
            cs@ == line@,
            body == cs@.subrange(a as int, b as int),
            forall|j: int| t <= j < i ==> !is_separator(#[trigger] cs@[j]),
            split(body) == out.deep_view() + split(cs@.subrange(t as int, b as int)),
        decreases b - i,
    {
        if is_separator_char(cs[i]) {
            let ghost before = out.deep_view();
            let ghost rest = cs@.subrange(t as int, b as int);
            let piece = line.substring_char(t, i).to_owned();
            out.push(piece);
            proof {
                assert forall|j: int| 0 <= j < i - t implies !is_separator(#[trigger] rest[j]) by {
                    assert(rest[j] == cs@[j + t]);
                }
                lemma_first_separator(rest, i - t);
                assert(rest.take(i - t) =~= cs@.subrange(t as int, i as int));
                assert(rest.skip(i - t + 1) =~= cs@.subrange(i + 1, b as int));
                assert(out.deep_view() =~= before.push(piece@));
                assert(before + (seq![piece@] + split(cs@.subrange(i + 1, b as int)))
                    =~= before.push(piece@) + split(cs@.subrange(i + 1, b as int)));
            }
            t = i + 1;
        }
        i += 1;
    }
    let ghost before = out.deep_view();
    let ghost rest = cs@.subrange(t as int, b as int);
    let piece = line.substring_char(t, b).to_owned();
    out.push(piece);
    proof {
        assert forall|j: int| 0 <= j < b - t implies !is_separator(#[trigger] rest[j]) by {
            assert(rest[j] == cs@[j + t]);
        }
        lemma_first_separator(rest, b - t);
        assert(out.deep_view() =~= before.push(piece@));
        assert(before + seq![rest] =~= before.push(rest));
    }
    out
}

/// Reads digits from `from` on as a number of at most `max`.
fn read_decimal(cs: &Vec<char>, from: usize, max: u64) -> (r: Option<u64>)
    requires
        from <= cs@.len(),
    ensures
        r is Some <==> is_decimal(cs@.skip(from as int)) && decimal_value(cs@.skip(from as int))
            <= max,
        r matches Some(v) ==> v == decimal_value(cs@.skip(from as int)),
{
    let n = cs.len();
    let ghost digits = cs@.skip(from as int);
    if from >= n {
        return None;
    }
    let mut value: u64 = 0;
    let mut over = false;
    let mut i: usize = from;
    while i < n
        invariant
            from <= i <= n,
            n == cs@.len(),
            digits == cs@.skip(from as int),
            forall|j: int| 0 <= j < i - from ==> is_digit(#[trigger] digits[j]),
            !over ==> value == decimal_value(digits.take(i - from)) && value <= max,
            over ==> decimal_value(digits.take(i - from)) > max,
        decreases n - i,
    {
        let c = cs[i];
        if !is_digit_char(c) {
            proof {
                assert(digits[i - from] == c);
            }
            return None;
        }
        let d: u64 = (c as u32 - '0' as u32) as u64;
        proof {
            let next = digits.take(i - from + 1);
            assert(next.drop_last() =~= digits.take(i - from));
            assert(next.last() == c);
            assert(decimal_value(next) == 10 * decimal_value(digits.take(i - from)) + d);
        }
        if !over {
            if d > max || value > (max - d) / 10 {
                over = true;
            } else {
                value = value * 10 + d;
            }
        }
        i += 1;
    }
    proof {
        assert(digits.take(n - from) =~= digits);
    }
    if over {
        None
    } else {
        Some(value)
    }
}

/// Reads a token as an unsigned integer of at most `max`.
pub fn parse_unsigned(s: &str, max: u64) -> (r: Option<u64>)
    ensures
        r is Some == unsigned_literal(s@, max as nat) is Some,
        r matches Some(v) ==> Some(v as nat) == unsigned_literal(s@, max as nat),
{
    let cs = chars_of(s);
    let from: usize = if cs.len() > 0 && cs[0] == '+' {
        1
    } else {
        0
    };
    proof {
        assert(cs@.skip(0) =~= cs@);
    }
    read_decimal(&cs, from, max)
}

/// Reads a token as a signed integer from `min` to `max`.
pub fn parse_signed(s: &str, min: i64, max: i64) -> (r: Option<i64>)
    ensures
        r is Some == signed_literal(s@, min as int, max as int) is Some,
        r matches Some(v) ==> Some(v as int) == signed_literal(s@, min as int, max as int),
{
    let cs = chars_of(s);
    let negative = cs.len() > 0 && cs[0] == '-';
    let from: usize = if cs.len() > 0 && (cs[0] == '+' || cs[0] == '-') {
        1
    } else {
        0
    };
    proof {
        assert(cs@.skip(0) =~= cs@);
    }
    let value: i64 = if negative {
        match read_decimal(&cs, from, 0x8000_0000_0000_0000u64) {
            Some(v) => {
                if v == 0x8000_0000_0000_0000u64 {
                    i64::MIN
                } else {
                    -(v as i64)
                }
            },
            None => {
                return None;
            },
        }
    } else {
        match read_decimal(&cs, from, 0x7fff_ffff_ffff_ffffu64) {
            Some(v) => v as i64,
            None => {
                return None;
            },
        }
    };
    if min <= value && value <= max {
        Some(value)
    } else {
        None
    }
}

/// How many digits stand at `from`.
fn count_digits(cs: &Vec<char>, from: usize) -> (k: usize)
    requires
        from <= cs@.len(),
    ensures
        k == leading_digits(cs@.skip(from as int)),
        from + k <= cs@.len(),
{
    let n = cs.len();
    let mut i: usize = from;
    while i < n && is_digit_char(cs[i])
        invariant
            from <= i <= n,
            n == cs@.len(),
            forall|j: int| from <= j < i ==> is_digit(#[trigger] cs@[j]),
        decreases n - i,
    {
        i += 1;
    }
    proof {
        let s = cs@.skip(from as int);
        assert forall|j: int| 0 <= j < i - from implies is_digit(#[trigger] s[j]) by {
            assert(s[j] == cs@[j + from]);
        }
        lemma_leading_digits(s, i - from);
    }
    i - from
}

/// Whether the characters from `from` on are digits, and at least one.
fn all_digits(cs: &Vec<char>, from: usize) -> (r: bool)
    requires
        from <= cs@.len(),
    ensures
        r == is_decimal(cs@.skip(from as int)),
{
    let k = count_digits(cs, from);
    proof {
        let s = cs@.skip(from as int);
        lemma_digits_all(s);
    }
    k > 0 && k == cs.len() - from
}

proof fn lemma_digits_all(s: Seq<char>)
    ensures
        leading_digits(s) <= s.len(),
        forall|j: int| 0 <= j < leading_digits(s) ==> is_digit(#[trigger] s[j]),
        leading_digits(s) < s.len() ==> !is_digit(s[leading_digits(s) as int]),
    decreases s.len(),
{
    if s.len() > 0 && is_digit(s[0]) {
        let t = s.skip(1);
        lemma_digits_all(t);
        assert forall|j: int| 0 <= j < leading_digits(s) implies is_digit(#[trigger] s[j]) by {
            if j > 0 {
                assert(s[j] == t[j - 1]);
            }
        }
        if leading_digits(s) < s.len() {
            assert(s[leading_digits(s) as int] == t[leading_digits(t) as int]);
        }
    }
}

/// Whether the characters from `from` on are `word`, but for their case.
fn matches_word(cs: &Vec<char>, from: usize, word: &str) -> (r: bool)
    requires
        from <= cs@.len(),
    ensures
        r == is_word(cs@.skip(from as int), word@),
{
    let w = chars_of(word);
    let n = cs.len();
    if n - from != w.len() {
        return false;
    }
    let ghost s = cs@.skip(from as int);
    let mut i: usize = 0;
    while i < w.len()
        invariant
            i <= w@.len(),
            from <= n,
            n == cs@.len(),
            n - from == w@.len(),
            s == cs@.skip(from as int),
            w@ == word@,
            forall|j: int| 0 <= j < i ==> is_letter(#[trigger] s[j], w@[j]),
        decreases w@.len() - i,
    {
        let c = cs[from + i];
        let wanted = w[i];
        let same = c == wanted || (c >= 'A' && c <= 'Z' && c as u32 + 32 == wanted as u32);
        proof {
            assert(s[i as int] == c);
        }
        if !same {
            return false;
        }
        i += 1;
    }
    true
}

/// Whether the characters from `from` on are an exponent's value.
fn exponent_at(cs: &Vec<char>, from: usize) -> (r: bool)
    requires
        from <= cs@.len(),
    ensures
        r == is_exponent(cs@.skip(from as int)),
{
    let n = cs.len();
    let signed = from < n && (cs[from] == '+' || cs[from] == '-');
    proof {
        if from < n {
            assert(cs@.skip(from as int).skip(1) =~= cs@.skip(from + 1));
        }
    }
    if signed {
        all_digits(cs, from + 1)
    } else {
        all_digits(cs, from)
    }
}

/// Whether the characters from `from` on are a decimal number.
fn number_at(cs: &Vec<char>, from: usize) -> (r: bool)
    requires
        from <= cs@.len(),
    ensures
        r == is_number(cs@.skip(from as int)),
{
    let n = cs.len();
    let ghost s = cs@.skip(from as int);
    let whole = count_digits(cs, from);
    let dot: usize = from + whole;
    let pointed = dot < n && cs[dot] == '.';
    let ghost rest = s.skip(whole as int);
    proof {
        assert(rest =~= cs@.skip(dot as int));
    }
    let start: usize = if pointed {
        dot + 1
    } else {
        dot
    };
    let ghost behind = if pointed {
        rest.skip(1)
    } else {
        rest
    };
    proof {
        assert(behind =~= cs@.skip(start as int));
    }
    let fraction: usize = if pointed {
        count_digits(cs, start)
    } else {
        0
    };
    let at: usize = start + fraction;
    let ghost tail = behind.skip(fraction as int);
    proof {
        assert(tail =~= cs@.skip(at as int));
        if at < n {
            assert(tail.skip(1) =~= cs@.skip(at + 1));
        }
    }
    if whole + fraction == 0 {
        false
    } else if at == n {
        true
    } else if cs[at] != 'e' && cs[at] != 'E' {
        false
    } else {
        exponent_at(cs, at + 1)
    }
}

/// Reads a token as a number that a `usize` holds.
pub fn parse_usize(tok: &str) -> (r: Option<usize>)
    ensures
        r is Some == unsigned_literal(tok@, usize::MAX as nat) is Some,
        r matches Some(n) ==> Some(n as nat) == unsigned_literal(tok@, usize::MAX as nat),
{
    match parse_unsigned(tok, usize::MAX as u64) {
        Some(v) => Some(v as usize),
        None => None,
    }
}

/// Whether a token is a floating-point literal.
pub fn is_float_text(s: &str) -> (r: bool)
    ensures
        r == is_float_literal(s@),
{
    let cs = chars_of(s);
    let n = cs.len();
    let from: usize = if n > 0 && (cs[0] == '+' || cs[0] == '-') {
        1
    } else {
        0
    };
    proof {
        assert(cs@.skip(0) =~= cs@);
        reveal_strlit("inf");
        reveal_strlit("nan");
        reveal_strlit("infinity");
        assert("inf"@ =~= seq!['i', 'n', 'f']);
        assert("nan"@ =~= seq!['n', 'a', 'n']);
        assert("infinity"@ =~= seq!['i', 'n', 'f', 'i', 'n', 'i', 't', 'y']);
    }
    number_at(&cs, from) || matches_word(&cs, from, "inf") || matches_word(&cs, from, "nan")
        || matches_word(&cs, from, "infinity")
}

/// One decimal digit as text.
fn digit_str(d: usize) -> (r: &'static str)
    requires
        d < 10,
    ensures
        r@ == digit_text(d as nat),
{
    proof {
        reveal_strlit("0");
        reveal_strlit("1");
        reveal_strlit("2");
        reveal_strlit("3");
        reveal_strlit("4");
        reveal_strlit("5");
        reveal_strlit("6");
        reveal_strlit("7");
        reveal_strlit("8");
        reveal_strlit("9");
    }
    let r = if d == 0 {
        "0"
    } else if d == 1 {
        "1"
    } else if d == 2 {
        "2"
    } else if d == 3 {
        "3"
    } else if d == 4 {
        "4"
    } else if d == 5 {
        "5"
    } else if d == 6 {
        "6"
    } else if d == 7 {
        "7"
    } else if d == 8 {
        "8"
    } else {
        "9"
    };
    assert(r@ =~= digit_text(d as nat));
    r
}

/// A number in decimal notation.
pub fn decimal_string_wide(n: u128) -> (r: String)
    ensures
        r@ == decimal_text(n as nat),
    decreases n,
{
    if n < 10 {
        String::from_str(digit_str(n as usize))
    } else {
        decimal_string_wide(n / 10).concat(digit_str((n % 10) as usize))
    }
}

/// A number in decimal notation.
pub fn decimal_string(n: usize) -> (r: String)
    ensures
        r@ == decimal_text(n as nat),
{
    decimal_string_wide(n as u128)
}

/// A number with its sign in decimal notation.
pub fn signed_string(v: i64) -> (r: String)
    ensures
        r@ == signed_text(v as int),
{
    if v < 0 {
        let magnitude: u128 = (-(v as i128)) as u128;
        String::from_str("-").concat(decimal_string_wide(magnitude).as_str())
    } else {
        decimal_string_wide(v as u128)
    }
}

} // verus!
