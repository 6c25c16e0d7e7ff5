//! Text helpers shared by the argument reader and the HTTP engine: equality of
//! string slices, character classes, searching, and decimal numbers.

use vstd::prelude::*;
use vstd::string::*;
use vstd::utf8::*;

verus! {

/// Whether two string slices hold the same characters.
pub fn str_eq(a: &str, b: &str) -> (same: bool)
    ensures
        same == (a@ == b@),
{
    let x = a.as_bytes();
    let y = b.as_bytes();
    proof {
        encode_utf8_decode_utf8(a@);
        encode_utf8_decode_utf8(b@);
    }
    if x.len() != y.len() {
        return false;
    }
    let mut i: usize = 0;
    while i < x.len()
        invariant
            i <= x@.len(),
            x@.len() == y@.len(),
            x@ == a.spec_bytes(),
            y@ == b.spec_bytes(),
            x@.take(i as int) == y@.take(i as int),
        decreases x@.len() - i,
    {
        if x[i] != y[i] {
            assert(x@[i as int] != y@[i as int]);
            return false;
        }
        assert(x@.take(i + 1) == x@.take(i as int).push(x@[i as int]));
        assert(y@.take(i + 1) == y@.take(i as int).push(y@[i as int]));
        i += 1;
    }
    assert(x@ == x@.take(i as int));
    assert(y@ == y@.take(i as int));
    true
}

/// The characters of a string slice, in order.
pub fn chars_of(s: &str) -> (chars: Vec<char>)
    ensures
        chars@ == s@,
{
    let mut chars: Vec<char> = Vec::new();
    for c in it: s.chars()
        invariant
            chars@ == it.seq().take(it.index()),
    {
        chars.push(c);
    }
    chars
}

/// The index of the first `c` in `s`, or the length of `s` where it holds none.
pub open spec fn position(s: Seq<char>, c: char) -> int
    decreases s.len(),
{
    if s.len() == 0 || s[0] == c {
        0
    } else {
        1 + position(s.skip(1), c)
    }
}

/// `position` lies within the sequence, points at a `c` unless it is the
/// length, and nothing before it is a `c`.
pub proof fn lemma_position(s: Seq<char>, c: char)
    ensures
        0 <= position(s, c) <= s.len(),
        position(s, c) < s.len() ==> s[position(s, c)] == c,
        forall|i: int| 0 <= i < position(s, c) ==> s[i] != c,
    decreases s.len(),
{
    if s.len() == 0 || s[0] == c {
    } else {
        let rest = s.skip(1);
        lemma_position(rest, c);
        assert forall|i: int| 0 <= i < position(s, c) implies s[i] != c by {
            if i > 0 {
                assert(s[i] == rest[i - 1]);
            }
        }
    }
}

/// An index with the three properties of `lemma_position` is the position.
pub proof fn lemma_position_unique(s: Seq<char>, c: char, at: int)
    requires
        0 <= at <= s.len(),
        at < s.len() ==> s[at] == c,
        forall|i: int| 0 <= i < at ==> s[i] != c,
    ensures
        position(s, c) == at,
{
    lemma_position(s, c);
    let p = position(s, c);
    if p < at {
        assert(s[p] != c);
    } else if at < p {
        assert(s[at] != c);
    }
}

/// Finds the first `c` in `chars` at or after `from`.
pub fn find_from(chars: &Vec<char>, from: usize, c: char) -> (at: usize)
    requires
        from <= chars.len(),
    ensures
        at == from + position(chars@.skip(from as int), c),
        from <= at <= chars.len(),
{
    let mut at: usize = from;
    while at < chars.len() && chars[at] != c
        invariant
            from <= at <= chars.len(),
            forall|i: int| from <= i < at ==> chars@[i] != c,
        decreases chars.len() - at,
    {
        at += 1;
    }
    proof {
        lemma_position_unique(chars@.skip(from as int), c, at - from);
    }
    at
}

/// `text` cut at its first `mark`: what stands before the mark and, where
/// there is a mark, what stands behind it.
pub open spec fn split_at_first(text: Seq<char>, mark: char) -> (Seq<char>, Option<Seq<char>>) {
    let at = position(text, mark);
    (
        text.take(at),
        if at < text.len() {
            Some(text.skip(at + 1))
        } else {
            None
        },
    )
}

/// The parts of a cut make up the text again, and the first part holds no
/// mark.
pub proof fn lemma_split_at_first(text: Seq<char>, mark: char)
    ensures
        !split_at_first(text, mark).0.contains(mark),
        match split_at_first(text, mark).1 {
            Some(rest) => split_at_first(text, mark).0 + seq![mark] + rest == text,
            None => split_at_first(text, mark).0 == text,
        },
{
    lemma_position(text, mark);
    let at = position(text, mark);
    let head = text.take(at);
    if head.contains(mark) {
        let i = choose|i: int| 0 <= i < head.len() && head[i] == mark;
        assert(text[i] == mark);
    }
    if at < text.len() {
        assert(head + seq![mark] + text.skip(at + 1) =~= text);
    } else {
        assert(head =~= text);
    }
}

/// The characters of an optional string slice.
pub open spec fn optional_view(text: Option<&str>) -> Option<Seq<char>> {
    match text {
        Some(t) => Some(t@),
        None => None,
    }
}

/// Cuts `text` at its first `mark`.
pub fn split_first<'a>(text: &'a str, mark: char) -> (parts: (&'a str, Option<&'a str>))
    ensures
        (parts.0@, optional_view(parts.1)) == split_at_first(text@, mark),
{
    let chars = chars_of(text);
    let at = find_from(&chars, 0, mark);
    assert(chars@.skip(0) == chars@);
    let head = text.substring_char(0, at);
    if at < chars.len() {
        let rest = text.substring_char(at + 1, chars.len());
        assert(rest@ == text@.skip(at + 1));
        (head, Some(rest))
    } else {
        (head, None)
    }
}

/// Whether two optional string slices hold the same characters, or are both
/// absent.
pub fn same_text(a: Option<&str>, b: Option<&str>) -> (same: bool)
    ensures
        same == (optional_view(a) == optional_view(b)),
{
    match (a, b) {
        (Some(x), Some(y)) => str_eq(x, y),
        (None, None) => true,
        _ => false,
    }
}

/// The characters with the Unicode property White_Space.
pub open spec fn is_whitespace(c: char) -> bool {
    let u = c as u32;
    ||| 0x09 <= u <= 0x0d
    ||| u == 0x20
    ||| u == 0x85
    ||| u == 0xa0
    ||| u == 0x1680
    ||| 0x2000 <= u <= 0x200a
    ||| u == 0x2028
    ||| u == 0x2029
    ||| u == 0x202f
    ||| u == 0x205f
    ||| u == 0x3000
}

/// Whether `c` has the Unicode property White_Space.
pub fn whitespace(c: char) -> (r: bool)
    ensures
        r == is_whitespace(c),
{
    let u: u32 = c as u32;
    (0x09 <= u && u <= 0x0d) || u == 0x20 || u == 0x85 || u == 0xa0 || u == 0x1680 || (0x2000 <= u
        && u <= 0x200a) || u == 0x2028 || u == 0x2029 || u == 0x202f || u == 0x205f || u == 0x3000
}

/// The length of `s` without its trailing white space.
pub open spec fn trimmed_len(s: Seq<char>) -> int
    decreases s.len(),
{
    if s.len() > 0 && is_whitespace(s.last()) {
        trimmed_len(s.drop_last())
    } else {
        s.len() as int
    }
}

/// `s` without its trailing white space.
pub open spec fn trim_end(s: Seq<char>) -> Seq<char> {
    s.take(trimmed_len(s))
}

/// Whether every character of `s` is white space.
pub open spec fn all_whitespace(s: Seq<char>) -> bool {
    forall|i: int| 0 <= i < s.len() ==> is_whitespace(#[trigger] s[i])
}

/// White space behind a text that does not end in white space is what
/// `trim_end` takes away.
pub proof fn lemma_trim_end(text: Seq<char>, space: Seq<char>)
    requires
        all_whitespace(space),
        text.len() == 0 || !is_whitespace(text.last()),
    ensures
        trimmed_len(text + space) == text.len(),
        trim_end(text + space) == text,
    decreases space.len(),
{
    let whole = text + space;
    if space.len() == 0 {
        assert(whole =~= text);
    } else {
        assert(whole.last() == space.last());
        assert(whole.drop_last() =~= text + space.drop_last());
        lemma_trim_end(text, space.drop_last());
    }
    assert(whole.take(text.len() as int) =~= text);
}

/// Of the characters `chars[from..to]`, the end of the part that is left when
/// trailing white space is dropped.
pub fn trimmed_end(chars: &Vec<char>, from: usize, to: usize) -> (end: usize)
    requires
        from <= to <= chars.len(),
    ensures
        end == from + trimmed_len(chars@.subrange(from as int, to as int)),
        from <= end <= to,
{
    let mut end: usize = to;
    while end > from && whitespace(chars[end - 1])
        invariant
            from <= end <= to <= chars.len(),
            trimmed_len(chars@.subrange(from as int, to as int)) == trimmed_len(
                chars@.subrange(from as int, end as int),
            ),
        decreases end,
    {
        assert(chars@.subrange(from as int, end as int).drop_last() == chars@.subrange(
            from as int,
            end - 1,
        ));
        end -= 1;
    }
    end
}

/// Whether `s` begins with the characters of `prefix`.
pub open spec fn begins_with(s: Seq<char>, prefix: Seq<char>) -> bool {
    prefix.len() <= s.len() && s.take(prefix.len() as int) == prefix
}

/// Whether the string `s` begins with `prefix`.
pub fn starts_with(s: &str, prefix: &str) -> (r: bool)
    ensures
        r == begins_with(s@, prefix@),
{
    let n = prefix.unicode_len();
    if s.unicode_len() < n {
        return false;
    }
    str_eq(s.substring_char(0, n), prefix)
}

/// Whether `c` is one of the ten ASCII digits.
pub open spec fn is_digit(c: char) -> bool {
    '0' <= c <= '9'
}

/// The value of the ASCII digit `c`.
pub open spec fn digit_value(c: char) -> nat
    recommends
        is_digit(c),
{
    (c as u32 - '0' as u32) as nat
}

/// The value of the ASCII digit `c`, or nothing where `c` is no such digit.
pub fn digit_of(c: char) -> (value: Option<u8>)
    ensures
        value == if is_digit(c) {
            Some(digit_value(c) as u8)
        } else {
            None
        },
{
    if '0' <= c && c <= '9' {
        Some((c as u32 - '0' as u32) as u8)
    } else {
        None
    }
}

/// The digit that stands for `d`, which is below ten.
pub open spec fn digit_char(d: nat) -> char
    recommends
        d < 10,
{
    if d == 0 {
        '0'
    } else if d == 1 {
        '1'
    } else if d == 2 {
        '2'
    } else if d == 3 {
        '3'
    } else if d == 4 {
        '4'
    } else if d == 5 {
        '5'
    } else if d == 6 {
        '6'
    } else if d == 7 {
        '7'
    } else if d == 8 {
        '8'
    } else {
        '9'
    }
}

/// `n` in decimal notation: no sign, no leading zero, `"0"` for zero.
pub open spec fn decimal(n: nat) -> Seq<char>
    decreases n,
{
    if n < 10 {
        seq![digit_char(n)]
    } else {
        decimal(n / 10).push(digit_char(n % 10))
    }
}

fn digit_text(d: u64) -> (text: &'static str)
    requires
        d < 10,
    ensures
        text@ == seq![digit_char(d as nat)],
{
    proof {
        reveal_strlit("0");
        reveal_strlit("1");
        reveal_strlit("2");
        reveal_strlit("3");
        reveal_strlit("4");
        reveal_strlit("5");
        reveal_strlit("6");
        reveal_strlit("7");
        reveal_strlit("8");
        reveal_strlit("9");
    }
    let text = if d == 0 {
        "0"
    } else if d == 1 {
        "1"
    } else if d == 2 {
        "2"
    } else if d == 3 {
        "3"
    } else if d == 4 {
        "4"
    } else if d == 5 {
        "5"
    } else if d == 6 {
        "6"
    } else if d == 7 {
        "7"
    } else if d == 8 {
        "8"
    } else {
        "9"
    };
    assert(text@ =~= seq![digit_char(d as nat)]);
    text
}

/// Writes `n` in decimal notation.
pub fn format_decimal(n: u64) -> (text: String)
    ensures
        text@ == decimal(n as nat),
    decreases n,
{
    if n < 10 {
        String::from_str(digit_text(n))
    } else {
        let mut text = format_decimal(n / 10);
        text.append(digit_text(n % 10));
        assert(text@ =~= decimal(n as nat));
        text
    }
}

/// The number that the digits `s` denote, read from the left.
pub open spec fn digits_value(s: Seq<char>) -> nat
    decreases s.len(),
{
    if s.len() == 0 {
        0
    } else {
        digits_value(s.drop_last()) * 10 + digit_value(s.last())
    }
}

/// Whether every character of `s` is an ASCII digit.
pub open spec fn all_digits(s: Seq<char>) -> bool {
    forall|i: int| 0 <= i < s.len() ==> is_digit(#[trigger] s[i])
}

/// The number that `s` denotes: an optional `+`, then one or more ASCII
/// digits and nothing else. Any other text denotes nothing.
pub open spec fn unsigned_value(s: Seq<char>) -> Option<nat> {
    let digits = if s.len() > 0 && s[0] == '+' {
        s.skip(1)
    } else {
        s
    };
    if digits.len() > 0 && all_digits(digits) {
        Some(digits_value(digits))
    } else {
        None
    }
}

/// A longer run of digits denotes no smaller a number than its beginning.
pub proof fn lemma_digits_value_grows(s: Seq<char>, n: int)
    requires
        0 <= n <= s.len(),
    ensures
        digits_value(s.take(n)) <= digits_value(s),
    decreases s.len() - n,
{
    if n == s.len() {
        assert(s.take(n) == s);
    } else {
        lemma_digits_value_grows(s.drop_last(), n);
        assert(s.drop_last().take(n) == s.take(n));
    }
}

/// What is written in decimal notation is read back as the same number.
pub proof fn lemma_decimal_is_read_back(n: nat)
    ensures
        decimal(n).len() > 0,
        all_digits(decimal(n)),
        digits_value(decimal(n)) == n,
        unsigned_value(decimal(n)) == Some(n),
    decreases n,
{
    let text = decimal(n);
    if n < 10 {
        assert(text.drop_last() =~= Seq::<char>::empty());
        assert(digits_value(text.drop_last()) == 0);
    } else {
        lemma_decimal_is_read_back(n / 10);
        let front = decimal(n / 10);
        assert(text.drop_last() =~= front);
        assert(text.last() == digit_char(n % 10));
        assert forall|i: int| 0 <= i < text.len() implies is_digit(#[trigger] text[i]) by {
            if i < front.len() {
                assert(text[i] == front[i]);
            }
        }
        assert(text[0] == front[0]);
    }
    assert(is_digit(text[0]));
}

/// Reads an unsigned decimal number that fits into 64 bits.
pub fn parse_decimal(text: &str) -> (value: Option<u64>)
    ensures
        value == match unsigned_value(text@) {
            Some(n) => if n <= u64::MAX {
                Some(n as u64)
            } else {
                None
            },
            None => None,
        },
{
    let chars = chars_of(text);
    let start: usize = if chars.len() > 0 && chars[0] == '+' {
        1
    } else {
        0
    };
    if start == chars.len() {
        return None;
    }
    let ghost digits = chars@.skip(start as int);
    let mut value: u64 = 0;
    let mut i: usize = start;
    while i < chars.len()
        invariant
            start <= i <= chars.len(),
            start < chars.len(),
            chars@ == text@,
            start == if chars@.len() > 0 && chars@[0] == '+' {
                1usize
            } else {
                0usize
            },
            digits == chars@.skip(start as int),
            all_digits(digits.take(i - start)),
            value == digits_value(digits.take(i - start)),
        decreases chars.len() - i,
    {
        let ghost before = digits.take(i - start);
        let ghost after = digits.take(i - start + 1);
        assert(after.drop_last() == before);
        assert(after.last() == chars@[i as int]);
        match digit_of(chars[i]) {
            None => {
                assert(!is_digit(digits[i - start]));
                assert(chars@.skip(0) == chars@);
                return None;
            },
            Some(d) => {
                assert(digits_value(after) == value * 10 + d);
                if value > (u64::MAX - d as u64) / 10 {
                    proof {
                        lemma_digits_value_grows(digits, i - start + 1);
                        assert(chars@.skip(0) == chars@);
                    }
                    return None;
                }
                assert forall|k: int| 0 <= k < after.len() implies is_digit(#[trigger] after[k]) by {
                    if k < before.len() {
                        assert(after[k] == before[k]);
                    }
                }
                value = value * 10 + d as u64;
            },
        }
        i += 1;
    }
    assert(digits.take(i - start) == digits);
    assert(chars@.skip(0) == chars@);
    Some(value)
}

} // verus!
