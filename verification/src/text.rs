//! Text primitives over characters: comparison, trimming, searching, decimal numbers.
//!
//! Every function here is specified over the sequence of characters that a string holds.

use vstd::prelude::*;
use vstd::string::*;
use vstd::utf8::*;

verus! {

/// `String::push` of the standard library appends one character.
pub assume_specification[ String::push ](text: &mut String, c: char)
    ensures
        final(text)@ == old(text)@.push(c),
;

/// What `String::from_utf8` of the standard library says is wrong with bytes that are not valid
/// UTF-8.
pub uninterp spec fn utf8_complaint(bytes: Seq<u8>) -> Seq<char>;

/// `String::from_utf8` of the standard library: the text that the bytes encode, or the text of
/// the error where they are not valid UTF-8.
#[verifier::external_body]
pub(crate) fn decode_text(bytes: Vec<u8>) -> (r: Result<String, String>)
    ensures
        match r {
            Ok(text) => valid_utf8(bytes@) && text@ == decode_utf8(bytes@),
            Err(text) => !valid_utf8(bytes@) && text@ == utf8_complaint(bytes@),
        },
{
    String::from_utf8(bytes).map_err(|error| error.to_string())
}

/// The characters of `text`, in order.
pub fn to_chars(text: &str) -> (chars: Vec<char>)
    ensures
        chars@ == text@,
{
    let mut chars: Vec<char> = Vec::new();
    for c in it: text.chars()
        invariant
            it.seq() == text@,
            chars@ == text@.take(it.index() as int),
    {
        chars.push(c);
    }
    chars
}

/// The string made of `chars`.
pub fn from_chars(chars: &[char]) -> (text: String)
    ensures
        text@ == chars@,
{
    let mut text = String::new();
    for i in 0..chars.len()
        invariant
            text@ == chars@.take(i as int),
    {
        text.push(chars[i]);
    }
    text
}

/// Two byte slices hold the same bytes.
pub fn same_bytes(left: &[u8], right: &[u8]) -> (same: bool)
    ensures
        same == (left@ == right@),
{
    if left.len() != right.len() {
        return false;
    }
    for i in 0..left.len()
        invariant
            left@.len() == right@.len(),
            forall|j: int| 0 <= j < i ==> left@[j] == right@[j],
    {
        if left[i] != right[i] {
            return false;
        }
    }
    assert(left@ =~= right@);
    true
}

/// Two strings hold the same characters.
pub fn same_text(left: &str, right: &str) -> (same: bool)
    ensures
        same == (left@ == right@),
{
    proof {
        encode_utf8_decode_utf8(left@);
        encode_utf8_decode_utf8(right@);
    }
    same_bytes(left.as_bytes(), right.as_bytes())
}

/// `left` followed by `right`.
pub fn join2(left: &str, right: &str) -> (text: String)
    ensures
        text@ == left@ + right@,
{
    let mut text = String::from_str(left);
    text.append(right);
    text
}

/// `first`, `second` and `third` one after the other.
pub fn join3(first: &str, second: &str, third: &str) -> (text: String)
    ensures
        text@ == first@ + second@ + third@,
{
    let mut text = String::from_str(first);
    text.append(second);
    text.append(third);
    text
}

/// The Unicode `White_Space` property.
pub open spec fn white_space(c: char) -> bool {
    let v = c as u32;
    ||| 9 <= v <= 13
    ||| v == 0x20
    ||| v == 0x85
    ||| v == 0xA0
    ||| v == 0x1680
    ||| 0x2000 <= v <= 0x200A
    ||| v == 0x2028
    ||| v == 0x2029
    ||| v == 0x202F
    ||| v == 0x205F
    ||| v == 0x3000
}

pub fn is_white_space(c: char) -> (r: bool)
    ensures
        r == white_space(c),
{
    let v: u32 = c as u32;
    (9 <= v && v <= 13) || v == 0x20 || v == 0x85 || v == 0xA0 || v == 0x1680 || (0x2000 <= v && v
        <= 0x200A) || v == 0x2028 || v == 0x2029 || v == 0x202F || v == 0x205F || v == 0x3000
}

/// The Unicode general category `Cc`.
pub open spec fn control(c: char) -> bool {
    c as u32 <= 0x1F || 0x7F <= c as u32 <= 0x9F
}

pub fn is_control(c: char) -> (r: bool)
    ensures
        r == control(c),
{
    let v: u32 = c as u32;
    v <= 0x1F || (0x7F <= v && v <= 0x9F)
}

pub open spec fn ascii_digit(c: char) -> bool {
    '0' <= c <= '9'
}

pub open spec fn ascii_lower(c: char) -> bool {
    'a' <= c <= 'z'
}

pub open spec fn ascii_upper(c: char) -> bool {
    'A' <= c <= 'Z'
}

pub open spec fn ascii_alphanumeric(c: char) -> bool {
    ascii_digit(c) || ascii_lower(c) || ascii_upper(c)
}

pub fn is_ascii_digit(c: char) -> (r: bool)
    ensures
        r == ascii_digit(c),
{
    '0' <= c && c <= '9'
}

pub fn is_ascii_lower(c: char) -> (r: bool)
    ensures
        r == ascii_lower(c),
{
    'a' <= c && c <= 'z'
}

pub fn is_ascii_upper(c: char) -> (r: bool)
    ensures
        r == ascii_upper(c),
{
    'A' <= c && c <= 'Z'
}

pub fn is_ascii_alphanumeric(c: char) -> (r: bool)
    ensures
        r == ascii_alphanumeric(c),
{
    is_ascii_digit(c) || is_ascii_lower(c) || is_ascii_upper(c)
}

/// The lower-case form of an ASCII letter; any other character as it is.
pub open spec fn lower_ascii(c: char) -> char {
    if ascii_upper(c) {
        (c as u32 + 32) as char
    } else {
        c
    }
}

pub fn to_lower_ascii(c: char) -> (r: char)
    ensures
        r == lower_ascii(c),
{
    if is_ascii_upper(c) {
        ((c as u8) + 32) as char
    } else {
        c
    }
}

/// `text` with each ASCII letter in lower case.
pub open spec fn lowered(text: Seq<char>) -> Seq<char> {
    text.map_values(|c: char| lower_ascii(c))
}

pub fn lower_text(text: &str) -> (r: String)
    ensures
        r@ == lowered(text@),
{
    let mut out = String::new();
    for c in it: text.chars()
        invariant
            it.seq() == text@,
            out@ == lowered(text@.take(it.index() as int)),
    {
        proof {
            let n = it.index() as int;
            assert(lowered(text@.take(n + 1)) =~= lowered(text@.take(n)).push(
                lower_ascii(text@[n]),
            ));
        }
        out.push(to_lower_ascii(c));
    }
    assert(text@.take(text@.len() as int) =~= text@);
    out
}

/// `text` without its leading white space.
pub open spec fn trimmed_start(text: Seq<char>) -> Seq<char>
    decreases text.len(),
{
    if text.len() > 0 && white_space(text[0]) {
        trimmed_start(text.skip(1))
    } else {
        text
    }
}

/// `text` without its trailing white space.
pub open spec fn trimmed_end(text: Seq<char>) -> Seq<char>
    decreases text.len(),
{
    if text.len() > 0 && white_space(text.last()) {
        trimmed_end(text.drop_last())
    } else {
        text
    }
}

/// `text` without leading and trailing white space.
pub open spec fn trimmed(text: Seq<char>) -> Seq<char> {
    trimmed_end(trimmed_start(text))
}

/// `text` has no character but white space.
pub open spec fn blank(text: Seq<char>) -> bool {
    forall|i: int| 0 <= i < text.len() ==> white_space(#[trigger] text[i])
}

proof fn lemma_trimmed_start_at(text: Seq<char>, n: int)
    requires
        0 <= n <= text.len(),
        forall|i: int| 0 <= i < n ==> white_space(#[trigger] text[i]),
        n == text.len() || !white_space(text[n]),
    ensures
        trimmed_start(text) == text.skip(n),
    decreases text.len(),
{
    if n == 0 {
        assert(text.skip(0) =~= text);
    } else {
        let rest = text.skip(1);
        assert forall|i: int| 0 <= i < n - 1 implies white_space(#[trigger] rest[i]) by {
            assert(rest[i] == text[i + 1]);
        }
        lemma_trimmed_start_at(rest, n - 1);
        assert(rest.skip(n - 1) =~= text.skip(n));
    }
}

proof fn lemma_trimmed_end_at(text: Seq<char>, n: int)
    requires
        0 <= n <= text.len(),
        forall|i: int| n <= i < text.len() ==> white_space(#[trigger] text[i]),
        n == 0 || !white_space(text[n - 1]),
    ensures
        trimmed_end(text) == text.take(n),
    decreases text.len(),
{
    if n == text.len() {
        assert(text.take(n) =~= text);
    } else {
        lemma_trimmed_end_at(text.drop_last(), n);
        assert(text.drop_last().take(n) =~= text.take(n));
    }
}

/// What is left of a text by trimming it is empty exactly when the text is blank.
pub proof fn lemma_trimmed_empty(text: Seq<char>)
    ensures
        trimmed(text).len() == 0 <==> blank(text),
    decreases text.len(),
{
    if text.len() > 0 {
        if white_space(text[0]) {
            lemma_trimmed_empty(text.skip(1));
            if blank(text.skip(1)) {
                assert forall|i: int| 0 <= i < text.len() implies white_space(
                    #[trigger] text[i],
                ) by {
                    if i > 0 {
                        assert(text.skip(1)[i - 1] == text[i]);
                    }
                }
            }
            if blank(text) {
                assert forall|i: int| 0 <= i < text.len() - 1 implies white_space(
                    #[trigger] text.skip(1)[i],
                ) by {
                    assert(text.skip(1)[i] == text[i + 1]);
                }
            }
        } else {
            lemma_trimmed_end_keeps_first(text);
        }
    }
}

proof fn lemma_trimmed_end_keeps_first(text: Seq<char>)
    requires
        text.len() > 0,
        !white_space(text[0]),
    ensures
        trimmed_end(text).len() > 0,
    decreases text.len(),
{
    if white_space(text.last()) {
        assert(text.len() > 1);
        lemma_trimmed_end_keeps_first(text.drop_last());
    }
}

/// The part of `text` between its leading and its trailing white space.
pub fn trim(text: &str) -> (r: &str)
    ensures
        r@ == trimmed(text@),
{
    let chars = to_chars(text);
    let mut start: usize = 0;
    while start < chars.len() && is_white_space(chars[start])
        invariant
            start <= chars@.len(),
            chars@ == text@,
            forall|i: int| 0 <= i < start ==> white_space(#[trigger] chars@[i]),
        decreases chars@.len() - start,
    {
        start += 1;
    }
    proof {
        lemma_trimmed_start_at(text@, start as int);
    }
    let mut end: usize = chars.len();
    while end > start && is_white_space(chars[end - 1])
        invariant
            start <= end <= chars@.len(),
            chars@ == text@,
            forall|i: int| end <= i < chars@.len() ==> white_space(#[trigger] chars@[i]),
        decreases end,
    {
        end -= 1;
    }
    proof {
        let rest = text@.skip(start as int);
        assert forall|i: int| end - start <= i < rest.len() implies white_space(
            #[trigger] rest[i],
        ) by {
            assert(rest[i] == chars@[i + start]);
        }
        if end > start {
            assert(rest[end - start - 1] == chars@[end - 1]);
        }
        lemma_trimmed_end_at(rest, end - start);
        assert(rest.take(end - start) =~= text@.subrange(start as int, end as int));
    }
    text.substring_char(start, end)
}

/// Whether `text` has no character but white space.
pub fn is_blank(text: &str) -> (r: bool)
    ensures
        r == blank(text@),
        r == (trimmed(text@).len() == 0),
{
    proof {
        lemma_trimmed_empty(text@);
    }
    trim(text).unicode_len() == 0
}

/// `part` stands in `text` at the character position `at`.
pub open spec fn stands_at(text: Seq<char>, part: Seq<char>, at: int) -> bool {
    0 <= at && at + part.len() <= text.len() && text.subrange(at, at + part.len()) == part
}

/// `part` stands somewhere in `text`.
pub open spec fn contains_text(text: Seq<char>, part: Seq<char>) -> bool {
    exists|at: int| stands_at(text, part, at)
}

/// `text` begins with `part`.
pub open spec fn begins(text: Seq<char>, part: Seq<char>) -> bool {
    stands_at(text, part, 0)
}

/// `text` ends with `part`.
pub open spec fn ends(text: Seq<char>, part: Seq<char>) -> bool {
    stands_at(text, part, text.len() - part.len())
}

/// Whether `part` stands in `text` at `at`.
pub fn chars_at(text: &[char], part: &[char], at: usize) -> (r: bool)
    ensures
        r == stands_at(text@, part@, at as int),
{
    if part.len() > text.len() || at > text.len() - part.len() {
        return false;
    }
    let total: usize = text.len();
    for i in 0..part.len()
        invariant
            total == text@.len(),
            at + part@.len() <= total,
            forall|j: int| 0 <= j < i ==> text@[at + j] == #[trigger] part@[j],
    {
        if text[at + i] != part[i] {
            assert(text@.subrange(at as int, at + part@.len())[i as int] == text@[at + i]);
            return false;
        }
    }
    assert(text@.subrange(at as int, at + part@.len()) =~= part@);
    true
}

pub fn starts_with(text: &str, part: &str) -> (r: bool)
    ensures
        r == begins(text@, part@),
{
    let text_chars = to_chars(text);
    let part_chars = to_chars(part);
    chars_at(&text_chars, &part_chars, 0)
}

pub fn ends_with(text: &str, part: &str) -> (r: bool)
    ensures
        r == ends(text@, part@),
{
    let text_chars = to_chars(text);
    let part_chars = to_chars(part);
    if part_chars.len() > text_chars.len() {
        return false;
    }
    chars_at(&text_chars, &part_chars, text_chars.len() - part_chars.len())
}

/// Whether `part` stands somewhere in `text`.
pub fn contains(text: &str, part: &str) -> (r: bool)
    ensures
        r == contains_text(text@, part@),
{
    let text_chars = to_chars(text);
    let part_chars = to_chars(part);
    if part_chars.len() > text_chars.len() {
        return false;
    }
    let last: usize = text_chars.len() - part_chars.len();
    let mut at: usize = 0;
    while at <= last
        invariant
            text_chars@ == text@,
            part_chars@ == part@,
            last == text@.len() - part@.len(),
            at <= last + 1,
            last + 1 <= text_chars.len() + 1,
            forall|j: int| 0 <= j < at ==> !stands_at(text@, part@, j),
        decreases last + 1 - at,
    {
        if chars_at(&text_chars, &part_chars, at) {
            return true;
        }
        if at == last {
            assert forall|j: int| !stands_at(text@, part@, j) by {}
            return false;
        }
        at += 1;
    }
    false
}

/// The first `count` characters of `text`, or all of them where there are fewer.
pub open spec fn first_chars(text: Seq<char>, count: nat) -> Seq<char> {
    if text.len() <= count {
        text
    } else {
        text.take(count as int)
    }
}

pub fn take_chars(text: &str, count: usize) -> (r: String)
    ensures
        r@ == first_chars(text@, count as nat),
{
    let length: usize = text.unicode_len();
    let end: usize = if length <= count {
        length
    } else {
        count
    };
    assert(text@.subrange(0, end as int) =~= first_chars(text@, count as nat));
    String::from_str(text.substring_char(0, end))
}

/// The value of a digit.
pub open spec fn digit_value(c: char) -> nat {
    (c as u32 - '0' as u32) as nat
}

pub open spec fn all_digits(text: Seq<char>) -> bool {
    forall|i: int| 0 <= i < text.len() ==> ascii_digit(#[trigger] text[i])
}

pub fn are_digits(text: &str) -> (r: bool)
    ensures
        r == all_digits(text@),
{
    let chars = to_chars(text);
    for i in 0..chars.len()
        invariant
            chars@ == text@,
            forall|k: int| 0 <= k < i ==> ascii_digit(#[trigger] text@[k]),
    {
        if !is_ascii_digit(chars[i]) {
            assert(!ascii_digit(text@[i as int]));
            return false;
        }
    }
    true
}

/// The number that a sequence of digits writes.
pub open spec fn number_of(text: Seq<char>) -> nat
    decreases text.len(),
{
    if text.len() == 0 {
        0
    } else {
        number_of(text.drop_last()) * 10 + digit_value(text.last())
    }
}

/// The unsigned number that `text` writes, if it writes one that is at most `max`:
/// one or more digits behind an optional plus sign.
pub open spec fn parsed_number(text: Seq<char>, max: nat) -> Option<nat> {
    let digits = if text.len() > 0 && text[0] == '+' {
        text.skip(1)
    } else {
        text
    };
    if digits.len() > 0 && all_digits(digits) && number_of(digits) <= max {
        Some(number_of(digits))
    } else {
        None
    }
}

proof fn lemma_number_grows(text: Seq<char>, n: int)
    requires
        0 <= n <= text.len(),
    ensures
        number_of(text.take(n)) <= number_of(text),
    decreases text.len(),
{
    if n == text.len() {
        assert(text.take(n) =~= text);
    } else {
        lemma_number_grows(text.drop_last(), n);
        assert(text.drop_last().take(n) =~= text.take(n));
    }
}

/// Reads an unsigned number that is at most `max`.
pub fn parse_number(text: &str, max: u64) -> (r: Option<u64>)
    ensures
        match r {
            Some(n) => parsed_number(text@, max as nat) == Some(n as nat),
            None => parsed_number(text@, max as nat) is None,
        },
{
    let chars = to_chars(text);
    let signed = chars.len() > 0 && chars[0] == '+';
    let start: usize = if signed {
        1
    } else {
        0
    };
    let ghost digits = if signed {
        text@.skip(1)
    } else {
        text@
    };
    if start == chars.len() {
        return None;
    }
    let mut value: u64 = 0;
    let mut at: usize = start;
    while at < chars.len()
        invariant
            chars@ == text@,
            start <= at <= chars@.len(),
            start <= 1,
            digits == chars@.skip(start as int),
            value <= max,
            forall|i: int| 0 <= i < at - start ==> ascii_digit(#[trigger] digits[i]),
            value == number_of(digits.take(at - start)),
            parsed_number(text@, max as nat) == (if digits.len() > 0 && all_digits(digits)
                && number_of(digits) <= max {
                Some(number_of(digits))
            } else {
                None::<nat>
            }),
        decreases chars@.len() - at,
    {
        let c = chars[at];
        let ghost n = at - start;
        assert(digits[n] == c);
        if !is_ascii_digit(c) {
            return None;
        }
        let digit: u64 = (c as u32 - '0' as u32) as u64;
        proof {
            assert(digits.take(n + 1).drop_last() =~= digits.take(n));
            assert(digits.take(n + 1).last() == c);
            lemma_number_grows(digits, n + 1);
        }
        if digit > max || value > (max - digit) / 10 {
            return None;
        }
        value = value * 10 + digit;
        at += 1;
    }
    assert(digits.take(at - start) =~= digits);
    Some(value)
}

/// The decimal digits of a number, without leading zeros.
pub open spec fn decimal(n: nat) -> Seq<char>
    decreases n,
{
    if n < 10 {
        seq![digit_char(n)]
    } else {
        decimal(n / 10).push(digit_char(n % 10))
    }
}

pub open spec fn digit_char(n: nat) -> char {
    ('0' as u32 + n) as char
}

proof fn lemma_digit_char(n: nat)
    requires
        n < 10,
    ensures
        ascii_digit(digit_char(n)),
        digit_value(digit_char(n)) == n,
{
}

fn digit_to_char(n: u8) -> (c: char)
    requires
        n < 10,
    ensures
        c == digit_char(n as nat),
{
    (('0' as u8) + n) as char
}

/// Writes `n` in decimal.
pub fn write_wide_number(n: u128) -> (text: String)
    ensures
        text@ == decimal(n as nat),
    decreases n,
{
    if n < 10 {
        let mut text = String::new();
        text.push(digit_to_char(n as u8));
        assert(text@ =~= decimal(n as nat));
        text
    } else {
        let mut text = write_wide_number(n / 10);
        text.push(digit_to_char((n % 10) as u8));
        text
    }
}

/// Writes `n` in decimal.
pub fn write_number(n: u64) -> (text: String)
    ensures
        text@ == decimal(n as nat),
{
    write_wide_number(n as u128)
}

/// Reading back the decimal digits of a number gives the number.
pub proof fn law_decimal_reads_back(n: nat, max: nat)
    requires
        n <= max,
    ensures
        parsed_number(decimal(n), max) == Some(n),
{
    lemma_decimal(n);
    let digits = decimal(n);
    assert(ascii_digit(digits[0]));
}

proof fn lemma_decimal(n: nat)
    ensures
        decimal(n).len() > 0,
        all_digits(decimal(n)),
        number_of(decimal(n)) == n,
    decreases n,
{
    if n < 10 {
        lemma_digit_char(n);
        let digits = decimal(n);
        assert(digits.drop_last() =~= Seq::<char>::empty());
        reveal_with_fuel(number_of, 2);
    } else {
        lemma_decimal(n / 10);
        lemma_digit_char(n % 10);
        assert(decimal(n).drop_last() =~= decimal(n / 10));
    }
}

/// The bytes that a character takes in UTF-8.
pub open spec fn char_width(c: char) -> nat {
    let v = c as u32;
    if v < 0x80 {
        1
    } else if v < 0x800 {
        2
    } else if v < 0x1_0000 {
        3
    } else {
        4
    }
}

/// The bytes that a text takes in UTF-8.
pub open spec fn byte_length(text: Seq<char>) -> nat
    decreases text.len(),
{
    if text.len() == 0 {
        0
    } else {
        byte_length(text.drop_last()) + char_width(text.last())
    }
}

/// The encoding of two texts in a row is their encodings in a row.
pub proof fn lemma_encode_joins(left: Seq<char>, right: Seq<char>)
    ensures
        encode_utf8(left + right) == encode_utf8(left) + encode_utf8(right),
    decreases left.len(),
{
    if left.len() == 0 {
        assert(left + right =~= right);
    } else {
        lemma_encode_joins(left.drop_first(), right);
        assert((left + right).drop_first() =~= left.drop_first() + right);
    }
}

/// The length of the encoding of a text is the sum of the widths of its characters.
pub proof fn lemma_byte_length(text: Seq<char>)
    ensures
        byte_length(text) == encode_utf8(text).len(),
    decreases text.len(),
{
    if text.len() > 0 {
        lemma_byte_length(text.drop_last());
        let tail = seq![text.last()];
        assert(text =~= text.drop_last() + tail);
        lemma_encode_joins(text.drop_last(), tail);
        assert(tail.drop_first() =~= Seq::<char>::empty());
        reveal_with_fuel(encode_utf8, 2);
        char_is_scalar(text.last());
    }
}

/// A longer prefix takes more bytes.
pub proof fn lemma_byte_length_grows(text: Seq<char>, i: int, j: int)
    requires
        0 <= i <= j <= text.len(),
    ensures
        byte_length(text.take(i)) + (j - i) <= byte_length(text.take(j)),
    decreases j - i,
{
    if i < j {
        lemma_byte_length_grows(text, i, j - 1);
        assert(text.take(j).drop_last() =~= text.take(j - 1));
    }
}

/// The byte length of two texts in a row is the sum of their byte lengths.
pub proof fn lemma_byte_length_joins(left: Seq<char>, right: Seq<char>)
    ensures
        byte_length(left + right) == byte_length(left) + byte_length(right),
{
    lemma_encode_joins(left, right);
    lemma_byte_length(left);
    lemma_byte_length(right);
    lemma_byte_length(left + right);
}

fn width_of(c: char) -> (r: usize)
    ensures
        r == char_width(c),
{
    let v: u32 = c as u32;
    if v < 0x80 {
        1
    } else if v < 0x800 {
        2
    } else if v < 0x1_0000 {
        3
    } else {
        4
    }
}

/// The bytes that `text` takes in UTF-8.
pub fn byte_count(text: &str) -> (r: usize)
    ensures
        r == byte_length(text@),
{
    proof {
        lemma_byte_length(text@);
    }
    text.as_bytes().len()
}

/// Where each character of `text` begins in UTF-8, and where the last one ends.
pub fn byte_offsets(text: &str) -> (offsets: Vec<usize>)
    ensures
        offsets@.len() == text@.len() + 1,
        forall|i: int|
            0 <= i <= text@.len() ==> #[trigger] offsets@[i] == byte_length(text@.take(i)),
{
    let total: usize = byte_count(text);
    let mut offsets: Vec<usize> = Vec::new();
    let mut at: usize = 0;
    offsets.push(0);
    for c in it: text.chars()
        invariant
            it.seq() == text@,
            total == byte_length(text@),
            offsets@.len() == it.index() + 1,
            at == byte_length(text@.take(it.index() as int)),
            forall|i: int|
                0 <= i <= it.index() ==> #[trigger] offsets@[i] == byte_length(text@.take(i)),
    {
        proof {
            let n = it.index() as int;
            assert(text@.take(n + 1).drop_last() =~= text@.take(n));
            lemma_byte_length_grows(text@, n + 1, text@.len() as int);
            assert(text@.take(text@.len() as int) =~= text@);
        }
        at = at + width_of(c);
        offsets.push(at);
    }
    offsets
}

/// A hexadecimal digit in lower case.
pub open spec fn hex_char(n: nat) -> char {
    if n < 10 {
        digit_char(n)
    } else {
        ('a' as u32 + (n - 10)) as char
    }
}

/// The last `width` hexadecimal digits of a number, in lower case.
pub open spec fn hex_digits(n: nat, width: nat) -> Seq<char>
    decreases width,
{
    if width == 0 {
        Seq::empty()
    } else {
        hex_digits(n / 16, (width - 1) as nat).push(hex_char(n % 16))
    }
}

fn hex_to_char(n: u64) -> (c: char)
    requires
        n < 16,
    ensures
        c == hex_char(n as nat),
{
    if n < 10 {
        digit_to_char(n as u8)
    } else {
        (('a' as u8) + (n as u8 - 10)) as char
    }
}

/// Writes the last `width` hexadecimal digits of `n`.
pub fn write_hex(n: u64, width: u32) -> (text: String)
    ensures
        text@ == hex_digits(n as nat, width as nat),
    decreases width,
{
    if width == 0 {
        String::new()
    } else {
        let mut text = write_hex(n / 16, width - 1);
        text.push(hex_to_char(n % 16));
        text
    }
}

/// The characters of each of several strings.
pub open spec fn texts(strings: Seq<String>) -> Seq<Seq<char>> {
    strings.map_values(|s: String| s@)
}

/// The pieces of a text between the occurrences of `separator`.
pub open spec fn pieces(text: Seq<char>, separator: char) -> Seq<Seq<char>>
    decreases text.len(),
{
    if text.len() == 0 {
        seq![Seq::empty()]
    } else {
        let before = pieces(text.drop_last(), separator);
        if text.last() == separator {
            before.push(Seq::empty())
        } else {
            before.drop_last().push(before.last().push(text.last()))
        }
    }
}

/// There is always at least one piece.
pub proof fn lemma_pieces_nonempty(text: Seq<char>, separator: char)
    ensures
        pieces(text, separator).len() > 0,
    decreases text.len(),
{
    if text.len() > 0 {
        lemma_pieces_nonempty(text.drop_last(), separator);
    }
}

/// Splits a text at each `separator`.
pub fn split(text: &str, separator: char) -> (parts: Vec<String>)
    ensures
        texts(parts@) == pieces(text@, separator),
        parts@.len() > 0,
{
    let mut parts: Vec<String> = Vec::new();
    let mut current = String::new();
    assert(texts(parts@).push(current@) =~= pieces(text@.take(0), separator));
    for c in it: text.chars()
        invariant
            it.seq() == text@,
            texts(parts@).push(current@) == pieces(text@.take(it.index() as int), separator),
    {
        proof {
            let n = it.index() as int;
            assert(text@.take(n + 1).drop_last() =~= text@.take(n));
            assert(text@.take(n + 1).last() == c);
        }
        let ghost before = texts(parts@);
        if c == separator {
            let ghost piece = current@;
            parts.push(current);
            current = String::new();
            assert(texts(parts@) =~= before.push(piece));
        } else {
            let ghost piece = current@;
            current.push(c);
            assert(before.push(piece).drop_last() =~= before);
        }
    }
    assert(text@.take(text@.len() as int) =~= text@);
    let ghost before = texts(parts@);
    let ghost piece = current@;
    parts.push(current);
    assert(texts(parts@) =~= before.push(piece));
    parts
}

/// The part of a text before the first `separator`, or all of it where there is none.
pub open spec fn before_first(text: Seq<char>, separator: char) -> Seq<char>
    decreases text.len(),
{
    if text.len() == 0 || text[0] == separator {
        Seq::empty()
    } else {
        seq![text[0]] + before_first(text.skip(1), separator)
    }
}

/// `separator` stands in the text.
pub open spec fn has_char(text: Seq<char>, separator: char) -> bool {
    exists|i: int| 0 <= i < text.len() && #[trigger] text[i] == separator
}

/// The part of a text behind the first `separator`.
pub open spec fn after_first(text: Seq<char>, separator: char) -> Seq<char> {
    text.skip(before_first(text, separator).len() as int + 1)
}

proof fn lemma_before_first_at(text: Seq<char>, separator: char, n: int)
    requires
        0 <= n <= text.len(),
        forall|i: int| 0 <= i < n ==> #[trigger] text[i] != separator,
        n == text.len() || text[n] == separator,
    ensures
        before_first(text, separator) == text.take(n),
    decreases text.len(),
{
    if n == 0 {
        assert(text.take(0) =~= Seq::<char>::empty());
    } else {
        let rest = text.skip(1);
        assert forall|i: int| 0 <= i < n - 1 implies #[trigger] rest[i] != separator by {
            assert(rest[i] == text[i + 1]);
        }
        lemma_before_first_at(rest, separator, n - 1);
        assert(seq![text[0]] + rest.take(n - 1) =~= text.take(n));
    }
}

/// Where the first `separator` stands in `chars`.
pub fn find_char(chars: &[char], separator: char) -> (r: Option<usize>)
    ensures
        match r {
            Some(n) => {
                &&& n < chars@.len()
                &&& chars@[n as int] == separator
                &&& before_first(chars@, separator) == chars@.take(n as int)
                &&& has_char(chars@, separator)
            },
            None => before_first(chars@, separator) == chars@ && !has_char(chars@, separator),
        },
{
    let mut n: usize = 0;
    while n < chars.len() && chars[n] != separator
        invariant
            n <= chars@.len(),
            forall|i: int| 0 <= i < n ==> #[trigger] chars@[i] != separator,
        decreases chars@.len() - n,
    {
        n += 1;
    }
    proof {
        lemma_before_first_at(chars@, separator, n as int);
        assert(chars@.take(chars@.len() as int) =~= chars@);
    }
    if n < chars.len() {
        Some(n)
    } else {
        None
    }
}

/// The part of `text` before the first `separator`, or all of it where there is none.
pub fn text_before_first(text: &str, separator: char) -> (r: &str)
    ensures
        r@ == before_first(text@, separator),
{
    let chars = to_chars(text);
    match find_char(&chars, separator) {
        Some(n) => {
            assert(text@.subrange(0, n as int) =~= text@.take(n as int));
            text.substring_char(0, n)
        },
        None => text,
    }
}

/// The parts of `text` before and behind the first `separator`.
pub fn split_once(text: &str, separator: char) -> (r: Option<(&str, &str)>)
    ensures
        match r {
            Some((before, after)) => {
                &&& has_char(text@, separator)
                &&& before@ == before_first(text@, separator)
                &&& after@ == after_first(text@, separator)
            },
            None => !has_char(text@, separator),
        },
{
    let chars = to_chars(text);
    match find_char(&chars, separator) {
        Some(n) => {
            proof {
                assert(text@.subrange(0, n as int) =~= text@.take(n as int));
                assert(text@.subrange(n + 1, text@.len() as int) =~= text@.skip(n + 1));
            }
            let total: usize = chars.len();
            Some((text.substring_char(0, n), text.substring_char(n + 1, total)))
        },
        None => None,
    }
}

/// The part of `text` behind the prefix `part`.
pub fn strip_prefix<'a>(text: &'a str, part: &str) -> (r: Option<&'a str>)
    ensures
        match r {
            Some(rest) => begins(text@, part@) && rest@ == text@.skip(part@.len() as int),
            None => !begins(text@, part@),
        },
{
    if starts_with(text, part) {
        let from: usize = part.unicode_len();
        let to: usize = text.unicode_len();
        assert(text@.subrange(from as int, to as int) =~= text@.skip(from as int));
        Some(text.substring_char(from, to))
    } else {
        None
    }
}

/// `String::from_utf8_lossy`: the text of some bytes, with a replacement character for each part
/// that is not UTF-8.
pub uninterp spec fn lossy_text(bytes: Seq<u8>) -> Seq<char>;

/// `String::from_utf8_lossy` of the standard library. Bytes that are valid UTF-8 give the text
/// that they encode.
#[verifier::external_body]
pub(crate) fn decode_lossy(bytes: &[u8]) -> (text: String)
    ensures
        text@ == lossy_text(bytes@),
        valid_utf8(bytes@) ==> text@ == decode_utf8(bytes@),
{
    String::from_utf8_lossy(bytes).into_owned()
}

/// The lower-case form of a character, which may be more than one character.
pub uninterp spec fn unicode_lower(c: char) -> Seq<char>;

/// `char::to_lowercase` of the standard library. An ASCII character gives its ASCII lower-case
/// form.
#[verifier::external_body]
pub(crate) fn to_lower_unicode(c: char) -> (r: String)
    ensures
        r@ == unicode_lower(c),
        c as u32 <= 127 ==> r@ == seq![lower_ascii(c)],
{
    c.to_lowercase().collect()
}

/// A text with each character in lower case.
pub open spec fn unicode_lowered(text: Seq<char>) -> Seq<char>
    decreases text.len(),
{
    if text.len() == 0 {
        Seq::empty()
    } else {
        unicode_lowered(text.drop_last()) + unicode_lower(text.last())
    }
}

pub fn lower_unicode_text(text: &str) -> (r: String)
    ensures
        r@ == unicode_lowered(text@),
{
    let mut out = String::new();
    for c in it: text.chars()
        invariant
            it.seq() == text@,
            out@ == unicode_lowered(text@.take(it.index() as int)),
    {
        proof {
            let n = it.index() as int;
            assert(text@.take(n + 1).drop_last() =~= text@.take(n));
        }
        let lower = to_lower_unicode(c);
        out.append(lower.as_str());
    }
    assert(text@.take(text@.len() as int) =~= text@);
    out
}

/// The first line of a text, without its line ending.
pub open spec fn first_line(text: Seq<char>) -> Seq<char> {
    let line = before_first(text, '\n');
    if has_char(text, '\n') && line.len() > 0 && line.last() == '\r' {
        line.drop_last()
    } else {
        line
    }
}

/// The first line of a text, without its line ending.
pub fn text_first_line(text: &str) -> (r: &str)
    ensures
        r@ == first_line(text@),
{
    let line = text_before_first(text, '\n');
    let chars = to_chars(text);
    let ended = find_char(&chars, '\n').is_some();
    let length: usize = line.unicode_len();
    if ended && length > 0 && line.get_char(length - 1) == '\r' {
        let cut = line.substring_char(0, length - 1);
        assert(cut@ =~= line@.drop_last());
        cut
    } else {
        line
    }
}

/// A text of one's own.
pub fn owned(text: &str) -> (r: String)
    ensures
        r@ == text@,
{
    String::from_str(text)
}

/// A line without the carriage return at its end.
pub open spec fn without_return(line: Seq<char>) -> Seq<char> {
    if line.len() > 0 && line.last() == '\r' {
        line.drop_last()
    } else {
        line
    }
}

/// The lines of a text, without their line endings. A carriage return counts as part of a line
/// ending only before a line feed, and the text behind the last line feed only if there is any.
pub open spec fn lines_of(text: Seq<char>) -> Seq<Seq<char>> {
    let parts = pieces(text, '\n');
    let ended = Seq::new(
        (parts.len() - 1) as nat,
        |i: int| without_return(parts[i]),
    );
    if parts.last().len() == 0 {
        ended
    } else {
        ended.push(parts.last())
    }
}

/// Splits a text into its lines.
pub fn lines(text: &str) -> (r: Vec<String>)
    ensures
        texts(r@) == lines_of(text@),
{
    let parts = split(text, '\n');
    let ghost all = pieces(text@, '\n');
    let ghost ended = Seq::new((all.len() - 1) as nat, |i: int| without_return(all[i]));
    let last: usize = parts.len() - 1;
    let mut out: Vec<String> = Vec::new();
    assert(texts(out@) =~= ended.take(0));
    for i in 0..last
        invariant
            last == parts@.len() - 1,
            all == texts(parts@),
            ended == Seq::new((all.len() - 1) as nat, |i: int| without_return(all[i])),
            texts(out@) == ended.take(i as int),
    {
        let line = parts[i].as_str();
        assert(all[i as int] == line@);
        let length: usize = line.unicode_len();
        let ghost before = texts(out@);
        if length > 0 && line.get_char(length - 1) == '\r' {
            let cut = line.substring_char(0, length - 1);
            assert(cut@ =~= line@.drop_last());
            out.push(owned(cut));
        } else {
            out.push(owned(line));
        }
        assert(texts(out@) =~= before.push(without_return(line@)));
        assert(ended.take(i + 1) =~= ended.take(i as int).push(ended[i as int]));
    }
    assert(ended.take(last as int) =~= ended);
    assert(all.last() == parts@[last as int]@);
    if parts[last].as_str().unicode_len() > 0 {
        let ghost before = texts(out@);
        out.push(owned(parts[last].as_str()));
        assert(texts(out@) =~= before.push(all.last()));
    }
    out
}

/// The texts one after the other, with `separator` between two of them.
pub open spec fn joined_text(parts: Seq<Seq<char>>, separator: Seq<char>) -> Seq<char>
    decreases parts.len(),
{
    if parts.len() == 0 {
        Seq::empty()
    } else if parts.len() == 1 {
        parts[0]
    } else {
        joined_text(parts.drop_last(), separator) + separator + parts.last()
    }
}

/// Joins texts with `separator` between two of them.
pub fn join_text(parts: &Vec<String>, separator: &str) -> (r: String)
    ensures
        r@ == joined_text(texts(parts@), separator@),
{
    let ghost all = texts(parts@);
    let mut out = String::new();
    assert(all.take(0) =~= Seq::<Seq<char>>::empty());
    for i in 0..parts.len()
        invariant
            all == texts(parts@),
            out@ == joined_text(all.take(i as int), separator@),
    {
        proof {
            assert(all.take(i + 1).drop_last() =~= all.take(i as int));
            assert(all.take(i + 1).last() == parts@[i as int]@);
        }
        if i > 0 {
            out.append(separator);
        }
        out.append(parts[i].as_str());
        proof {
            if i == 0 {
                assert(out@ =~= parts@[0]@);
            }
        }
    }
    assert(all.take(all.len() as int) =~= all);
    out
}

/// How a truth value is written.
pub open spec fn truth_text(truth: bool) -> Seq<char> {
    if truth {
        "true"@
    } else {
        "false"@
    }
}

pub fn write_truth(truth: bool) -> (r: &'static str)
    ensures
        r@ == truth_text(truth),
{
    if truth {
        "true"
    } else {
        "false"
    }
}

/// Trimming takes away the white space at both ends and nothing else.
pub proof fn law_trimming_keeps_the_core(text: Seq<char>, from: int, to: int)
    requires
        0 <= from < to <= text.len(),
        forall|i: int|
            0 <= i < text.len() && (i < from || to <= i) ==> white_space(#[trigger] text[i]),
        !white_space(text[from]),
        !white_space(text[to - 1]),
    ensures
        trimmed(text) == text.subrange(from, to),
{
    lemma_trimmed_start_at(text, from);
    let rest = text.skip(from);
    assert forall|i: int| to - from <= i < rest.len() implies white_space(#[trigger] rest[i]) by {
        assert(rest[i] == text[i + from]);
    }
    assert(rest[to - from - 1] == text[to - 1]);
    lemma_trimmed_end_at(rest, to - from);
    assert(rest.take(to - from) =~= text.subrange(from, to));
}

/// Of the characters of ASCII, six are white space: the blank, the tabulator, the line feed, the
/// vertical tabulator, the form feed and the carriage return.
pub proof fn law_ascii_white_space(c: char)
    requires
        c as u32 <= 127,
    ensures
        white_space(c) <==> c == ' ' || c == '\t' || c == '\n' || c == '\u{b}' || c == '\u{c}' || c
            == '\r',
        control(c) <==> c < ' ' || c == '\u{7f}',
{
}

/// The pieces of a text put together again are the text, and no piece holds the separator.
pub proof fn law_pieces_make_the_text(text: Seq<char>, separator: char)
    ensures
        joined_text(pieces(text, separator), seq![separator]) == text,
        forall|i: int, j: int|
            0 <= i < pieces(text, separator).len() && 0 <= j < pieces(text, separator)[i].len()
                ==> #[trigger] pieces(text, separator)[i][j] != separator,
    decreases text.len(),
{
    let all = pieces(text, separator);
    if text.len() == 0 {
        assert(all =~= seq![Seq::<char>::empty()]);
        assert(joined_text(all, seq![separator]) =~= text);
    } else {
        law_pieces_make_the_text(text.drop_last(), separator);
        lemma_pieces_nonempty(text.drop_last(), separator);
        let before = pieces(text.drop_last(), separator);
        if text.last() == separator {
            assert(all.drop_last() =~= before);
            assert(joined_text(all, seq![separator]) =~= text);
        } else {
            lemma_join_last(before, seq![separator], text.last());
            assert(joined_text(all, seq![separator]) =~= text);
            assert forall|i: int, j: int| 0 <= i < all.len() && 0 <= j < all[i].len() implies
                #[trigger] all[i][j] != separator by {
                if i < before.len() - 1 {
                    assert(all[i] == before[i]);
                    assert(before[i][j] != separator);
                } else if j < before.last().len() {
                    assert(before[before.len() - 1][j] != separator);
                }
            }
        }
    }
}

proof fn lemma_join_last(parts: Seq<Seq<char>>, separator: Seq<char>, c: char)
    requires
        parts.len() > 0,
    ensures
        joined_text(parts.drop_last().push(parts.last().push(c)), separator) == joined_text(
            parts,
            separator,
        ).push(c),
{
    let longer = parts.drop_last().push(parts.last().push(c));
    assert(longer.drop_last() =~= parts.drop_last());
    assert(joined_text(longer, separator) =~= joined_text(parts, separator).push(c));
}

/// A text is cut at the first separator: what stands before it holds none, and both parts with the
/// separator between them are the text. Without a separator everything stands before it.
pub proof fn law_cut_at_the_first(text: Seq<char>, separator: char)
    ensures
        !has_char(before_first(text, separator), separator),
        has_char(text, separator) ==> before_first(text, separator).push(separator) + after_first(
            text,
            separator,
        ) == text,
        !has_char(text, separator) ==> before_first(text, separator) == text,
    decreases text.len(),
{
    if text.len() > 0 && text[0] != separator {
        let rest = text.skip(1);
        law_cut_at_the_first(rest, separator);
        let front = before_first(text, separator);
        let tail = before_first(rest, separator);
        assert(front == seq![text[0]] + tail);
        assert(!has_char(front, separator)) by {
            if has_char(front, separator) {
                let i = choose|i: int| 0 <= i < front.len() && #[trigger] front[i] == separator;
                assert(tail[i - 1] == separator);
            }
        }
        if has_char(text, separator) {
            let i = choose|i: int| 0 <= i < text.len() && #[trigger] text[i] == separator;
            assert(rest[i - 1] == separator);
            assert(after_first(text, separator) =~= after_first(rest, separator));
            assert(front.push(separator) + after_first(text, separator) =~= seq![text[0]] + (
            tail.push(separator) + after_first(rest, separator)));
            assert(seq![text[0]] + rest =~= text);
        } else {
            assert(!has_char(rest, separator)) by {
                if has_char(rest, separator) {
                    let i = choose|i: int| 0 <= i < rest.len() && #[trigger] rest[i] == separator;
                    assert(text[i + 1] == separator);
                }
            }
            assert(front =~= text);
        }
    } else if text.len() > 0 {
        assert(text[0] == separator);
        assert(Seq::<char>::empty().push(separator) + text.skip(1) =~= text);
    }
}

/// A number is read from digits alone, a plus sign before them allowed, and each digit weighs ten
/// times the one behind it.
pub proof fn law_numbers_are_digits(text: Seq<char>, max: nat, digit: char)
    ensures
        parsed_number(text, max) is Some ==> {
            &&& parsed_number(text, max)->0 <= max
            &&& text.len() > 0
            &&& forall|i: int| 1 <= i < text.len() ==> '0' <= #[trigger] text[i] <= '9'
            &&& text[0] == '+' || '0' <= text[0] <= '9'
        },
        parsed_number(text, max) is Some && '0' <= digit <= '9' && parsed_number(text, max)->0 * 10
            + (digit as u32 - '0' as u32) <= max ==> parsed_number(text.push(digit), max) == Some(
            (parsed_number(text, max)->0 * 10 + (digit as u32 - '0' as u32)) as nat,
        ),
        parsed_number(Seq::empty(), max) is None,
{
    let signed = text.len() > 0 && text[0] == '+';
    let digits = if signed {
        text.skip(1)
    } else {
        text
    };
    if parsed_number(text, max) is Some {
        assert forall|i: int| 1 <= i < text.len() implies '0' <= #[trigger] text[i] <= '9' by {
            if signed {
                assert(ascii_digit(digits[i - 1]));
            } else {
                assert(ascii_digit(digits[i]));
            }
        }
        if !signed {
            assert(ascii_digit(digits[0]));
        }
        if '0' <= digit <= '9' {
            let longer = text.push(digit);
            let more = digits.push(digit);
            assert(longer[0] == text[0]);
            if signed {
                assert(longer.skip(1) =~= more);
            } else {
                assert(longer =~= more);
            }
            assert(more.drop_last() =~= digits);
            assert forall|i: int| 0 <= i < more.len() implies ascii_digit(#[trigger] more[i]) by {
                if i < digits.len() {
                    assert(ascii_digit(digits[i]));
                }
            }
        }
    }
}

/// Cutting a text short keeps its beginning, as long as allowed.
pub proof fn law_cut_text_begins_alike(text: Seq<char>, count: nat)
    ensures
        first_chars(text, count).len() <= count,
        first_chars(text, count).len() == count || first_chars(text, count) == text,
        first_chars(text, count) == text.take(first_chars(text, count).len() as int),
{
    assert(text.take(text.len() as int) =~= text);
}

/// Hexadecimal digits tell the number again.
pub proof fn law_hex_digits_tell_the_number(n: nat, width: nat)
    requires
        width > 0,
    ensures
        hex_digits(n, width).len() == width,
        hex_digits(n, width).drop_last() == hex_digits(n / 16, (width - 1) as nat),
        n % 16 < 10 ==> hex_digits(n, width).last() as u32 == '0' as u32 + n % 16,
        n % 16 >= 10 ==> hex_digits(n, width).last() as u32 == 'a' as u32 + n % 16 - 10,
    decreases width,
{
    if width > 1 {
        law_hex_digits_tell_the_number(n / 16, (width - 1) as nat);
    }
    assert(hex_digits(n, width).drop_last() =~= hex_digits(n / 16, (width - 1) as nat));
}

/// A line ends at a line feed, or at a carriage return and a line feed; the text behind the last line
/// feed is a line only where there is some.
pub proof fn law_lines_end_at_line_feeds(text: Seq<char>, line: Seq<char>)
    requires
        !has_char(line, '\n'),
        text.len() == 0 || text.last() == '\n',
    ensures
        line.len() == 0 || line.last() != '\r' ==> lines_of(text + line.push('\n')) == lines_of(
            text,
        ).push(line),
        line.len() == 0 || line.last() != '\r' ==> lines_of(text + line.push('\r').push('\n'))
            == lines_of(text).push(line),
        line.len() > 0 ==> lines_of(text + line) == lines_of(text).push(line),
{
    lemma_pieces_nonempty(text, '\n');
    lemma_open_end(text);
    let parts = pieces(text, '\n');
    let front = parts.drop_last();
    lemma_pieces_behind(text, line);
    assert(pieces(text + line, '\n') == front.push(line));
    if line.len() > 0 {
        assert(lines_of(text + line) =~= lines_of(text).push(line));
    }
    if line.len() == 0 || line.last() != '\r' {
        let ended = text + line.push('\n');
        assert(ended.drop_last() =~= text + line);
        let told = pieces(ended, '\n');
        assert(told == front.push(line).push(Seq::empty()));
        assert(lines_of(ended) =~= lines_of(text).push(line));
        let returned = line.push('\r');
        assert(!has_char(returned, '\n')) by {
            if has_char(returned, '\n') {
                let i = choose|i: int| 0 <= i < returned.len() && #[trigger] returned[i] == '\n';
                assert(line[i] == '\n');
            }
        }
        lemma_pieces_behind(text, returned);
        let both = text + returned.push('\n');
        assert(both.drop_last() =~= text + returned);
        let shown = pieces(both, '\n');
        assert(shown == front.push(returned).push(Seq::empty()));
        assert(without_return(returned) =~= line);
        assert(lines_of(both) =~= lines_of(text).push(line));
    }
}

proof fn lemma_open_end(text: Seq<char>)
    requires
        text.len() == 0 || text.last() == '\n',
    ensures
        pieces(text, '\n').last().len() == 0,
{
}

proof fn lemma_pieces_behind(text: Seq<char>, line: Seq<char>)
    requires
        !has_char(line, '\n'),
        text.len() == 0 || text.last() == '\n',
    ensures
        pieces(text + line, '\n') == pieces(text, '\n').drop_last().push(line),
    decreases line.len(),
{
    lemma_pieces_nonempty(text, '\n');
    let parts = pieces(text, '\n');
    if line.len() == 0 {
        assert(text + line =~= text);
        lemma_open_end(text);
        assert(parts.drop_last().push(line) =~= parts) by {
            assert(parts.last() =~= line);
        }
    } else {
        let shorter = line.drop_last();
        assert(!has_char(shorter, '\n')) by {
            if has_char(shorter, '\n') {
                let i = choose|i: int| 0 <= i < shorter.len() && #[trigger] shorter[i] == '\n';
                assert(line[i] == '\n');
            }
        }
        lemma_pieces_behind(text, shorter);
        assert((text + line).drop_last() =~= text + shorter);
        assert((text + line).last() == line.last());
        assert(line[line.len() - 1] != '\n');
        assert(shorter.push(line.last()) =~= line);
        assert(pieces(text + line, '\n') =~= parts.drop_last().push(line));
    }
}

/// What stands before the first separator ends right there.
pub proof fn law_before_first_at(text: Seq<char>, separator: char, n: int)
    requires
        0 <= n <= text.len(),
        forall|i: int| 0 <= i < n ==> #[trigger] text[i] != separator,
        n == text.len() || text[n] == separator,
    ensures
        before_first(text, separator) == text.take(n),
{
    lemma_before_first_at(text, separator, n);
}

/// Lower case changes the letters from A to Z to those from a to z, character by character, and leaves
/// everything else as it is.
pub proof fn law_lower_case_changes_letters_only(text: Seq<char>, i: int)
    requires
        0 <= i < text.len(),
    ensures
        lowered(text).len() == text.len(),
        'A' <= text[i] <= 'Z' ==> lowered(text)[i] as u32 == text[i] as u32 + 32,
        !('A' <= text[i] <= 'Z') ==> lowered(text)[i] == text[i],
{
}

/// A part is found wherever it stands, and a text begins and ends with what stands there.
pub proof fn law_parts_are_found(front: Seq<char>, part: Seq<char>, behind: Seq<char>)
    ensures
        contains_text(front + part + behind, part),
        begins(part + behind, part),
        ends(front + part, part),
        contains_text(front, part) ==> exists|at: int|
            0 <= at && at + part.len() <= front.len() && #[trigger] front.subrange(
                at,
                at + part.len(),
            ) == part,
{
    let at = front.len() as int;
    let whole = front + part + behind;
    assert(whole.subrange(at, at + part.len()) =~= part);
    assert(stands_at(whole, part, at));
    assert((part + behind).subrange(0, part.len() as int) =~= part);
    assert((front + part).subrange(at, at + part.len()) =~= part);
    if contains_text(front, part) {
        let k = choose|k: int| stands_at(front, part, k);
        assert(front.subrange(k, k + part.len()) == part);
    }
}

} // verus!
