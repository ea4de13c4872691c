//! 64-bit numbers in configuration files: a number, or a decimal or hexadecimal string.

use vstd::prelude::*;
use vstd::string::*;

verus! {

/// The value of a digit, up to `f` in either case.
pub open spec fn digit_value(c: char) -> Option<nat> {
    if '0' <= c <= '9' {
        Some((c as int - '0' as int) as nat)
    } else if 'a' <= c <= 'f' {
        Some((c as int - 'a' as int + 10) as nat)
    } else if 'A' <= c <= 'F' {
        Some((c as int - 'A' as int + 10) as nat)
    } else {
        None
    }
}

/// Whether `c` is a digit of a numeral to base `radix`.
pub open spec fn is_digit(c: char, radix: nat) -> bool {
    digit_value(c) matches Some(value) && value < radix
}

/// Whether `text` is a numeral to base `radix`: digits, and at least one.
pub open spec fn is_numeral(text: Seq<char>, radix: nat) -> bool {
    text.len() > 0 && forall|i: int| 0 <= i < text.len() ==> is_digit(#[trigger] text[i], radix)
}

/// The value of a numeral to base `radix`.
pub open spec fn numeral_value(text: Seq<char>, radix: nat) -> nat
    decreases text.len(),
{
    if text.len() == 0 {
        0
    } else {
        numeral_value(text.drop_last(), radix) * radix + digit_value(text.last()).unwrap()
    }
}

/// `text` without one leading plus sign.
pub open spec fn without_plus(text: Seq<char>) -> Seq<char> {
    if text.len() > 0 && text[0] == '+' {
        text.skip(1)
    } else {
        text
    }
}

/// The number that `text` spells to base `radix`, with an optional plus sign, if it spells one
/// and 64 bits hold it.
pub open spec fn parsed(text: Seq<char>, radix: nat) -> Option<u64> {
    let digits = without_plus(text);
    if is_numeral(digits, radix) && numeral_value(digits, radix) <= u64::MAX {
        Some(numeral_value(digits, radix) as u64)
    } else {
        None
    }
}

/// Whether `text` starts with `0x`.
pub open spec fn has_hex_prefix(text: Seq<char>) -> bool {
    text.len() >= 2 && text[0] == '0' && text[1] == 'x'
}

/// A string that is not the number that it should be.
#[derive(Clone, Copy, Debug, PartialEq, Eq, Structural)]
pub enum InvalidU64 {
    /// What follows `0x` is not a valid hexadecimal number of 64 bits.
    Hexadecimal,
    /// The string is not a valid decimal number of 64 bits.
    Decimal,
}

/// The number that a string in a configuration file stands for.
pub open spec fn string_value(text: Seq<char>) -> Result<u64, InvalidU64> {
    if has_hex_prefix(text) {
        match parsed(text.skip(2), 16) {
            Some(value) => Ok(value),
            None => Err(InvalidU64::Hexadecimal),
        }
    } else {
        match parsed(text, 10) {
            Some(value) => Ok(value),
            None => Err(InvalidU64::Decimal),
        }
    }
}

/// What a configuration file gives for a number.
#[derive(Debug)]
pub enum NumberOrStr {
    /// A number.
    Number(u64),
    /// A string.
    Str(String),
}

/// The number that a configuration file gives, as a number or as a string.
pub open spec fn given_value(given: NumberOrStr) -> Result<u64, InvalidU64> {
    match given {
        NumberOrStr::Number(number) => Ok(number),
        NumberOrStr::Str(text) => string_value(text@),
    }
}

/// Returns the value of a digit.
fn digit(c: char) -> (value: Option<u64>)
    ensures
        match value {
            Some(value) => digit_value(c) == Some(value as nat),
            None => digit_value(c) is None,
        },
        value matches Some(value) ==> value < 16,
{
    if '0' <= c && c <= '9' {
        Some((c as u32 - '0' as u32) as u64)
    } else if 'a' <= c && c <= 'f' {
        Some((c as u32 - 'a' as u32 + 10) as u64)
    } else if 'A' <= c && c <= 'F' {
        Some((c as u32 - 'A' as u32 + 10) as u64)
    } else {
        None
    }
}

/// The value of a numeral is no less than the value of what it starts with.
proof fn lemma_prefix_value(text: Seq<char>, radix: nat, end: int)
    requires
        radix > 0,
        0 <= end <= text.len(),
    ensures
        numeral_value(text.take(end), radix) <= numeral_value(text, radix),
    decreases text.len(),
{
    if end == text.len() {
        assert(text.take(end) =~= text);
    } else {
        let rest = text.drop_last();
        lemma_prefix_value(rest, radix, end);
        assert(rest.take(end) =~= text.take(end));
        assert(numeral_value(rest, radix) * radix >= numeral_value(rest, radix))
            by (nonlinear_arith)
            requires
                radix > 0,
        ;
    }
}

/// Reads the digits of `text` from `start` on as a numeral to base `radix`.
fn parse_digits(text: &Vec<char>, start: usize, radix: u64) -> (value: Option<u64>)
    requires
        start <= text@.len(),
        2 <= radix <= 16,
    ensures
        ({
            let digits = text@.skip(start as int);
            value == if is_numeral(digits, radix as nat) && numeral_value(digits, radix as nat)
                <= u64::MAX {
                Some(numeral_value(digits, radix as nat) as u64)
            } else {
                None
            }
        }),
{
    let ghost digits = text@.skip(start as int);
    let count: usize = text.len();
    if start >= count {
        return None;
    }
    let mut total: u64 = 0;
    let mut at: usize = start;
    while at < count
        invariant
            count == text@.len(),
            start <= at <= count,
            start < count,
            2 <= radix <= 16,
            digits == text@.skip(start as int),
            forall|i: int| 0 <= i < at - start ==> is_digit(#[trigger] digits[i], radix as nat),
            total == numeral_value(digits.take(at - start), radix as nat),
        decreases count - at,
    {
        let c: char = text[at];
        let ghost longer = digits.take(at - start + 1);
        proof {
            assert(digits[at - start] == c);
            assert(longer.drop_last() =~= digits.take(at - start));
            assert(longer.last() == c);
            lemma_prefix_value(digits, radix as nat, at - start + 1);
        }
        let value: u64 = match digit(c) {
            Some(value) => value,
            None => {
                assert(!is_digit(digits[at - start], radix as nat));
                return None;
            },
        };
        if value >= radix {
            assert(!is_digit(digits[at - start], radix as nat));
            return None;
        }
        let scaled: u64 = match total.checked_mul(radix) {
            Some(scaled) => scaled,
            None => {
                return None;
            },
        };
        total =
        match scaled.checked_add(value) {
            Some(total) => total,
            None => {
                return None;
            },
        };
        at = at + 1;
    }
    assert(digits.take(count - start) =~= digits);
    Some(total)
}

/// Returns the characters of a string.
fn characters(text: &str) -> (chars: Vec<char>)
    ensures
        chars@ == text@,
{
    let mut chars: Vec<char> = Vec::new();
    for c in walk: text.chars()
        invariant
            chars@ == walk.seq().take(walk.index() as int),
            walk.seq() == text@,
    {
        chars.push(c);
        assert(chars@ =~= walk.seq().take(walk.index() + 1));
    }
    assert(chars@ =~= text@);
    chars
}

/// Reads `text` from `start` on as a number to base `radix`, with an optional plus sign.
fn parse_radix(text: &Vec<char>, start: usize, radix: u64) -> (value: Option<u64>)
    requires
        start <= text@.len(),
        2 <= radix <= 16,
    ensures
        value == parsed(text@.skip(start as int), radix as nat),
{
    if start < text.len() && text[start] == '+' {
        assert(text@.skip(start as int).skip(1) =~= text@.skip(start + 1));
        parse_digits(text, start + 1, radix)
    } else {
        parse_digits(text, start, radix)
    }
}

/// Reads a number that a configuration file gives as a number or as a string. A string is
/// hexadecimal if it starts with `0x` and decimal otherwise.
pub fn deserialize_u64_from_number_or_str(given: &NumberOrStr) -> (value: Result<u64, InvalidU64>)
    ensures
        value == match *given {
            NumberOrStr::Number(number) => Ok(number),
            NumberOrStr::Str(text) => string_value(text@),
        },
        value == given_value(*given),
{
    match given {
        NumberOrStr::Number(number) => Ok(*number),
        NumberOrStr::Str(text) => {
            let chars: Vec<char> = characters(text.as_str());
            if chars.len() >= 2 && chars[0] == '0' && chars[1] == 'x' {
                match parse_radix(&chars, 2, 16) {
                    Some(value) => Ok(value),
                    None => Err(InvalidU64::Hexadecimal),
                }
            } else {
                assert(chars@.skip(0) =~= chars@);
                match parse_radix(&chars, 0, 10) {
                    Some(value) => Ok(value),
                    None => Err(InvalidU64::Decimal),
                }
            }
        },
    }
}

/// The hexadecimal digit of a value, in lower case.
pub open spec fn hex_digit(value: nat) -> char {
    if value < 10 {
        ('0' as int + value) as char
    } else {
        ('a' as int + value - 10) as char
    }
}

/// The hexadecimal numeral of a value, in lower case and without leading zeros.
pub open spec fn hex_numeral(value: nat) -> Seq<char>
    decreases value,
{
    if value < 16 {
        seq![hex_digit(value)]
    } else {
        hex_numeral(value / 16).push(hex_digit(value % 16))
    }
}

/// The string that a configuration file gives for a number.
pub open spec fn hex_string(value: u64) -> Seq<char> {
    seq!['0', 'x'] + hex_numeral(value as nat)
}

/// Returns the hexadecimal digit of a value.
fn hex_digit_str(value: u64) -> (digit: &'static str)
    requires
        value < 16,
    ensures
        digit@ == seq![hex_digit(value as nat)],
{
    proof {
        reveal_strlit("0");
        reveal_strlit("1");
        reveal_strlit("2");
        reveal_strlit("3");
        reveal_strlit("4");
        reveal_strlit("5");
        reveal_strlit("6");
        reveal_strlit("7");
        reveal_strlit("8");
        reveal_strlit("9");
        reveal_strlit("a");
        reveal_strlit("b");
        reveal_strlit("c");
        reveal_strlit("d");
        reveal_strlit("e");
        reveal_strlit("f");
    }
    let digit: &'static str = match value {
        0 => "0",
        1 => "1",
        2 => "2",
        3 => "3",
        4 => "4",
        5 => "5",
        6 => "6",
        7 => "7",
        8 => "8",
        9 => "9",
        10 => "a",
        11 => "b",
        12 => "c",
        13 => "d",
        14 => "e",
        _ => "f",
    };
    assert(digit@ =~= seq![hex_digit(value as nat)]);
    digit
}

/// Appends the hexadecimal numeral of a value.
fn append_hex(text: &mut String, value: u64)
    ensures
        final(text)@ == old(text)@ + hex_numeral(value as nat),
    decreases value,
{
    if value >= 16 {
        append_hex(text, value / 16);
    }
    text.append(hex_digit_str(value % 16));
    assert(text@ =~= old(text)@ + hex_numeral(value as nat));
}

/// Returns the string that a configuration file gives for a number: `0x` and its hexadecimal
/// digits.
pub fn serialize_u64_as_hex(value: &u64) -> (text: String)
    ensures
        text@ == hex_string(*value),
{
    let mut text: String = String::new();
    text.append("0x");
    proof {
        reveal_strlit("0x");
        assert(text@ =~= seq!['0', 'x']);
    }
    append_hex(&mut text, *value);
    text
}

/// A hexadecimal numeral is made of hexadecimal digits and spells its value.
proof fn lemma_hex_numeral(value: nat)
    ensures
        is_numeral(hex_numeral(value), 16),
        numeral_value(hex_numeral(value), 16) == value,
        hex_numeral(value)[0] != '+',
    decreases value,
{
    let text = hex_numeral(value);
    assert(digit_value(hex_digit(value % 16)) == Some(value % 16));
    if value < 16 {
        assert(text.drop_last() =~= Seq::empty());
        assert(numeral_value(text.drop_last(), 16) == 0);
    } else {
        lemma_hex_numeral(value / 16);
        assert(text.drop_last() =~= hex_numeral(value / 16));
    }
}

/// A number is read back from the string that is written for it.
pub proof fn law_hex_string_read_back(value: u64)
    ensures
        string_value(hex_string(value)) == Ok::<u64, InvalidU64>(value),
{
    lemma_hex_numeral(value as nat);
    assert(hex_string(value).skip(2) =~= hex_numeral(value as nat));
}

/// Different numbers are written as different strings.
pub proof fn law_hex_strings_tell_apart(left: u64, right: u64)
    requires
        hex_string(left) == hex_string(right),
    ensures
        left == right,
{
    law_hex_string_read_back(left);
    law_hex_string_read_back(right);
}

/// The hexadecimal digits in small letters, each at the place of its value.
pub open spec fn small_digits() -> Seq<char> {
    seq!['0', '1', '2', '3', '4', '5', '6', '7', '8', '9', 'a', 'b', 'c', 'd', 'e', 'f']
}

/// The hexadecimal digits in capital letters, each at the place of its value.
pub open spec fn capital_digits() -> Seq<char> {
    seq!['0', '1', '2', '3', '4', '5', '6', '7', '8', '9', 'A', 'B', 'C', 'D', 'E', 'F']
}

/// Whether `c` is the hexadecimal digit of `value`, in small or in capital letters.
pub open spec fn spells(c: char, value: int) -> bool {
    0 <= value < 16 && (c == small_digits()[value] || c == capital_digits()[value])
}

/// A character is a digit of exactly the value that it spells.
pub proof fn law_digit_spells(c: char, value: nat)
    ensures
        digit_value(c) == Some(value) <==> spells(c, value as int),
        digit_value(c) == Some(value) <==> (value < 10 && c as int == 0x30 + value) || (10 <= value
            < 16 && (c as int == 0x61 + value - 10 || c as int == 0x41 + value - 10)),
{
    if value < 16 {
        let small = small_digits()[value as int];
        let capital = capital_digits()[value as int];
        assert(value < 10 ==> small as int == '0' as int + value && capital == small);
        assert(value >= 10 ==> small as int == 'a' as int + value - 10);
        assert(value >= 10 ==> capital as int == 'A' as int + value - 10);
    }
}

/// `text` with every capital hexadecimal digit as a small one.
pub open spec fn with_small_digits(text: Seq<char>) -> Seq<char> {
    text.map_values(
        |c: char|
            if c == 'A' {
                'a'
            } else if c == 'B' {
                'b'
            } else if c == 'C' {
                'c'
            } else if c == 'D' {
                'd'
            } else if c == 'E' {
                'e'
            } else if c == 'F' {
                'f'
            } else {
                c
            },
    )
}

/// The case of its digits changes neither whether a text is a numeral nor its value.
proof fn lemma_numeral_small_digits(text: Seq<char>, radix: nat)
    ensures
        is_numeral(with_small_digits(text), radix) == is_numeral(text, radix),
        numeral_value(with_small_digits(text), radix) == numeral_value(text, radix),
    decreases text.len(),
{
    let small = with_small_digits(text);
    assert forall|i: int| 0 <= i < text.len() implies digit_value(#[trigger] small[i])
        == digit_value(text[i]) by {}
    assert forall|i: int| 0 <= i < text.len() implies is_digit(#[trigger] small[i], radix)
        == is_digit(text[i], radix) by {}
    if is_numeral(text, radix) {
        assert forall|i: int| 0 <= i < small.len() implies is_digit(#[trigger] small[i], radix) by {
            assert(is_digit(text[i], radix));
        }
    }
    if is_numeral(small, radix) {
        assert forall|i: int| 0 <= i < text.len() implies is_digit(#[trigger] text[i], radix) by {
            assert(is_digit(small[i], radix));
        }
    }
    if text.len() > 0 {
        lemma_numeral_small_digits(text.drop_last(), radix);
        assert(small.drop_last() =~= with_small_digits(text.drop_last()));
    }
}

/// A string is read alike in small and in capital letters, and in any mixture of them.
pub proof fn law_reading_ignores_case(left: Seq<char>, right: Seq<char>)
    requires
        with_small_digits(left) == with_small_digits(right),
    ensures
        string_value(left) == string_value(right),
{
    lemma_string_small_digits(left);
    lemma_string_small_digits(right);
}

/// A string is read as it is with small digits.
proof fn lemma_string_small_digits(text: Seq<char>)
    ensures
        string_value(text) == string_value(with_small_digits(text)),
{
    let small = with_small_digits(text);
    assert(has_hex_prefix(small) == has_hex_prefix(text));
    if has_hex_prefix(text) {
        assert(small.skip(2) =~= with_small_digits(text.skip(2)));
        lemma_parsed_small_digits(text.skip(2), 16);
    } else {
        lemma_parsed_small_digits(text, 10);
    }
}

/// A number is read as it is with small digits.
proof fn lemma_parsed_small_digits(text: Seq<char>, radix: nat)
    ensures
        parsed(text, radix) == parsed(with_small_digits(text), radix),
{
    let small = with_small_digits(text);
    assert(without_plus(small) =~= with_small_digits(without_plus(text)));
    lemma_numeral_small_digits(without_plus(text), radix);
}

/// A number is read back from the string that is written for it, whichever of its digits are
/// put in capital letters.
pub proof fn law_hex_string_read_back_in_any_case(value: u64, text: Seq<char>)
    requires
        with_small_digits(text) == with_small_digits(hex_string(value)),
    ensures
        string_value(text) == Ok::<u64, InvalidU64>(value),
{
    law_reading_ignores_case(text, hex_string(value));
    law_hex_string_read_back(value);
}

/// A numeral with one digit more: `c` spells the rest of its value, and what stands before it
/// the quotient.
proof fn lemma_parsed_push(text: Seq<char>, c: char, radix: nat, value: u64)
    requires
        radix == 10 || radix == 16,
    ensures
        parsed(text.push(c), radix) == Some(value) <==> digit_value(c) == Some(
            value as nat % radix,
        ) && if text.len() == 0 || text == seq!['+'] {
            value < radix
        } else {
            parsed(text, radix) == Some((value as nat / radix) as u64)
        },
{
    let longer = without_plus(text.push(c));
    if c == '+' && text.len() == 0 {
        assert(longer =~= Seq::empty());
    } else {
        let digits = without_plus(text);
        assert(longer =~= digits.push(c));
        assert(longer.drop_last() =~= digits);
        assert(longer.last() == c);
        assert(text == seq!['+'] <==> text.len() > 0 && digits.len() == 0) by {
            if text.len() > 0 && digits.len() == 0 {
                assert(text =~= seq!['+']);
            }
        }
        assert(is_numeral(longer, radix) <==> is_digit(c, radix) && (digits.len() == 0
            || is_numeral(digits, radix))) by {
            if is_numeral(longer, radix) {
                assert(is_digit(longer[digits.len() as int], radix));
                assert forall|i: int| 0 <= i < digits.len() implies is_digit(
                    #[trigger] digits[i],
                    radix,
                ) by {
                    assert(is_digit(longer[i], radix));
                }
            }
        }
        if is_digit(c, radix) {
            let low = digit_value(c).unwrap();
            let high = numeral_value(digits, radix);
            assert(numeral_value(longer, radix) == high * radix + low);
            if radix == 10 {
                assert((high * 10 + low) / 10 == high && (high * 10 + low) % 10 == low);
            } else {
                assert((high * 16 + low) / 16 == high && (high * 16 + low) % 16 == low);
            }
        }
    }
}

/// Behind `0x`, a string stands for a number exactly if its last character is the digit of the
/// number modulo sixteen and what stands before it, if there is anything but a plus sign, stands
/// for a sixteenth of the number.
pub proof fn law_hexadecimal_digit_by_digit(digits: Seq<char>, c: char, value: u64)
    ensures
        string_value(seq!['0', 'x'] + digits.push(c)) == Ok::<u64, InvalidU64>(value) <==> spells(
            c,
            value as int % 16,
        ) && if digits.len() == 0 || digits == seq!['+'] {
            value < 16
        } else {
            string_value(seq!['0', 'x'] + digits) == Ok::<u64, InvalidU64>(value / 16)
        },
{
    assert((seq!['0', 'x'] + digits.push(c)).skip(2) =~= digits.push(c));
    assert((seq!['0', 'x'] + digits).skip(2) =~= digits);
    lemma_parsed_push(digits, c, 16, value);
    law_digit_spells(c, value as nat % 16);
}

/// Without `0x` before it, a string stands for a number exactly if its last character is the
/// decimal digit of the number modulo ten and what stands before it, if there is anything but a
/// plus sign, stands for a tenth of the number.
pub proof fn law_decimal_digit_by_digit(text: Seq<char>, c: char, value: u64)
    requires
        !(text.len() >= 2 && text[0] == '0' && text[1] == 'x'),
    ensures
        string_value(text.push(c)) == Ok::<u64, InvalidU64>(value) <==> spells(
            c,
            value as int % 10,
        ) && if text.len() == 0 || text == seq!['+'] {
            value < 10
        } else {
            string_value(text) == Ok::<u64, InvalidU64>(value / 10)
        },
{
    lemma_parsed_push(text, c, 10, value);
    law_digit_spells(c, value as nat % 10);
    if text.len() == 1 && text[0] == '0' && c == 'x' {
        assert(text.push(c).skip(2) =~= Seq::empty());
    }
}

/// A string is refused as hexadecimal exactly if `0x` stands before it, and as decimal exactly
/// if not; with no digits at all it is refused.
pub proof fn law_refused_strings(text: Seq<char>)
    ensures
        string_value(text) is Err ==> string_value(text) == Err::<u64, InvalidU64>(
            if text.len() >= 2 && text[0] == '0' && text[1] == 'x' {
                InvalidU64::Hexadecimal
            } else {
                InvalidU64::Decimal
            },
        ),
        text.len() == 0 || text == seq!['+'] || text == seq!['0', 'x'] || text == seq![
            '0',
            'x',
            '+',
        ] ==> string_value(text) is Err,
{
    if text == seq!['+'] {
        assert(text.skip(1) =~= Seq::empty());
    }
    if text == seq!['0', 'x'] {
        assert(text.skip(2) =~= Seq::empty());
    }
    if text == seq!['0', 'x', '+'] {
        assert(text.skip(2).skip(1) =~= Seq::empty());
    }
}

/// The string that is written for a number is `0x` and its digit if it has one, and else the
/// string of a sixteenth of it and the digit of what is left: small letters, and no zero in
/// front.
pub proof fn law_hex_string_digit_by_digit(value: u64)
    ensures
        value < 16 ==> hex_string(value) == seq!['0', 'x', small_digits()[value as int]],
        value >= 16 ==> hex_string(value) == hex_string(value / 16).push(
            small_digits()[value as int % 16],
        ),
{
    let low = value as nat % 16;
    assert(hex_digit(low) == small_digits()[low as int]) by {
        assert(low < 10 ==> small_digits()[low as int] as int == '0' as int + low);
        assert(low >= 10 ==> small_digits()[low as int] as int == 'a' as int + low - 10);
    }
    if value < 16 {
        assert(hex_string(value) =~= seq!['0', 'x', small_digits()[value as int]]);
    } else {
        assert(hex_string(value) =~= hex_string(value / 16).push(small_digits()[low as int]));
    }
}

/// A number is read as itself, and it does not matter whether a configuration file gives it as a
/// number or as the string that is written for it.
pub proof fn law_number_or_string(value: u64, text: String)
    ensures
        given_value(NumberOrStr::Number(value)) == Ok::<u64, InvalidU64>(value),
        given_value(NumberOrStr::Str(text)) == string_value(text@),
        text@ == hex_string(value) ==> given_value(NumberOrStr::Str(text)) == given_value(
            NumberOrStr::Number(value),
        ),
{
    law_hex_string_read_back(value);
}

} // verus!
