use vmm::number::{
    deserialize_u64_from_number_or_str, serialize_u64_as_hex, InvalidU64, NumberOrStr,
};

fn read(text: &str) -> Result<u64, InvalidU64> {
    deserialize_u64_from_number_or_str(&NumberOrStr::Str(text.to_string()))
}

#[test]
fn numbers_are_taken_as_they_are() {
    assert_eq!(deserialize_u64_from_number_or_str(&NumberOrStr::Number(0)), Ok(0));
    assert_eq!(
        deserialize_u64_from_number_or_str(&NumberOrStr::Number(u64::MAX)),
        Ok(u64::MAX)
    );
}

#[test]
fn decimal_strings() {
    assert_eq!(read("0"), Ok(0));
    assert_eq!(read("4096"), Ok(4096));
    assert_eq!(read("007"), Ok(7));
    assert_eq!(read("+12"), Ok(12));
    assert_eq!(read("18446744073709551615"), Ok(u64::MAX));
    assert_eq!(read("18446744073709551616"), Err(InvalidU64::Decimal));
    assert_eq!(read("99999999999999999999999"), Err(InvalidU64::Decimal));
    assert_eq!(read(""), Err(InvalidU64::Decimal));
    assert_eq!(read("+"), Err(InvalidU64::Decimal));
    assert_eq!(read("++1"), Err(InvalidU64::Decimal));
    assert_eq!(read("-1"), Err(InvalidU64::Decimal));
    assert_eq!(read(" 1"), Err(InvalidU64::Decimal));
    assert_eq!(read("1_000"), Err(InvalidU64::Decimal));
    assert_eq!(read("1f"), Err(InvalidU64::Decimal));
    assert_eq!(read("0X10"), Err(InvalidU64::Decimal));
    assert_eq!(read("\u{664}"), Err(InvalidU64::Decimal));
}

#[test]
fn hexadecimal_strings() {
    assert_eq!(read("0x0"), Ok(0));
    assert_eq!(read("0x1000"), Ok(4096));
    assert_eq!(read("0xdeadBEEF"), Ok(0xdead_beef));
    assert_eq!(read("0x+ff"), Ok(255));
    assert_eq!(read("0xffffffffffffffff"), Ok(u64::MAX));
    assert_eq!(read("0x00000000000000000001"), Ok(1));
    assert_eq!(read("0x10000000000000000"), Err(InvalidU64::Hexadecimal));
    assert_eq!(read("0x"), Err(InvalidU64::Hexadecimal));
    assert_eq!(read("0x+"), Err(InvalidU64::Hexadecimal));
    assert_eq!(read("0x0x1"), Err(InvalidU64::Hexadecimal));
    assert_eq!(read("0xg"), Err(InvalidU64::Hexadecimal));
    assert_eq!(read("0x-1"), Err(InvalidU64::Hexadecimal));
}

#[test]
fn strings_agree_with_the_standard_library() {
    let parts = ["", "0", "9", "a", "F", "g", "+", "-", "0x", "x", "18446744073709551615", "\u{e9}"];
    for first in parts {
        for second in parts {
            for third in parts {
                let text = format!("{first}{second}{third}");
                let expected = match text.strip_prefix("0x") {
                    Some(hex) => {
                        u64::from_str_radix(hex, 16).map_err(|_| InvalidU64::Hexadecimal)
                    }
                    None => text.parse::<u64>().map_err(|_| InvalidU64::Decimal),
                };
                assert_eq!(read(&text), expected, "{text:?}");
            }
        }
    }
}

#[test]
fn hexadecimal_is_written() {
    assert_eq!(serialize_u64_as_hex(&0), "0x0");
    assert_eq!(serialize_u64_as_hex(&15), "0xf");
    assert_eq!(serialize_u64_as_hex(&16), "0x10");
    assert_eq!(serialize_u64_as_hex(&0xd000_0000), "0xd0000000");
    assert_eq!(serialize_u64_as_hex(&0x0123_4567_89ab_cdef), "0x123456789abcdef");
    assert_eq!(serialize_u64_as_hex(&u64::MAX), "0xffffffffffffffff");
}

#[test]
fn written_numbers_are_read_back() {
    let mut value: u64 = 1;
    for step in 0..500u64 {
        assert_eq!(serialize_u64_as_hex(&value), format!("{value:#x}"));
        assert_eq!(read(&serialize_u64_as_hex(&value)), Ok(value));
        value = value.wrapping_mul(6364136223846793005).wrapping_add(step) >> (step % 7);
    }
}
