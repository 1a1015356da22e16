use lqos_control::byte_size::{format_bytes, gib, kib, mib};
use lqos_control::decimal::{format_signed, format_unsigned, parse_i32, parse_u64, NumberError};
use lqos_control::text::{
    chars_of, first_word, is_whitespace, lines, same_text, split_once, string_of, trim,
};

const TEXTS: [&str; 20] = [
    "",
    " ",
    "a",
    "  a b  ",
    "\tpid = 7 \r\n",
    "one\ntwo\nthree",
    "one\r\ntwo\r\n",
    "one\r\n\r\n\ntwo\r",
    "\n",
    "\r\n",
    "\r",
    "a\rb\nc",
    "k=v=w",
    "=",
    "==",
    "key:value",
    ":",
    "\u{a0}caf\u{e9}\u{3000}",
    "\u{200b}x\u{2028}y\u{85}",
    "Threads:\t44",
];

fn collect(v: &[char]) -> String {
    v.iter().collect()
}

#[test]
fn whitespace_agrees_with_std_on_every_character() {
    for code in 0..=0x10FFFFu32 {
        if let Some(c) = char::from_u32(code) {
            assert_eq!(is_whitespace(c), c.is_whitespace(), "U+{code:04X}");
        }
    }
}

#[test]
fn strings_survive_the_conversion_to_characters() {
    for s in TEXTS {
        let expected: Vec<char> = s.chars().collect();
        assert_eq!(chars_of(s), expected);
        assert_eq!(string_of(&chars_of(s)), s);
        assert!(same_text(&chars_of(s), s));
        assert!(!same_text(&chars_of(s), "something else"));
    }
}

#[test]
fn trimming_agrees_with_std() {
    for s in TEXTS {
        assert_eq!(collect(&trim(&chars_of(s))), s.trim());
    }
}

#[test]
fn splitting_into_lines_agrees_with_std() {
    for s in TEXTS {
        let got: Vec<String> = lines(&chars_of(s)).iter().map(|l| collect(l)).collect();
        let expected: Vec<String> = s.lines().map(|l| l.to_string()).collect();
        assert_eq!(got, expected, "{s:?}");
    }
}

#[test]
fn splitting_once_agrees_with_std() {
    for s in TEXTS {
        for c in ['=', ':', ' '] {
            let got = split_once(&chars_of(s), c).map(|(a, b)| (collect(&a), collect(&b)));
            let expected = s
                .split_once(c)
                .map(|(a, b)| (a.to_string(), b.to_string()));
            assert_eq!(got, expected, "{s:?}");
        }
    }
}

#[test]
fn first_word_agrees_with_std() {
    for s in TEXTS {
        let got = first_word(&chars_of(s)).map(|w| collect(&w));
        let expected = s.split_whitespace().next().map(|w| w.to_string());
        assert_eq!(got, expected, "{s:?}");
    }
}

const NUMBERS: [&str; 36] = [
    "",
    "+",
    "-",
    "0",
    "-0",
    "+0",
    "007",
    "7",
    "+7",
    "-7",
    "--7",
    "+-7",
    "7-",
    "7 ",
    " 7",
    "x",
    "1x",
    "2147483647",
    "2147483648",
    "-2147483648",
    "-2147483649",
    "+2147483647",
    "+2147483648",
    "4294967296",
    "18446744073709551615",
    "18446744073709551616",
    "+18446744073709551615",
    "99999999999999999999999999",
    "-99999999999999999999999999",
    "99999999999x",
    "2147483648x",
    "214748364x8",
    "-2147483649x",
    "99999999999999999999x9",
    "\u{661}",
    "1\u{e9}",
];

#[test]
fn reading_i32_agrees_with_std() {
    for s in NUMBERS {
        match (parse_i32(&chars_of(s)), s.parse::<i32>()) {
            (Ok(got), Ok(expected)) => assert_eq!(got, expected),
            (Err(got), Err(expected)) => {
                assert_eq!(got.message(), expected.to_string(), "{s:?}")
            }
            (got, expected) => panic!("{s:?}: {got:?} instead of {expected:?}"),
        }
    }
}

#[test]
fn reading_u64_agrees_with_std() {
    for s in NUMBERS {
        match (parse_u64(&chars_of(s)), s.parse::<u64>()) {
            (Ok(got), Ok(expected)) => assert_eq!(got, expected),
            (Err(got), Err(expected)) => {
                assert_eq!(got.message(), expected.to_string(), "{s:?}")
            }
            (got, expected) => panic!("{s:?}: {got:?} instead of {expected:?}"),
        }
    }
}

#[test]
fn each_number_error_has_its_input() {
    assert_eq!(parse_i32(&chars_of("")), Err(NumberError::Empty));
    assert_eq!(parse_i32(&chars_of("12a")), Err(NumberError::InvalidDigit));
    assert_eq!(
        parse_i32(&chars_of("2147483648")),
        Err(NumberError::PosOverflow)
    );
    assert_eq!(
        parse_i32(&chars_of("-2147483649")),
        Err(NumberError::NegOverflow)
    );
    assert_eq!(parse_u64(&chars_of("-1")), Err(NumberError::InvalidDigit));
}

#[test]
fn written_numbers_read_back() {
    for i in [0, 1, -1, 9, 10, -10, 12345, i32::MAX, i32::MIN] {
        assert_eq!(format_signed(i), i.to_string());
        assert_eq!(parse_i32(&chars_of(&format_signed(i))), Ok(i));
    }
    for n in [0, 9, 10, 99, 100, 1_800_000_000, u64::MAX] {
        assert_eq!(format_unsigned(n as u128), n.to_string());
        assert_eq!(parse_u64(&chars_of(&format_unsigned(n as u128))), Ok(n));
    }
    assert_eq!(format_unsigned(u128::MAX), u128::MAX.to_string());
}

#[test]
fn sizes_are_counted_in_bytes() {
    assert_eq!(kib(15_458_992), 15_830_007_808);
    assert_eq!(mib(2_304), 2_415_919_104);
    assert_eq!(gib(4), 4_294_967_296);
    assert_eq!(kib(u64::MAX / 1024), 18_446_744_073_709_550_592);
}

#[test]
fn sizes_are_printed_in_mib() {
    assert_eq!(format_bytes(0), "0.0 MiB");
    assert_eq!(format_bytes(mib(900)), "900.0 MiB");
    assert_eq!(format_bytes(gib(2)), "2048.0 MiB");
    assert_eq!(format_bytes(mib(1) / 4), "0.2 MiB");
    assert_eq!(format_bytes(mib(3) / 4), "0.8 MiB");
    assert_eq!(format_bytes(u64::MAX), "17592186044416.0 MiB");
}

#[test]
fn printed_sizes_agree_with_double_precision() {
    let expected = |bytes: u64| format!("{:.1} MiB", bytes as f64 / 1_048_576.0);
    for shift in 0..64 {
        let power = 1u64 << shift;
        for delta in [0, 1, 2, 3, 1023, 1024, 1025, 2047, 2048, 2049] {
            for bytes in [power.wrapping_add(delta), power.wrapping_sub(delta)] {
                assert_eq!(format_bytes(bytes), expected(bytes), "{bytes}");
            }
        }
    }
    for quarter in 0..4_000u64 {
        let bytes = quarter * (1 << 18);
        assert_eq!(format_bytes(bytes), expected(bytes), "{bytes}");
    }
    let mut x: u64 = 0x9E37_79B9_7F4A_7C15;
    for i in 0..20_000u32 {
        x = x
            .wrapping_mul(6_364_136_223_846_793_005)
            .wrapping_add(1_442_695_040_888_963_407);
        let bytes = x >> (i % 60);
        assert_eq!(format_bytes(bytes), expected(bytes), "{bytes}");
    }
}

#[test]
fn printed_size_is_the_nearest_tenth() {
    for bytes in [1u64, 52_428, 52_429, 52_430, 1_000_000, 123_456_789] {
        let text = format_bytes(bytes);
        let digits: String = text.chars().filter(|c| c.is_ascii_digit()).collect();
        let tenths: i128 = digits.parse().unwrap();
        let error = 2 * (tenths * 1_048_576 - bytes as i128 * 10);
        assert!(-1_048_576 <= error && error <= 1_048_576, "{text}");
    }
}
