use regex::Regex;
use xpic::bing::Market;
use xpic::decimal::{decimal_string, parse_numeral, Number};
use xpic::id::is_word_char;
use xpic::order::{bytes_le, str_le};
use xpic::text::{
    chars_of, find_first, find_last, is_space_char, same_text, string_of, to_ascii_lower,
    to_ascii_upper, trim_bounds,
};

fn every_char() -> impl Iterator<Item = char> {
    (0..=0x10ffff_u32).filter_map(char::from_u32)
}

#[test]
fn white_space_is_the_unicode_property() {
    for c in every_char() {
        assert_eq!(is_space_char(c), c.is_whitespace(), "{c:?}");
    }
}

#[test]
fn ascii_case_of_every_character() {
    for c in every_char() {
        assert_eq!(to_ascii_lower(c), c.to_ascii_lowercase(), "{c:?}");
        assert_eq!(to_ascii_upper(c), c.to_ascii_uppercase(), "{c:?}");
    }
}

#[test]
fn word_characters_are_those_of_the_class() {
    let class = Regex::new(r"^\w$").unwrap();
    let ascii = (0..0x80_u32).filter_map(char::from_u32);
    let sample = (0x80..=0x10ffff_u32).step_by(997).filter_map(char::from_u32);
    let picked = ['é', 'ß', '日', '٣', '\u{300}', '\u{200d}', '‿', '☃', '\u{a0}', '€', '–'];
    for c in ascii.chain(sample).chain(picked) {
        let mut buf = [0u8; 4];
        assert_eq!(is_word_char(c), class.is_match(c.encode_utf8(&mut buf)), "{c:?}");
    }
    assert!(is_word_char('_') && is_word_char('Z') && is_word_char('0') && is_word_char('é'));
    assert!(!is_word_char('-') && !is_word_char('.') && !is_word_char(' ') && !is_word_char('☃'));
}

#[test]
fn market_parse_is_comparison_without_regard_to_ascii_case() {
    let expected = |text: &str| {
        Market::all()
            .iter()
            .copied()
            .find(|market| text.eq_ignore_ascii_case(market.code()))
    };
    let mut found = 0;
    for market in Market::all() {
        let code: Vec<char> = market.code().chars().collect();
        for mask in 0..32_u32 {
            let text: String = code
                .iter()
                .enumerate()
                .map(|(i, c)| {
                    if mask & (1 << i) != 0 {
                        c.to_ascii_uppercase()
                    } else {
                        c.to_ascii_lowercase()
                    }
                })
                .collect();
            assert_eq!(Market::parse(&text), Some(*market), "{text:?}");
            assert_eq!(Market::parse(&text), expected(&text));
            found += 1;
            for broken in [
                format!("{text} "),
                format!(" {text}"),
                text.replace('-', "_"),
                text.replace('-', ""),
                text[1..].to_string(),
                text.replace(&text[..1], "\u{17f}"),
            ] {
                assert_eq!(Market::parse(&broken), expected(&broken), "{broken:?}");
            }
        }
    }
    assert_eq!(found, 38 * 32);
}

#[test]
fn order_of_texts_is_the_order_of_strings() {
    let texts = [
        "", "a", "A", "ab", "b", "aa", "é", "z", "日本", "202401020304", "20240102", "2024010203040",
        "\u{0}", "\u{10ffff}", "\u{7f}", "\u{80}", "\u{7ff}", "\u{800}", "\u{ffff}", "\u{10000}",
    ];
    for a in texts {
        for b in texts {
            assert_eq!(str_le(a, b), a <= b, "{a:?} {b:?}");
            assert_eq!(bytes_le(a.as_bytes(), b.as_bytes()), a.as_bytes() <= b.as_bytes());
        }
    }
    assert!(bytes_le(&[], &[0]) && !bytes_le(&[0], &[]) && bytes_le(&[1, 255], &[2]));
}

#[test]
fn decimal_numerals() {
    for n in [0, 1, 9, 10, 11, 99, 100, 4890007214, u64::MAX - 1, u64::MAX] {
        let text = decimal_string(n);
        assert_eq!(text, n.to_string());
        let digits: Vec<char> = text.chars().collect();
        assert_eq!(parse_numeral(&digits), usize::try_from(n).ok());
    }
    let numeral = |text: &str| parse_numeral(&text.chars().collect::<Vec<char>>());
    assert_eq!(numeral("007"), Some(7));
    assert_eq!(numeral("0000000000000000000000000000000000000012"), Some(12));
    assert_eq!(numeral(""), None);
    assert_eq!(numeral("+1"), None);
    assert_eq!(numeral("1 "), None);
    assert_eq!(numeral("١"), None);
    assert_eq!(numeral("18446744073709551615"), Some(usize::MAX));
    assert_eq!(numeral("18446744073709551616"), None);
    assert_eq!(numeral("99999999999999999999999999"), None);
}

#[test]
fn texts_and_characters() {
    for text in ["", "a", "héllo wörld", "日本語", "a\u{0}b"] {
        let chars = chars_of(text);
        assert_eq!(chars, text.chars().collect::<Vec<char>>());
        assert_eq!(string_of(&chars), text);
        assert!(same_text(text, &string_of(&chars)));
        assert!(!same_text(text, &format!("{text}x")));
    }
    let chars = chars_of("a.b.c");
    assert_eq!(find_first(&chars, '.'), Some(1));
    assert_eq!(find_last(&chars, '.'), Some(3));
    assert_eq!(find_first(&chars, 'x'), None);
    assert_eq!(find_last(&chars, 'x'), None);
    assert_eq!(find_last(&[], 'x'), None);
    for text in ["", " ", "  a  ", "a", "\t\na b\u{3000}", "\u{a0}\u{a0}", " a", "a "] {
        let chars = chars_of(text);
        let (start, end) = trim_bounds(&chars);
        assert_eq!(string_of(&chars[start..end]), text.trim(), "{text:?}");
    }
}

#[test]
fn numbers_of_any_size() {
    for n in [0, 1, 9, 10, 4890007214, u64::MAX] {
        let number = Number::new(n);
        assert_eq!(number.as_str(), n.to_string());
        assert_eq!(Number::parse(&n.to_string()), Some(number.clone()));
        assert_eq!(Number::parse(&format!("000{n}")), Some(number.clone()));
        assert_eq!(number.to_usize(), usize::try_from(n).ok());
    }
    assert_eq!(Number::default(), Number::new(0));
    assert_eq!(Number::parse("0000"), Some(Number::new(0)));
    assert_eq!(Number::parse("0100").unwrap().as_str(), "100");
    let big = Number::parse("00123456789012345678901234567890").unwrap();
    assert_eq!(big.as_str(), "123456789012345678901234567890");
    assert_eq!(big.to_usize(), None);
    assert_ne!(big, Number::parse("123456789012345678901234567891").unwrap());
    for text in ["", "+1", "-1", "1 ", " 1", "1a", "\u{663}", "1_0", "1.0"] {
        assert_eq!(Number::parse(text), None, "{text:?}");
    }
    let digits: Vec<char> = "007".chars().collect();
    assert_eq!(Number::from_digits(&digits), Some(Number::new(7)));
    assert_eq!(Number::from_digits(&[]), None);
}
