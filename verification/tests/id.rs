use regex::Regex;
use xpic::bing::Market;
use xpic::decimal::Number;
use xpic::ID;

#[test]
fn test_id() {
    let test_cases = vec![
        (
            "OHR.YosemiteFirefall_ROW8895162487_1920x1080.jpg",
            ID {
                name: "YosemiteFirefall".to_string(),
                market: None,
                number: Number::new(8895162487),
                width: Some(Number::new(1920)),
                height: Some(Number::new(1080)),
                extension: "jpg".to_string(),
                ..Default::default()
            },
        ),
        (
            "OHR.HalfDomeYosemite_EN-US4890007214_UHD.jpg",
            ID {
                name: "HalfDomeYosemite".to_string(),
                market: Some(Market::EN_US),
                number: Number::new(4890007214),
                uhd: true,
                extension: "jpg".to_string(),
                ..Default::default()
            },
        ),
    ];

    for (id, expected) in test_cases {
        let parsed = ID::parse(id).expect("failed to parse id");
        assert_eq!(parsed, expected);
        assert_eq!(parsed.to_string(), id);
    }
}

#[test]
fn id_rejects_text_outside_the_grammar() {
    for text in [
        "",
        "OHR.",
        "OHR.Name_ROW1_UHD",
        "OHR.Name_ROW_UHD.jpg",
        "OHR.Name_ROW1_UHD.",
        "OHR._ROW1_UHD.jpg",
        "OHR.Name_ROW1_12x.jpg",
        "OHR.Name_ROW1_x12.jpg",
        "OHR.Name_ROW1_uhd.jpg",
        "OHR.Name_EN-US_UHD.jpg",
        "OHR.Name_E-US1_UHD.jpg",
        "OHR.NameEN-US1_UHD.jpg",
        "OHR.Na-me_EN-US1_UHD.jpg",
        "OHR.Name_EN-US1_UHD.j.pg",
        "ohr.Name_EN-US1_UHD.jpg",
        "xOHR.Name_EN-US1_UHD.jpg",
        "OHR.Name_EN-US1_UHD.jpg\n",
    ] {
        assert_eq!(ID::parse(text), None, "{text:?}");
    }
}

#[test]
fn id_market_token_is_read_without_regard_to_case() {
    let id = ID::parse("OHR.Name_zh-cn7_UHD.jpg").unwrap();
    assert_eq!(id.market, Some(Market::ZH_CN));
    assert_eq!(id.format().unwrap(), "OHR.Name_ZH-CN7_UHD.jpg");
}

#[test]
fn id_unknown_market_token_gives_no_market() {
    let id = ID::parse("OHR.Name_XX-YY7_UHD.jpg").unwrap();
    assert_eq!(id.market, None);
    assert_eq!(id.name, "Name");
    assert_eq!(id.number, Number::new(7));
    assert_eq!(id.format().unwrap(), "OHR.Name_ROW7_UHD.jpg");
}

#[test]
fn id_name_may_hold_underscores_and_digits() {
    let id = ID::parse("OHR.A_ROW1_b2_ROW34_3840x2160.webp").unwrap();
    assert_eq!(id.name, "A_ROW1_b2");
    assert_eq!(id.market, None);
    assert_eq!(id.number, Number::new(34));
    assert_eq!(id.width, Some(Number::new(3840)));
    assert_eq!(id.height, Some(Number::new(2160)));
    assert_eq!(id.extension, "webp");
}

#[test]
fn id_market_token_may_end_in_digits() {
    let id = ID::parse("OHR.A_EN-1234_UHD.jpg").unwrap();
    assert_eq!(id.market, None);
    assert_eq!(id.number, Number::new(34));
}

#[test]
fn id_leading_zeros_are_read_and_not_written() {
    let id = ID::parse("OHR.A_ROW007_UHD.jpg").unwrap();
    assert_eq!(id.number, Number::new(7));
    assert_eq!(id.format().unwrap(), "OHR.A_ROW7_UHD.jpg");
}

#[test]
fn id_word_characters_beyond_ascii() {
    let id = ID::parse("OHR.Café_ROW1_UHD.jpg").unwrap();
    assert_eq!(id.name, "Café");
    assert_eq!(ID::parse("OHR.Caf☃_ROW1_UHD.jpg"), None);
    assert_eq!(ID::parse("OHR.Caf\u{a0}_ROW1_UHD.jpg"), None);
}

#[test]
fn id_format_needs_a_size() {
    let id = ID {
        name: "A".to_string(),
        number: Number::new(1),
        width: Some(Number::new(10)),
        extension: "jpg".to_string(),
        ..Default::default()
    };
    assert_eq!(id.format(), None);
    let id = ID { uhd: true, ..id };
    assert_eq!(id.format().unwrap(), "OHR.A_ROW1_UHD.jpg");
    let id = ID { uhd: false, height: Some(Number::new(0)), ..id };
    assert_eq!(id.format().unwrap(), "OHR.A_ROW1_10x0.jpg");
}

#[test]
fn id_round_trip_from_value() {
    for market in Market::all() {
        for (uhd, width, height) in [
            (true, None, None),
            (false, Some(Number::new(1)), Number::parse("340282366920938463463374607431768211456")),
        ] {
            let id = ID {
                name: "Some_Name9".to_string(),
                market: Some(*market),
                number: Number::new(10200),
                uhd,
                width,
                height,
                extension: "jpg".to_string(),
            };
            assert_eq!(ID::parse(&id.format().unwrap()), Some(id));
        }
    }
}

/// What the pattern of the grammar makes of a text.
fn by_pattern(pattern: &Regex, text: &str) -> Option<ID> {
    let captures = pattern.captures(text)?;
    let uhd = captures.name("uhd").is_some();
    // A numeral is read whatever the size of its number; its digits are ASCII.
    let number = |name: &str| Number::parse(captures.name(name)?.as_str());
    Some(ID {
        name: captures["name"].to_string(),
        market: Market::parse(&captures["market"]),
        number: number("number")?,
        uhd,
        width: if uhd { None } else { Some(number("width")?) },
        height: if uhd { None } else { Some(number("height")?) },
        extension: captures["extension"].to_string(),
    })
}

#[test]
fn id_agrees_with_the_pattern_of_the_grammar() {
    let pattern = Regex::new(
        r"^OHR\.(?P<name>\w+)_(?P<market>ROW|\w{2}-\w{2})(?P<number>\d+)_((?P<width>\d+)x(?P<height>\d+)|(?P<uhd>UHD))\.(?P<extension>\w+)$",
    )
    .unwrap();
    let parts: [&[&str]; 9] = [
        &["OHR.", "ohr.", "OHR", "OHR..", "xOHR.", " OHR.", ""],
        &[
            "Name", "a_b", "A_ROW1", "A_ROW1_UHD", "x-y", "Caf\u{e9}", "\u{65e5}\u{672c}", "",
            "A.B", "_", "9", "A B", "A_EN-US2", "A\n",
        ],
        &["_", "", "__", "-", "."],
        &[
            "ROW", "EN-US", "en-us", "zh-CN", "XX-YY", "E1-2_", "ROW1", "row", "E-US", "ENG-US",
            "\u{663}\u{663}-\u{663}\u{663}", "EN_US", "EN-U", "RO-W1", "", "EN--US", "ROWROW",
        ],
        &[
            "1", "007", "", "0", "\u{663}", "1\u{663}", "18446744073709551615",
            "18446744073709551616", "1a", "+1", "-1", "1_2",
        ],
        &["_", "", "__", "x"],
        &[
            "UHD", "1x1", "1920x1080", "0x0", "x", "1x", "x1", "uhd", "1X1", "\u{663}x\u{663}",
            "1x1x1", "UHD1", "1UHD", "18446744073709551616x1", "1x18446744073709551616",
            "007x08", "1_1", "",
        ],
        &[".", "", "..", "_"],
        &["jpg", "", "j.p", "\u{e9}", "j-p", "JPG_1", "jpg\n", "jpg ", "j/p"],
    ];
    let mut tried = 0;
    let mut read = 0;
    for first in 0..parts.len() {
        for second in first..parts.len() {
            for a in parts[first] {
                for b in parts[second] {
                    let text: String = (0..parts.len())
                        .map(|i| {
                            if i == first {
                                a
                            } else if i == second {
                                b
                            } else {
                                parts[i][0]
                            }
                        })
                        .collect();
                    let expected = by_pattern(&pattern, &text);
                    assert_eq!(ID::parse(&text), expected, "{text:?}");
                    tried += 1;
                    if let Some(id) = expected {
                        read += 1;
                        // What was read is written down as a text that is
                        // read as the same value, and written the same again.
                        let written = id.to_string();
                        assert_eq!(ID::parse(&written).as_ref(), Some(&id), "{text:?}");
                        assert_eq!(ID::parse(&written).unwrap().to_string(), written);
                    }
                }
            }
        }
    }
    assert!(tried > 3000 && read > 300 && read < tried / 2, "{tried} {read}");
}

#[test]
fn id_numbers_of_any_size() {
    let digits = "340282366920938463463374607431768211456";
    let id = ID::parse(&format!("OHR.A_ROW{digits}_UHD.jpg")).unwrap();
    assert_eq!(id.number.as_str(), digits);
    assert_eq!(id.number.to_usize(), None);
    assert_eq!(id.to_string(), format!("OHR.A_ROW{digits}_UHD.jpg"));
    let id = ID::parse("OHR.A_ROW100000000000000000000_00018446744073709551616x0.jpg").unwrap();
    assert_eq!(id.number, Number::parse("100000000000000000000").unwrap());
    assert_eq!(id.width.as_ref().unwrap().as_str(), "18446744073709551616");
    assert_eq!(id.height, Some(Number::new(0)));
    assert_eq!(
        id.to_string(),
        "OHR.A_ROW100000000000000000000_18446744073709551616x0.jpg"
    );
    let id = ID::parse("OHR.A_ROW18446744073709551615_UHD.jpg").unwrap();
    assert_eq!(id.number, Number::new(u64::MAX));
    assert_eq!(id.number.to_usize(), Some(usize::MAX));
}
