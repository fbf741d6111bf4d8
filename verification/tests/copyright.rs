use regex::Regex;
use xpic::Copyright;

#[test]
fn copyright_extraction() {
    assert_eq!(
        Copyright::parse("Sunrise over the bay (© Jane Doe)"),
        Some(Copyright {
            description: "Sunrise over the bay".to_string(),
            copyright: "© Jane Doe".to_string(),
        })
    );
    assert_eq!(Copyright::parse("No parens here"), None);
}

#[test]
fn copyright_takes_the_last_group() {
    let parsed = Copyright::parse("Lake (north shore) at dawn (© A. B./Agency)").unwrap();
    assert_eq!(parsed.description, "Lake (north shore) at dawn");
    assert_eq!(parsed.copyright, "© A. B./Agency");
}

#[test]
fn copyright_needs_the_group_at_the_end() {
    assert_eq!(Copyright::parse("Lake (© A) at dawn"), None);
    assert_eq!(Copyright::parse("Lake (© A) "), None);
    assert_eq!(Copyright::parse("Lake © A)"), None);
    assert_eq!(Copyright::parse("Lake (© A"), None);
    assert_eq!(Copyright::parse(""), None);
    assert_eq!(Copyright::parse(")"), None);
}

#[test]
fn copyright_trims_the_description_only() {
    let parsed = Copyright::parse(" \t Lake \u{3000}\n( © A )").unwrap();
    assert_eq!(parsed.description, "Lake");
    assert_eq!(parsed.copyright, " © A ");
    let parsed = Copyright::parse("()").unwrap();
    assert_eq!(parsed, Copyright::default());
}

#[test]
fn copyright_agrees_with_the_pattern_of_the_grammar() {
    let pattern = Regex::new(r"(?s)^(.*)\(([^(]*)\)$").unwrap();
    let pieces = [
        "", " ", "a", "(", ")", "(b)", " (c) ", "\n", "\t(d)", "\u{a0}", "\u{2003}e ", "f (g",
        "h) i", "((", "))", "( )",
    ];
    let mut read = 0;
    for a in pieces {
        for b in pieces {
            for c in pieces {
                let text = format!("{a}{b}{c}");
                let expected = pattern.captures(&text).map(|captures| Copyright {
                    description: captures[1].trim().to_string(),
                    copyright: captures[2].to_string(),
                });
                assert_eq!(Copyright::parse(&text), expected, "{text:?}");
                if expected.is_some() {
                    read += 1;
                }
            }
        }
    }
    assert!(read > 500, "{read}");
}
