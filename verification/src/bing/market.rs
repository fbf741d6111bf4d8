//! Markets: the locales for which the service publishes a feed.

use crate::text::{ascii_lower, chars_of, to_ascii_lower};
use vstd::prelude::*;

verus! {

/// Market and language codes.
#[allow(non_camel_case_types)]
#[derive(Debug, Clone, Copy, PartialEq, Eq, Hash, Structural)]
pub enum Market {
    DA_DK,
    DE_AT,
    DE_CH,
    DE_DE,
    EN_AU,
    EN_CA,
    EN_GB,
    EN_ID,
    EN_IN,
    EN_MY,
    EN_NZ,
    EN_PH,
    EN_US,
    EN_ZA,
    ES_AR,
    ES_CL,
    ES_ES,
    ES_MX,
    ES_US,
    FI_FI,
    FR_BE,
    FR_CA,
    FR_CH,
    FR_FR,
    IT_IT,
    JA_JP,
    KO_KR,
    NL_BE,
    NL_NL,
    NO_NO,
    PL_PL,
    PT_BR,
    RU_RU,
    SV_SE,
    TR_TR,
    ZH_CN,
    ZH_HK,
    ZH_TW,
}

/// The error of reading a market code that no market has.
#[derive(Debug, Clone, Copy, PartialEq, Eq, Structural)]
pub struct ParseMarketError;

/// Two texts are equal once their ASCII letters are lower-cased.
pub open spec fn eq_ignore_ascii_case(a: Seq<char>, b: Seq<char>) -> bool {
    a.len() == b.len() && forall|i: int|
        0 <= i < a.len() ==> ascii_lower(#[trigger] a[i]) == ascii_lower(b[i])
}

impl Market {
    /// The two letters of the language, in lower case, and the two letters
    /// of the region, in upper case.
    pub open spec fn letters(self) -> (char, char, char, char) {
        match self {
            Market::DA_DK => ('d', 'a', 'D', 'K'),
            Market::DE_AT => ('d', 'e', 'A', 'T'),
            Market::DE_CH => ('d', 'e', 'C', 'H'),
            Market::DE_DE => ('d', 'e', 'D', 'E'),
            Market::EN_AU => ('e', 'n', 'A', 'U'),
            Market::EN_CA => ('e', 'n', 'C', 'A'),
            Market::EN_GB => ('e', 'n', 'G', 'B'),
            Market::EN_ID => ('e', 'n', 'I', 'D'),
            Market::EN_IN => ('e', 'n', 'I', 'N'),
            Market::EN_MY => ('e', 'n', 'M', 'Y'),
            Market::EN_NZ => ('e', 'n', 'N', 'Z'),
            Market::EN_PH => ('e', 'n', 'P', 'H'),
            Market::EN_US => ('e', 'n', 'U', 'S'),
            Market::EN_ZA => ('e', 'n', 'Z', 'A'),
            Market::ES_AR => ('e', 's', 'A', 'R'),
            Market::ES_CL => ('e', 's', 'C', 'L'),
            Market::ES_ES => ('e', 's', 'E', 'S'),
            Market::ES_MX => ('e', 's', 'M', 'X'),
            Market::ES_US => ('e', 's', 'U', 'S'),
            Market::FI_FI => ('f', 'i', 'F', 'I'),
            Market::FR_BE => ('f', 'r', 'B', 'E'),
            Market::FR_CA => ('f', 'r', 'C', 'A'),
            Market::FR_CH => ('f', 'r', 'C', 'H'),
            Market::FR_FR => ('f', 'r', 'F', 'R'),
            Market::IT_IT => ('i', 't', 'I', 'T'),
            Market::JA_JP => ('j', 'a', 'J', 'P'),
            Market::KO_KR => ('k', 'o', 'K', 'R'),
            Market::NL_BE => ('n', 'l', 'B', 'E'),
            Market::NL_NL => ('n', 'l', 'N', 'L'),
            Market::NO_NO => ('n', 'o', 'N', 'O'),
            Market::PL_PL => ('p', 'l', 'P', 'L'),
            Market::PT_BR => ('p', 't', 'B', 'R'),
            Market::RU_RU => ('r', 'u', 'R', 'U'),
            Market::SV_SE => ('s', 'v', 'S', 'E'),
            Market::TR_TR => ('t', 'r', 'T', 'R'),
            Market::ZH_CN => ('z', 'h', 'C', 'N'),
            Market::ZH_HK => ('z', 'h', 'H', 'K'),
            Market::ZH_TW => ('z', 'h', 'T', 'W'),
        }
    }

    /// The code of the market: language, hyphen, region.
    pub open spec fn spec_code(self) -> Seq<char> {
        let l = self.letters();
        seq![l.0, l.1, '-', l.2, l.3]
    }

    /// The position of the market in `spec_all`.
    pub open spec fn index(self) -> int {
        match self {
            Market::DA_DK => 0,
            Market::DE_AT => 1,
            Market::DE_CH => 2,
            Market::DE_DE => 3,
            Market::EN_AU => 4,
            Market::EN_CA => 5,
            Market::EN_GB => 6,
            Market::EN_ID => 7,
            Market::EN_IN => 8,
            Market::EN_MY => 9,
            Market::EN_NZ => 10,
            Market::EN_PH => 11,
            Market::EN_US => 12,
            Market::EN_ZA => 13,
            Market::ES_AR => 14,
            Market::ES_CL => 15,
            Market::ES_ES => 16,
            Market::ES_MX => 17,
            Market::ES_US => 18,
            Market::FI_FI => 19,
            Market::FR_BE => 20,
            Market::FR_CA => 21,
            Market::FR_CH => 22,
            Market::FR_FR => 23,
            Market::IT_IT => 24,
            Market::JA_JP => 25,
            Market::KO_KR => 26,
            Market::NL_BE => 27,
            Market::NL_NL => 28,
            Market::NO_NO => 29,
            Market::PL_PL => 30,
            Market::PT_BR => 31,
            Market::RU_RU => 32,
            Market::SV_SE => 33,
            Market::TR_TR => 34,
            Market::ZH_CN => 35,
            Market::ZH_HK => 36,
            Market::ZH_TW => 37,
        }
    }

    /// Every market, in the order of declaration.
    pub open spec fn spec_all() -> Seq<Market> {
        seq![
            Market::DA_DK,
            Market::DE_AT,
            Market::DE_CH,
            Market::DE_DE,
            Market::EN_AU,
            Market::EN_CA,
            Market::EN_GB,
            Market::EN_ID,
            Market::EN_IN,
            Market::EN_MY,
            Market::EN_NZ,
            Market::EN_PH,
            Market::EN_US,
            Market::EN_ZA,
            Market::ES_AR,
            Market::ES_CL,
            Market::ES_ES,
            Market::ES_MX,
            Market::ES_US,
            Market::FI_FI,
            Market::FR_BE,
            Market::FR_CA,
            Market::FR_CH,
            Market::FR_FR,
            Market::IT_IT,
            Market::JA_JP,
            Market::KO_KR,
            Market::NL_BE,
            Market::NL_NL,
            Market::NO_NO,
            Market::PL_PL,
            Market::PT_BR,
            Market::RU_RU,
            Market::SV_SE,
            Market::TR_TR,
            Market::ZH_CN,
            Market::ZH_HK,
            Market::ZH_TW,
        ]
    }

    /// `s` is the code of this market, ASCII case aside.
    pub open spec fn matches(self, s: Seq<char>) -> bool {
        eq_ignore_ascii_case(s, self.spec_code())
    }

    /// The market whose code is `s`, ASCII case aside, if there is one.
    pub open spec fn spec_parse(s: Seq<char>) -> Option<Market> {
        if exists|m: Market| m.matches(s) {
            Some(choose|m: Market| m.matches(s))
        } else {
            None
        }
    }

    /// The name under which the market is offered for selection.
    pub open spec fn spec_display_name(self) -> Seq<char> {
        match self {
            Market::DE_DE => "Deutsch"@,
            Market::EN_CA => "English (Canada)"@,
            Market::EN_GB => "English (UK)"@,
            Market::EN_IN => "English (India)"@,
            Market::EN_US => "English (US)"@,
            Market::ES_ES => "Español"@,
            Market::FR_CA => "Français (Canada)"@,
            Market::FR_FR => "Français"@,
            Market::IT_IT => "Italiano"@,
            Market::JA_JP => "日本語"@,
            Market::PT_BR => "Português"@,
            Market::ZH_CN => "中文"@,
            _ => self.spec_code(),
        }
    }

    /// The code of the market, such as `en-US`.
    pub fn code(&self) -> (s: &'static str)
        ensures
            s@ == self.spec_code(),
    {
        match self {
            Market::DA_DK => {
                proof {
                    reveal_strlit("da-DK");
                }
                assert("da-DK"@ =~= self.spec_code());
                "da-DK"
            },
            Market::DE_AT => {
                proof {
                    reveal_strlit("de-AT");
                }
                assert("de-AT"@ =~= self.spec_code());
                "de-AT"
            },
            Market::DE_CH => {
                proof {
                    reveal_strlit("de-CH");
                }
                assert("de-CH"@ =~= self.spec_code());
                "de-CH"
            },
            Market::DE_DE => {
                proof {
                    reveal_strlit("de-DE");
                }
                assert("de-DE"@ =~= self.spec_code());
                "de-DE"
            },
            Market::EN_AU => {
                proof {
                    reveal_strlit("en-AU");
                }
                assert("en-AU"@ =~= self.spec_code());
                "en-AU"
            },
            Market::EN_CA => {
                proof {
                    reveal_strlit("en-CA");
                }
                assert("en-CA"@ =~= self.spec_code());
                "en-CA"
            },
            Market::EN_GB => {
                proof {
                    reveal_strlit("en-GB");
                }
                assert("en-GB"@ =~= self.spec_code());
                "en-GB"
            },
            Market::EN_ID => {
                proof {
                    reveal_strlit("en-ID");
                }
                assert("en-ID"@ =~= self.spec_code());
                "en-ID"
            },
            Market::EN_IN => {
                proof {
                    reveal_strlit("en-IN");
                }
                assert("en-IN"@ =~= self.spec_code());
                "en-IN"
            },
            Market::EN_MY => {
                proof {
                    reveal_strlit("en-MY");
                }
                assert("en-MY"@ =~= self.spec_code());
                "en-MY"
            },
            Market::EN_NZ => {
                proof {
                    reveal_strlit("en-NZ");
                }
                assert("en-NZ"@ =~= self.spec_code());
                "en-NZ"
            },
            Market::EN_PH => {
                proof {
                    reveal_strlit("en-PH");
                }
                assert("en-PH"@ =~= self.spec_code());
                "en-PH"
            },
            Market::EN_US => {
                proof {
                    reveal_strlit("en-US");
                }
                assert("en-US"@ =~= self.spec_code());
                "en-US"
            },
            Market::EN_ZA => {
                proof {
                    reveal_strlit("en-ZA");
                }
                assert("en-ZA"@ =~= self.spec_code());
                "en-ZA"
            },
            Market::ES_AR => {
                proof {
                    reveal_strlit("es-AR");
                }
                assert("es-AR"@ =~= self.spec_code());
                "es-AR"
            },
            Market::ES_CL => {
                proof {
                    reveal_strlit("es-CL");
                }
                assert("es-CL"@ =~= self.spec_code());
                "es-CL"
            },
            Market::ES_ES => {
                proof {
                    reveal_strlit("es-ES");
                }
                assert("es-ES"@ =~= self.spec_code());
                "es-ES"
            },
            Market::ES_MX => {
                proof {
                    reveal_strlit("es-MX");
                }
                assert("es-MX"@ =~= self.spec_code());
                "es-MX"
            },
            Market::ES_US => {
                proof {
                    reveal_strlit("es-US");
                }
                assert("es-US"@ =~= self.spec_code());
                "es-US"
            },
            Market::FI_FI => {
                proof {
                    reveal_strlit("fi-FI");
                }
                assert("fi-FI"@ =~= self.spec_code());
                "fi-FI"
            },
            Market::FR_BE => {
                proof {
                    reveal_strlit("fr-BE");
                }
                assert("fr-BE"@ =~= self.spec_code());
                "fr-BE"
            },
            Market::FR_CA => {
                proof {
                    reveal_strlit("fr-CA");
                }
                assert("fr-CA"@ =~= self.spec_code());
                "fr-CA"
            },
            Market::FR_CH => {
                proof {
                    reveal_strlit("fr-CH");
                }
                assert("fr-CH"@ =~= self.spec_code());
                "fr-CH"
            },
            Market::FR_FR => {
                proof {
                    reveal_strlit("fr-FR");
                }
                assert("fr-FR"@ =~= self.spec_code());
                "fr-FR"
            },
            Market::IT_IT => {
                proof {
                    reveal_strlit("it-IT");
                }
                assert("it-IT"@ =~= self.spec_code());
                "it-IT"
            },
            Market::JA_JP => {
                proof {
                    reveal_strlit("ja-JP");
                }
                assert("ja-JP"@ =~= self.spec_code());
                "ja-JP"
            },
            Market::KO_KR => {
                proof {
                    reveal_strlit("ko-KR");
                }
                assert("ko-KR"@ =~= self.spec_code());
                "ko-KR"
            },
            Market::NL_BE => {
                proof {
                    reveal_strlit("nl-BE");
                }
                assert("nl-BE"@ =~= self.spec_code());
                "nl-BE"
            },
            Market::NL_NL => {
                proof {
                    reveal_strlit("nl-NL");
                }
                assert("nl-NL"@ =~= self.spec_code());
                "nl-NL"
            },
            Market::NO_NO => {
                proof {
                    reveal_strlit("no-NO");
                }
                assert("no-NO"@ =~= self.spec_code());
                "no-NO"
            },
            Market::PL_PL => {
                proof {
                    reveal_strlit("pl-PL");
                }
                assert("pl-PL"@ =~= self.spec_code());
                "pl-PL"
            },
            Market::PT_BR => {
                proof {
                    reveal_strlit("pt-BR");
                }
                assert("pt-BR"@ =~= self.spec_code());
                "pt-BR"
            },
            Market::RU_RU => {
                proof {
                    reveal_strlit("ru-RU");
                }
                assert("ru-RU"@ =~= self.spec_code());
                "ru-RU"
            },
            Market::SV_SE => {
                proof {
                    reveal_strlit("sv-SE");
                }
                assert("sv-SE"@ =~= self.spec_code());
                "sv-SE"
            },
            Market::TR_TR => {
                proof {
                    reveal_strlit("tr-TR");
                }
                assert("tr-TR"@ =~= self.spec_code());
                "tr-TR"
            },
            Market::ZH_CN => {
                proof {
                    reveal_strlit("zh-CN");
                }
                assert("zh-CN"@ =~= self.spec_code());
                "zh-CN"
            },
            Market::ZH_HK => {
                proof {
                    reveal_strlit("zh-HK");
                }
                assert("zh-HK"@ =~= self.spec_code());
                "zh-HK"
            },
            Market::ZH_TW => {
                proof {
                    reveal_strlit("zh-TW");
                }
                assert("zh-TW"@ =~= self.spec_code());
                "zh-TW"
            },
        }
    }

    /// The code of the market; the same text as `code`.
    pub fn as_str(&self) -> (s: &'static str)
        ensures
            s@ == self.spec_code(),
    {
        self.code()
    }

    /// Every market, in the order of declaration.
    pub fn all() -> (r: &'static [Market])
        ensures
            r@ == Market::spec_all(),
    {
        &[
            Market::DA_DK,
            Market::DE_AT,
            Market::DE_CH,
            Market::DE_DE,
            Market::EN_AU,
            Market::EN_CA,
            Market::EN_GB,
            Market::EN_ID,
            Market::EN_IN,
            Market::EN_MY,
            Market::EN_NZ,
            Market::EN_PH,
            Market::EN_US,
            Market::EN_ZA,
            Market::ES_AR,
            Market::ES_CL,
            Market::ES_ES,
            Market::ES_MX,
            Market::ES_US,
            Market::FI_FI,
            Market::FR_BE,
            Market::FR_CA,
            Market::FR_CH,
            Market::FR_FR,
            Market::IT_IT,
            Market::JA_JP,
            Market::KO_KR,
            Market::NL_BE,
            Market::NL_NL,
            Market::NO_NO,
            Market::PL_PL,
            Market::PT_BR,
            Market::RU_RU,
            Market::SV_SE,
            Market::TR_TR,
            Market::ZH_CN,
            Market::ZH_HK,
            Market::ZH_TW,
        ]
    }

    /// The market whose code is `s`, whatever the case of its ASCII letters;
    /// `None` where no market has that code.
    pub fn parse(s: &str) -> (r: Option<Market>)
        ensures
            r == Market::spec_parse(s@),
    {
        let v = chars_of(s);
        Market::parse_chars(v.as_slice())
    }

    /// `parse` on characters.
    pub fn parse_chars(v: &[char]) -> (r: Option<Market>)
        ensures
            r == Market::spec_parse(v@),
    {
        if v.len() != 5 {
            assert forall|m: Market| !m.matches(v@) by {
                assert(m.spec_code().len() == 5);
            }
            return None;
        }
        let a = to_ascii_lower(v[0]);
        let b = to_ascii_lower(v[1]);
        let c = to_ascii_lower(v[3]);
        let d = to_ascii_lower(v[4]);
        let hyphen = v[2] == '-';
        let all = Market::all();
        let mut i: usize = 0;
        while i < all.len()
            invariant
                i <= all.len(),
                all@ == Market::spec_all(),
                v@.len() == 5,
                a == ascii_lower(v@[0]),
                b == ascii_lower(v@[1]),
                c == ascii_lower(v@[3]),
                d == ascii_lower(v@[4]),
                hyphen == (v@[2] == '-'),
                forall|j: int| 0 <= j < i ==> !(#[trigger] all@[j]).matches(v@),
            decreases all.len() - i,
        {
            let m = all[i];
            let l = m.lower_letters();
            if hyphen && a == l.0 && b == l.1 && c == l.2 && d == l.3 {
                proof {
                    let code = m.spec_code();
                    assert forall|k: int| 0 <= k < 5 implies ascii_lower(#[trigger] v@[k])
                        == ascii_lower(code[k]) by {
                        if k == 0 {
                        } else if k == 1 {
                        } else if k == 2 {
                        } else if k == 3 {
                        } else {
                        }
                    }
                    assert(m.matches(v@));
                    Market::lemma_match_is_unique(v@, m, choose|x: Market| x.matches(v@));
                }
                return Some(m);
            }
            proof {
                let code = m.spec_code();
                if m.matches(v@) {
                    assert(ascii_lower(v@[0]) == ascii_lower(code[0]));
                    assert(ascii_lower(v@[1]) == ascii_lower(code[1]));
                    assert(ascii_lower(v@[2]) == ascii_lower(code[2]));
                    assert(ascii_lower(v@[3]) == ascii_lower(code[3]));
                    assert(ascii_lower(v@[4]) == ascii_lower(code[4]));
                    assert(false);
                }
            }
            i += 1;
        }
        proof {
            assert forall|m: Market| !m.matches(v@) by {
                Market::lemma_all_is_complete(m);
            }
        }
        None
    }

    /// The letters of the code, all in lower case.
    fn lower_letters(&self) -> (l: (char, char, char, char))
        ensures
            l.0 == ascii_lower(self.spec_code()[0]),
            l.1 == ascii_lower(self.spec_code()[1]),
            l.2 == ascii_lower(self.spec_code()[3]),
            l.3 == ascii_lower(self.spec_code()[4]),
            self.spec_code()[2] == '-',
    {
        match self {
            Market::DA_DK => ('d', 'a', 'd', 'k'),
            Market::DE_AT => ('d', 'e', 'a', 't'),
            Market::DE_CH => ('d', 'e', 'c', 'h'),
            Market::DE_DE => ('d', 'e', 'd', 'e'),
            Market::EN_AU => ('e', 'n', 'a', 'u'),
            Market::EN_CA => ('e', 'n', 'c', 'a'),
            Market::EN_GB => ('e', 'n', 'g', 'b'),
            Market::EN_ID => ('e', 'n', 'i', 'd'),
            Market::EN_IN => ('e', 'n', 'i', 'n'),
            Market::EN_MY => ('e', 'n', 'm', 'y'),
            Market::EN_NZ => ('e', 'n', 'n', 'z'),
            Market::EN_PH => ('e', 'n', 'p', 'h'),
            Market::EN_US => ('e', 'n', 'u', 's'),
            Market::EN_ZA => ('e', 'n', 'z', 'a'),
            Market::ES_AR => ('e', 's', 'a', 'r'),
            Market::ES_CL => ('e', 's', 'c', 'l'),
            Market::ES_ES => ('e', 's', 'e', 's'),
            Market::ES_MX => ('e', 's', 'm', 'x'),
            Market::ES_US => ('e', 's', 'u', 's'),
            Market::FI_FI => ('f', 'i', 'f', 'i'),
            Market::FR_BE => ('f', 'r', 'b', 'e'),
            Market::FR_CA => ('f', 'r', 'c', 'a'),
            Market::FR_CH => ('f', 'r', 'c', 'h'),
            Market::FR_FR => ('f', 'r', 'f', 'r'),
            Market::IT_IT => ('i', 't', 'i', 't'),
            Market::JA_JP => ('j', 'a', 'j', 'p'),
            Market::KO_KR => ('k', 'o', 'k', 'r'),
            Market::NL_BE => ('n', 'l', 'b', 'e'),
            Market::NL_NL => ('n', 'l', 'n', 'l'),
            Market::NO_NO => ('n', 'o', 'n', 'o'),
            Market::PL_PL => ('p', 'l', 'p', 'l'),
            Market::PT_BR => ('p', 't', 'b', 'r'),
            Market::RU_RU => ('r', 'u', 'r', 'u'),
            Market::SV_SE => ('s', 'v', 's', 'e'),
            Market::TR_TR => ('t', 'r', 't', 'r'),
            Market::ZH_CN => ('z', 'h', 'c', 'n'),
            Market::ZH_HK => ('z', 'h', 'h', 'k'),
            Market::ZH_TW => ('z', 'h', 't', 'w'),
        }
    }

    /// The name under which the market is offered for selection: the name
    /// of its language where the feed has one, else its code.
    pub fn display_name(&self) -> (s: &'static str)
        ensures
            s@ == self.spec_display_name(),
    {
        match self {
            Market::DE_DE => "Deutsch",
            Market::EN_CA => "English (Canada)",
            Market::EN_GB => "English (UK)",
            Market::EN_IN => "English (India)",
            Market::EN_US => "English (US)",
            Market::ES_ES => "Español",
            Market::FR_CA => "Français (Canada)",
            Market::FR_FR => "Français",
            Market::IT_IT => "Italiano",
            Market::JA_JP => "日本語",
            Market::PT_BR => "Português",
            Market::ZH_CN => "中文",
            _ => self.code(),
        }
    }

    /// Every market stands in `spec_all`, at its index.
    pub proof fn lemma_all_is_complete(m: Market)
        ensures
            0 <= m.index() < Market::spec_all().len(),
            Market::spec_all()[m.index()] == m,
    {
    }

    /// No two markets have the same code, ASCII case aside: a text matches
    /// one market at most.
    pub proof fn lemma_match_is_unique(s: Seq<char>, m1: Market, m2: Market)
        requires
            m1.matches(s),
            m2.matches(s),
        ensures
            m1 == m2,
    {
        let c1 = m1.spec_code();
        let c2 = m2.spec_code();
        assert(ascii_lower(s[0]) == ascii_lower(c1[0]) && ascii_lower(s[0]) == ascii_lower(c2[0]));
        assert(ascii_lower(s[1]) == ascii_lower(c1[1]) && ascii_lower(s[1]) == ascii_lower(c2[1]));
        assert(ascii_lower(s[3]) == ascii_lower(c1[3]) && ascii_lower(s[3]) == ascii_lower(c2[3]));
        assert(ascii_lower(s[4]) == ascii_lower(c1[4]) && ascii_lower(s[4]) == ascii_lower(c2[4]));
        Market::lemma_letters_are_distinct(m1, m2);
    }

    /// Two markets whose letters agree, case aside, are one market.
    pub proof fn lemma_letters_are_distinct(m1: Market, m2: Market)
        requires
            ascii_lower(m1.letters().0) == ascii_lower(m2.letters().0),
            ascii_lower(m1.letters().1) == ascii_lower(m2.letters().1),
            ascii_lower(m1.letters().2) == ascii_lower(m2.letters().2),
            ascii_lower(m1.letters().3) == ascii_lower(m2.letters().3),
        ensures
            m1 == m2,
    {
    }

    /// The letters of a code are ASCII letters: the language in lower case,
    /// the region in upper case.
    pub proof fn lemma_code_letters(m: Market)
        ensures
            m.spec_code().len() == 5,
            'a' <= m.spec_code()[0] <= 'z',
            'a' <= m.spec_code()[1] <= 'z',
            m.spec_code()[2] == '-',
            'A' <= m.spec_code()[3] <= 'Z',
            'A' <= m.spec_code()[4] <= 'Z',
    {
    }

    /// Markets and codes go one to one: two markets with the same code are
    /// one market.
    pub proof fn lemma_code_is_injective(m1: Market, m2: Market)
        requires
            m1.spec_code() == m2.spec_code(),
        ensures
            m1 == m2,
    {
        assert(m1.matches(m1.spec_code()));
        Market::lemma_match_is_unique(m1.spec_code(), m1, m2);
    }

    /// A text parses to a market exactly where it matches that market.
    pub proof fn lemma_parse_matches(s: Seq<char>, m: Market)
        ensures
            Market::spec_parse(s) == Some(m) <==> m.matches(s),
    {
        if m.matches(s) {
            Market::lemma_match_is_unique(s, m, choose|x: Market| x.matches(s));
        }
    }

    /// The code of a market parses to that market.
    pub proof fn lemma_parse_code(m: Market)
        ensures
            Market::spec_parse(m.spec_code()) == Some(m),
    {
        assert(m.matches(m.spec_code()));
        Market::lemma_parse_matches(m.spec_code(), m);
    }
}

impl core::str::FromStr for Market {
    type Err = ParseMarketError;

    /// The market whose code is `s`, whatever the case of its ASCII letters;
    /// the error where no market has that code.
    fn from_str(s: &str) -> (r: Result<Market, ParseMarketError>)
        ensures
            r == match Market::spec_parse(s@) {
                Some(m) => Ok::<Market, ParseMarketError>(m),
                None => Err(ParseMarketError),
            },
    {
        match Market::parse(s) {
            Some(m) => Ok(m),
            None => Err(ParseMarketError),
        }
    }
}

} // verus!
