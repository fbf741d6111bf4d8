use xpic::bing::Market;
use xpic::download::{plan, plan_with};
use xpic::locale::from_market;
use xpic::session::{contains_chars, search, switch_market, switch_market_at, Switch};
use xpic::store::cache_key;
use xpic::{ErrorKind, Image, ID};

fn image(id: &str, title: &str, copyright: &str, full_start_date: &str) -> Image {
    Image {
        url: String::new(),
        start_date: String::new(),
        full_start_date: full_start_date.to_string(),
        end_date: String::new(),
        id: id.to_string(),
        id_parsed: None,
        copyright: copyright.to_string(),
        copyright_parsed: None,
        copyright_link: String::new(),
        title: title.to_string(),
        quiz_link: String::new(),
        wallpaper: true,
        hash: String::new(),
    }
}

fn ids(images: &[Image]) -> Vec<&str> {
    images.iter().map(|image| image.id.as_str()).collect()
}

#[test]
fn download_at_native_resolution() {
    let download = plan("OHR.HalfDome_EN-US42_1920x1080.jpg", None).unwrap();
    assert_eq!(
        download.url,
        "https://www.bing.com/th?id=OHR.HalfDome_EN-US42_1920x1080.jpg"
    );
    assert_eq!(download.cache_key, cache_key(&download.url));
    assert_eq!(download.file_name, "OHR.HalfDome_EN-US42_UHD.jpg");
}

#[test]
fn download_at_a_resolution() {
    let download = plan("OHR.HalfDome_ROW42_UHD.jpg", Some((2560, 1440))).unwrap();
    assert_eq!(
        download.url,
        "https://www.bing.com/th?id=OHR.HalfDome_ROW42_UHD.jpg&w=2560&h=1440&p=0"
    );
    assert_eq!(download.cache_key, cache_key(&download.url));
    assert_eq!(download.cache_key.len(), 64);
    assert_eq!(download.file_name, "OHR.HalfDome_ROW42_2560x1440.jpg");
    let download = plan("OHR.HalfDome_zh-cn042_7x9.jpg", Some((u32::MAX, 0))).unwrap();
    assert_eq!(download.file_name, "OHR.HalfDome_ZH-CN42_4294967295x0.jpg");
}

#[test]
fn download_needs_an_identifier_of_the_grammar() {
    assert_eq!(plan("HalfDome.jpg", None).unwrap_err(), ErrorKind::InvalidId);
    assert_eq!(plan("", Some((1, 1))).unwrap_err(), ErrorKind::InvalidId);
}

#[test]
fn download_goes_by_what_was_read_and_built() {
    let id = || ID::parse("OHR.A_ROW1_UHD.jpg");
    let download = plan_with(id(), Ok("u".to_string()), Some((3, 4))).unwrap();
    assert_eq!(download.url, "u");
    assert_eq!(download.cache_key, cache_key("u"));
    assert_eq!(download.file_name, "OHR.A_ROW1_3x4.jpg");
    assert_eq!(
        plan_with(id(), Err(ErrorKind::Encode), None).unwrap_err(),
        ErrorKind::Encode
    );
    assert_eq!(
        plan_with(None, Err(ErrorKind::Encode), None).unwrap_err(),
        ErrorKind::InvalidId
    );
    assert_eq!(
        plan_with(None, Ok("u".to_string()), None).unwrap_err(),
        ErrorKind::InvalidId
    );
}

#[test]
fn search_by_title_or_attribution() {
    let images = [
        image("a", "Granite Giant", "Half Dome (© A)", ""),
        image("b", "Info", "Giant's Causeway (© B)", ""),
        image("c", "İstanbul", "Bosphorus (© C)", ""),
        image("d", "", "", ""),
    ];
    assert_eq!(ids(&search(&images, "")), ["a", "b", "c", "d"]);
    assert_eq!(ids(&search(&images, "giant")), ["a", "b"]);
    assert_eq!(ids(&search(&images, "GIANT'S")), ["b"]);
    assert_eq!(ids(&search(&images, "©")), ["a", "b", "c"]);
    assert_eq!(ids(&search(&images, "dome (")), ["a"]);
    assert_eq!(ids(&search(&images, "ISTANBUL")), Vec::<&str>::new());
    assert_eq!(ids(&search(&images, "İSTANBUL")), ["c"]);
    assert_eq!(ids(&search(&images, " ")), ["a", "b", "c"]);
    assert_eq!(ids(&search(&images, "granite giants")), Vec::<&str>::new());
    assert_eq!(search(&[], "x"), vec![]);
}

#[test]
fn contains_is_substring_search() {
    let chars = |s: &str| s.chars().collect::<Vec<char>>();
    for (hay, needle) in [
        ("", ""),
        ("abc", ""),
        ("abc", "abc"),
        ("abc", "c"),
        ("abc", "abcd"),
        ("aab", "ab"),
        ("ababac", "abac"),
        ("", "a"),
        ("日本語", "本"),
        ("ab", "ba"),
    ] {
        assert_eq!(
            contains_chars(&chars(hay), &chars(needle)),
            hay.contains(needle),
            "{hay:?} {needle:?}"
        );
    }
}

#[test]
fn switch_to_another_market() {
    // 2024-01-10 00:00 UTC.
    let now = 1_704_844_800;
    let fresh = [image("a", "", "", "202401092300")];
    let old = [image("a", "", "", "202401082359")];
    assert_eq!(
        switch_market_at(Market::EN_US, "ja-jp", None, now),
        Some(Switch { market: Market::JA_JP, from_cache: false, reload: true })
    );
    assert_eq!(
        switch_market_at(Market::EN_US, "JA-JP", Some(&fresh), now),
        Some(Switch { market: Market::JA_JP, from_cache: true, reload: false })
    );
    assert_eq!(
        switch_market_at(Market::EN_US, "ja-JP", Some(&old), now),
        Some(Switch { market: Market::JA_JP, from_cache: true, reload: true })
    );
    assert_eq!(
        switch_market_at(Market::EN_US, "ja-JP", Some(&[]), now),
        Some(Switch { market: Market::JA_JP, from_cache: true, reload: true })
    );
    assert_eq!(switch_market_at(Market::EN_US, "en-us", Some(&old), now), None);
    assert_eq!(switch_market_at(Market::EN_US, "ROW", None, now), None);
    assert_eq!(switch_market_at(Market::EN_US, "", None, now), None);
}

#[test]
fn switch_by_the_clock() {
    let old = [image("a", "", "", "200001010000")];
    let far = [image("a", "", "", "999912312359")];
    assert_eq!(
        switch_market(Market::ZH_CN, "de-DE", Some(&old)),
        Some(Switch { market: Market::DE_DE, from_cache: true, reload: true })
    );
    assert_eq!(
        switch_market(Market::ZH_CN, "de-DE", Some(&far)),
        Some(Switch { market: Market::DE_DE, from_cache: true, reload: false })
    );
    assert_eq!(switch_market(Market::ZH_CN, "zh-cn", None), None);
}

#[test]
fn interface_locale_of_a_market() {
    for market in Market::all() {
        let expected = if *market == Market::ZH_CN { "zh-CN" } else { "en" };
        assert_eq!(from_market(*market), expected);
    }
}
