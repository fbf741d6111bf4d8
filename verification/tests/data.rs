use chrono::{Duration, Utc};
use xpic::bing::Market;
use xpic::merge::{merge, merge_by_hash, of_market};
use xpic::stale::{is_stale, is_stale_at, latest_start_of, DAY, WEEK};
use xpic::store::{cache_key, mirror_url, snapshot_name};
use xpic::{Image, ID};

fn image(id: &str, full_start_date: &str, title: &str) -> Image {
    Image {
        url: format!("https://www.bing.com/th?id={id}"),
        start_date: full_start_date.chars().take(8).collect(),
        full_start_date: full_start_date.to_string(),
        end_date: String::new(),
        id: id.to_string(),
        id_parsed: None,
        copyright: String::new(),
        copyright_parsed: None,
        copyright_link: String::new(),
        title: title.to_string(),
        quiz_link: String::new(),
        wallpaper: true,
        hash: String::new(),
    }
}

fn ids(images: &[Image]) -> Vec<&str> {
    images.iter().map(|image| image.id.as_str()).collect()
}

#[test]
fn merge_dedup_and_priority() {
    for (old, new) in [("202401010800", "202401020800"), ("202401020800", "202401010800")] {
        let merged = merge(&[image("a", old, "")], &[image("a", new, "new")]);
        assert_eq!(merged, vec![image("a", new, "new")]);
    }
}

#[test]
fn merge_sort_order() {
    let existing = [
        image("a", "202401030800", ""),
        image("b", "202312310800", ""),
        image("c", "202401010800", ""),
    ];
    let incoming = [
        image("d", "202401020800", ""),
        image("e", "202401040800", ""),
        image("b", "202401020900", "new"),
    ];
    let merged = merge(&existing, &incoming);
    assert_eq!(ids(&merged), ["e", "a", "b", "d", "c"]);
    assert_eq!(merged[2].title, "new");
    for pair in merged.windows(2) {
        assert!(pair[0].full_start_date >= pair[1].full_start_date);
    }
}

#[test]
fn merge_keeps_the_order_of_arrival_within_a_minute() {
    let existing = [image("a", "202401010800", ""), image("b", "202401010800", "")];
    let incoming = [image("c", "202401010800", ""), image("a", "202401010800", "new")];
    let merged = merge(&existing, &incoming);
    assert_eq!(ids(&merged), ["c", "a", "b"]);
    assert_eq!(merged[1].title, "new");
}

#[test]
fn merge_nothing_sorts_and_drops_duplicates() {
    let list = [
        image("a", "202401010800", "first"),
        image("b", "202401030800", ""),
        image("a", "202401050800", "second"),
        image("c", "202401020800", ""),
    ];
    let merged = merge(&list, &[]);
    assert_eq!(
        merged,
        vec![
            image("b", "202401030800", ""),
            image("c", "202401020800", ""),
            image("a", "202401010800", "first"),
        ]
    );
    assert_eq!(merge(&[], &list), merged);
    assert_eq!(merge(&[], &[]), vec![]);
}

#[test]
fn merge_is_idempotent() {
    let list = [
        image("b", "202401030800", ""),
        image("c", "202401020800", ""),
        image("a", "202401010800", ""),
    ];
    assert_eq!(merge(&list, &[]), list);
    assert_eq!(merge(&list, &list), list);
    let other = [image("d", "202401020900", ""), image("c", "202401020800", "new")];
    let merged = merge(&list, &other);
    assert_eq!(merge(&merged, &[]), merged);
    assert_eq!(merge(&merged, &other), merged);
    assert_eq!(merge(&list, &merged), merged);
}

#[test]
fn merge_orders_by_the_bytes_of_the_date() {
    let merged = merge(
        &[image("a", "2024", ""), image("b", "20240101", ""), image("c", "", "")],
        &[image("d", "é", ""), image("e", "z", ""), image("f", "20239", "")],
    );
    assert_eq!(ids(&merged), ["d", "e", "b", "a", "f", "c"]);
}

#[test]
fn staleness_boundary() {
    // 2024-01-02 03:04 UTC.
    let start = 1_704_164_640;
    let list = [image("a", "202401020304", "")];
    assert!(is_stale_at(&[], start, DAY));
    assert!(is_stale_at(&[], i64::MIN, i64::MAX));
    assert!(!is_stale_at(&list, start, DAY));
    assert!(!is_stale_at(&list, start + DAY, DAY));
    assert!(is_stale_at(&list, start + DAY + 1, DAY));
    assert!(is_stale_at(&list, start + 25 * 3600, DAY));
    assert!(!is_stale_at(&list, start + 25 * 3600, WEEK));
    assert!(!is_stale_at(&list, start - 10 * DAY, 0));
    assert!(is_stale_at(&list, start, -1));
    assert!(!is_stale_at(&list, i64::MIN, i64::MAX));
    assert!(!is_stale_at(&list, i64::MAX, i64::MAX));
    // Before 1970 the start is negative: the age is beyond what 64 bits hold.
    let early = [image("a", "196912312359", "")];
    assert!(is_stale_at(&early, i64::MAX, i64::MAX));
    assert!(!is_stale_at(&early, i64::MAX - 60, i64::MAX));
}

#[test]
fn staleness_goes_by_the_latest_start() {
    let list = [
        image("a", "202401010000", ""),
        image("b", "202401020304", ""),
        image("c", "not a date", ""),
        image("d", "202401011200", ""),
    ];
    assert_eq!(latest_start_of(&list), Some(1_704_164_640));
    assert_eq!(latest_start_of(&list[..1]), Some(1_704_067_200));
    assert_eq!(latest_start_of(&list[2..3]), None);
    assert_eq!(latest_start_of(&[]), None);
    assert!(!is_stale_at(&list, 1_704_164_640 + DAY, DAY));
    assert!(is_stale_at(&list[..1], 1_704_164_640 + DAY, DAY));
    assert!(is_stale_at(&list[2..3], 0, i64::MAX));
}

#[test]
fn staleness_reads_dates_as_chrono_does() {
    for text in ["", "20240102", "2024010203", "202413010000", "202401022400", "20240102030x"] {
        assert_eq!(latest_start_of(&[image("a", text, "")]), None, "{text:?}");
    }
    assert_eq!(latest_start_of(&[image("a", "197001010000", "")]), Some(0));
    assert_eq!(latest_start_of(&[image("a", "196912312359", "")]), Some(-60));
}

#[test]
fn staleness_by_the_clock() {
    let stamp = |age: Duration| (Utc::now() - age).format("%Y%m%d%H%M").to_string();
    assert!(is_stale(&[], DAY));
    assert!(is_stale(&[], i64::MAX));
    assert!(!is_stale(&[image("a", &stamp(Duration::zero()), "")], DAY));
    assert!(is_stale(&[image("a", &stamp(Duration::hours(25)), "")], DAY));
    assert!(!is_stale(&[image("a", &stamp(Duration::hours(25)), "")], WEEK));
    assert!(is_stale(&[image("a", &stamp(Duration::days(8)), "")], WEEK));
}

#[test]
fn store_names() {
    assert_eq!(
        cache_key(""),
        "e3b0c44298fc1c149afbf4c8996fb92427ae41e4649b934ca495991b7852b855"
    );
    assert_eq!(
        cache_key("abc"),
        "ba7816bf8f01cfea414140de5dae2223b00361a396177a9cb410ff61f20015ad"
    );
    assert_eq!(
        cache_key("https://www.bing.com/th?id=é"),
        cache_key("https://www.bing.com/th?id=é")
    );
    assert_ne!(
        cache_key("https://www.bing.com/th?id=a&w=1"),
        cache_key("https://www.bing.com/th?id=a&w=2")
    );
    assert_eq!(snapshot_name(Market::EN_US), "en-US.json");
    assert_eq!(snapshot_name(Market::ZH_CN), "zh-CN.json");
    assert_eq!(
        mirror_url(Market::JA_JP),
        "https://raw.githubusercontent.com/fhluo/xpic/main/data/ja-JP.json"
    );
}

fn hashed(id: &str, hash: &str, start_date: &str, title: &str) -> Image {
    let mut image = image(id, "", title);
    image.hash = hash.to_string();
    image.start_date = start_date.to_string();
    image
}

#[test]
fn merge_by_hash_keeps_the_incoming_image_of_each_hash() {
    let existing = [
        hashed("a", "h2", "20240101", "old"),
        hashed("b", "h1", "20240101", ""),
        hashed("c", "h9", "20231231", ""),
    ];
    let incoming = [
        hashed("d", "h3", "20240102", ""),
        hashed("e", "h2", "20240101", "new"),
        hashed("f", "h0", "20240102", ""),
    ];
    let merged = merge_by_hash(&existing, &incoming);
    assert_eq!(ids(&merged), ["f", "d", "b", "e", "c"]);
    assert_eq!(merged[3].title, "new");
    assert_eq!(merge_by_hash(&merged, &[]), merged);
    assert_eq!(merge_by_hash(&[], &merged), merged);
    assert_eq!(merge_by_hash(&[], &[]), vec![]);
}

#[test]
fn merge_by_hash_is_what_two_sorts_around_a_dedup_give() {
    let existing = [
        hashed("a", "x", "20240103", ""),
        hashed("b", "y", "20240101", ""),
        hashed("c", "x", "20240105", ""),
        hashed("d", "", "20240101", ""),
    ];
    let incoming = [
        hashed("e", "z", "20240101", ""),
        hashed("f", "y", "20240109", ""),
        hashed("g", "w", "20240103", ""),
    ];
    let mut expected: Vec<Image> = incoming.iter().chain(existing.iter()).cloned().collect();
    expected.sort_by(|a, b| a.hash.cmp(&b.hash));
    expected.dedup_by(|a, b| a.hash == b.hash);
    expected.sort_by(|a, b| b.start_date.cmp(&a.start_date));
    assert_eq!(merge_by_hash(&existing, &incoming), expected);
    assert_eq!(ids(&expected), ["f", "g", "a", "d", "e"]);
}

#[test]
fn merge_is_what_a_dedup_and_a_sort_give() {
    let existing = [
        image("a", "202401030800", ""),
        image("b", "202401010800", ""),
        image("c", "202401050800", ""),
        image("a", "202401090800", "again"),
    ];
    let incoming = [
        image("e", "202401010800", ""),
        image("b", "202401090800", "new"),
        image("g", "202401030800", ""),
    ];
    let mut seen = std::collections::HashSet::new();
    let mut expected: Vec<Image> = incoming
        .iter()
        .chain(existing.iter())
        .filter(|image| seen.insert(image.id.clone()))
        .cloned()
        .collect();
    expected.sort_by(|a, b| b.full_start_date.cmp(&a.full_start_date));
    assert_eq!(merge(&existing, &incoming), expected);
    assert_eq!(ids(&expected), ["b", "c", "g", "a", "e"]);
}

#[test]
fn images_of_a_market() {
    let of = |id: &str| {
        let mut image = image(id, "", "");
        image.id_parsed = ID::parse(id);
        image
    };
    let images = [
        of("OHR.A_EN-US1_UHD.jpg"),
        of("OHR.B_ROW2_UHD.jpg"),
        of("OHR.C_ja-jp3_UHD.jpg"),
        of("not an id"),
        of("OHR.D_EN-US4_1x1.jpg"),
        of("OHR.E_XX-YY5_UHD.jpg"),
    ];
    assert_eq!(
        ids(&of_market(&images, Market::EN_US)),
        ["OHR.A_EN-US1_UHD.jpg", "OHR.D_EN-US4_1x1.jpg"]
    );
    assert_eq!(ids(&of_market(&images, Market::JA_JP)), ["OHR.C_ja-jp3_UHD.jpg"]);
    assert_eq!(of_market(&images, Market::DE_DE), vec![]);
    let mut unread = of("OHR.A_EN-US1_UHD.jpg");
    unread.id_parsed = None;
    assert_eq!(of_market(&[unread], Market::EN_US), vec![]);
}
