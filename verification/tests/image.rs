use xpic::bing;
use xpic::bing::Market;
use xpic::decimal::Number;
use xpic::image::Dropped;
use xpic::{Copyright, ErrorKind, Image, ID};

fn record(url: &str) -> bing::Image {
    bing::Image {
        start_date: "20240102".to_string(),
        full_start_date: "202401020800".to_string(),
        end_date: "20240103".to_string(),
        url: url.to_string(),
        url_base: "/th?id=OHR.HalfDomeYosemite_EN-US4890007214".to_string(),
        copyright: "Half Dome, Yosemite (© A. Burton/Agency)".to_string(),
        copyright_link: "https://www.bing.com/search?q=Half+Dome&form=hpcapt".to_string(),
        title: "Granite giant".to_string(),
        quiz_link: "/search?q=Bing+homepage+quiz&filters=WQOskey:%22HPQuiz_20240102%22".to_string(),
        wallpaper: true,
        hash: "0123abcd".to_string(),
        dark: None,
        top: Some(1),
        bottom: None,
        hotspots: Some(vec![r#"{"desc":"a","query":"b"}"#.to_string()]),
    }
}

#[test]
fn image_of_a_record() {
    let image = Image::parse(record(
        "/th?id=OHR.HalfDomeYosemite_EN-US4890007214_1920x1080.jpg&rf=LaDigue_1920x1080.jpg&pid=hp",
    ))
    .unwrap();
    assert_eq!(
        image,
        Image {
            url: "https://www.bing.com/th?id=OHR.HalfDomeYosemite_EN-US4890007214_1920x1080.jpg&rf=LaDigue_1920x1080.jpg&pid=hp".to_string(),
            start_date: "20240102".to_string(),
            full_start_date: "202401020800".to_string(),
            end_date: "20240103".to_string(),
            id: "OHR.HalfDomeYosemite_EN-US4890007214_1920x1080.jpg".to_string(),
            id_parsed: Some(ID {
                name: "HalfDomeYosemite".to_string(),
                market: Some(Market::EN_US),
                number: Number::new(4890007214),
                uhd: false,
                width: Some(Number::new(1920)),
                height: Some(Number::new(1080)),
                extension: "jpg".to_string(),
            }),
            copyright: "Half Dome, Yosemite (© A. Burton/Agency)".to_string(),
            copyright_parsed: Some(Copyright {
                description: "Half Dome, Yosemite".to_string(),
                copyright: "© A. Burton/Agency".to_string(),
            }),
            copyright_link: "https://www.bing.com/search?q=Half+Dome&form=hpcapt".to_string(),
            title: "Granite giant".to_string(),
            quiz_link: "https://www.bing.com/search?q=Bing+homepage+quiz&filters=WQOskey:%22HPQuiz_20240102%22".to_string(),
            wallpaper: true,
            hash: "0123abcd".to_string(),
        }
    );
}

#[test]
fn image_id_is_the_first_id_parameter_decoded() {
    let image = Image::parse(record("/th?x=1&id=a%20b%2Bc&id=second")).unwrap();
    assert_eq!(image.id, "a b+c");
    assert_eq!(image.id_parsed, None);
    assert_eq!(image.url, "https://www.bing.com/th?x=1&id=a%20b%2Bc&id=second");
}

#[test]
fn image_without_id_is_an_error() {
    assert_eq!(Image::parse(record("/th?rf=x.jpg")), Err(ErrorKind::MissingId));
    assert_eq!(Image::parse(record("/th")), Err(ErrorKind::MissingId));
    assert_eq!(Image::parse(record("/th?ID=x")), Err(ErrorKind::MissingId));
}

#[test]
fn image_with_a_link_that_does_not_resolve_is_an_error() {
    assert_eq!(Image::parse(record("https://[oops/th?id=x")), Err(ErrorKind::InvalidUrl));
    let mut raw = record("/th?id=x");
    raw.copyright_link = "http://[::1".to_string();
    assert_eq!(Image::parse(raw), Err(ErrorKind::InvalidUrl));
    let mut raw = record("/th?id=x");
    raw.quiz_link = "http://exa mple.com/".to_string();
    assert_eq!(Image::parse(raw), Err(ErrorKind::InvalidUrl));
    // A missing identifier is found before a bad attribution link.
    let mut raw = record("/th");
    raw.copyright_link = "http://[::1".to_string();
    assert_eq!(Image::parse(raw), Err(ErrorKind::MissingId));
}

#[test]
fn image_assemble_goes_by_what_it_is_given() {
    let pairs = vec![
        ("rf".to_string(), "x".to_string()),
        ("id".to_string(), "OHR.A_ROW1_UHD.jpg".to_string()),
    ];
    let image = Image::assemble(
        record("ignored"),
        Some("u".to_string()),
        Some(pairs.clone()),
        Some("c".to_string()),
        Some("q".to_string()),
    )
    .unwrap();
    assert_eq!(image.url, "u");
    assert_eq!(image.id, "OHR.A_ROW1_UHD.jpg");
    assert_eq!(image.id_parsed.unwrap().number, Number::new(1));
    assert_eq!(image.copyright_link, "c");
    assert_eq!(image.quiz_link, "q");
    let some = |s: &str| Some(s.to_string());
    assert_eq!(
        Image::assemble(record(""), None, Some(pairs.clone()), some("c"), some("q")),
        Err(ErrorKind::InvalidUrl)
    );
    assert_eq!(
        Image::assemble(record(""), some("u"), None, some("c"), some("q")),
        Err(ErrorKind::InvalidUrl)
    );
    assert_eq!(
        Image::assemble(record(""), some("u"), Some(vec![]), None, None),
        Err(ErrorKind::MissingId)
    );
    assert_eq!(
        Image::assemble(record(""), some("u"), Some(pairs.clone()), None, some("q")),
        Err(ErrorKind::InvalidUrl)
    );
    assert_eq!(
        Image::assemble(record(""), some("u"), Some(pairs), some("c"), None),
        Err(ErrorKind::InvalidUrl)
    );
}

#[test]
fn image_records_that_cannot_be_read_are_left_out() {
    let (images, dropped) = Image::parse_all(vec![
        record("/th?id=first"),
        record("/th?rf=none"),
        record("https://[bad"),
        record("/th?id=second"),
    ]);
    let ids: Vec<&str> = images.iter().map(|image| image.id.as_str()).collect();
    assert_eq!(ids, ["first", "second"]);
    assert_eq!(
        dropped,
        [
            Dropped { index: 1, error: ErrorKind::MissingId },
            Dropped { index: 2, error: ErrorKind::InvalidUrl },
        ]
    );
    assert_eq!(Image::parse_all(vec![]), (vec![], vec![]));
}

#[test]
fn image_display_title() {
    let mut image = Image::parse(record("/th?id=x")).unwrap();
    assert_eq!(image.display_title(), "Granite giant");
    image.title = "Info".to_string();
    assert_eq!(image.display_title(), "Half Dome, Yosemite (© A. Burton/Agency)");
    image.title = String::new();
    assert_eq!(image.display_title(), "Half Dome, Yosemite (© A. Burton/Agency)");
    image.title = "info".to_string();
    assert_eq!(image.display_title(), "info");
}

#[test]
fn image_url_builder_starts_from_the_id() {
    let image = Image::parse(record("/th?id=OHR.A_ROW1_UHD.jpg&pid=hp")).unwrap();
    assert_eq!(
        image.url_builder().width(10).build().unwrap(),
        "https://www.bing.com/th?id=OHR.A_ROW1_UHD.jpg&w=10"
    );
}
