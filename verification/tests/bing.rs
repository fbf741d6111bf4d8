use xpic::bing::form::{address, address_of, encode};
use xpic::bing::{
    CropMode, Format, Market, ParseMarketError, Query, ThumbnailParams, ThumbnailQuery, UrlBuilder,
};
use xpic::ErrorKind;

fn query(name: &str, value: &str) -> String {
    encode(&vec![(name.to_string(), value.to_string())]).unwrap()
}

#[test]
fn test_format() {
    assert_eq!(query("format", Format::JSON.code()), "format=js");
    assert_eq!(query("format", Format::XML.code()), "format=xml");
    assert_eq!(query("format", Format::RSS.code()), "format=rss");
    assert_eq!(query("format", Format::HTML.code()), "format=hp");
}

#[test]
fn test_market() {
    for market in Market::all() {
        assert_eq!(
            query("mkt", market.code()),
            format!("mkt={}", market.code())
        );
    }
}

#[test]
fn test_from_str() {
    // Case-insensitive parsing
    assert_eq!("en-us".parse::<Market>(), Ok(Market::EN_US));
    assert_eq!("EN-US".parse::<Market>(), Ok(Market::EN_US));
    assert_eq!("En-Us".parse::<Market>(), Ok(Market::EN_US));

    assert_eq!("zh-cn".parse::<Market>(), Ok(Market::ZH_CN));
    assert_eq!("ZH-CN".parse::<Market>(), Ok(Market::ZH_CN));

    // Invalid market
    assert!("invalid".parse::<Market>().is_err());
    assert!("xx-XX".parse::<Market>().is_err());
}

#[test]
fn test_encode_minimal() {
    let query = ThumbnailQuery::new("OHR.Test_EN-US123_UHD.jpg");
    assert_eq!(query.encode().unwrap(), "id=OHR.Test_EN-US123_UHD.jpg");
}

#[test]
fn test_encode_with_resize() {
    let query = ThumbnailQuery::new("OHR.Test_EN-US123_UHD.jpg")
        .pid("hp")
        .width(1920)
        .height(1080)
        .crop(CropMode::BlindRatio);

    assert_eq!(
        query.encode().unwrap(),
        "id=OHR.Test_EN-US123_UHD.jpg&pid=hp&w=1920&h=1080&c=4"
    );
}

#[test]
fn test_encode_smart_crop_no_padding() {
    let query = ThumbnailQuery::new("OHR.Test_EN-US123_UHD.jpg")
        .width(200)
        .height(200)
        .no_padding()
        .crop(CropMode::SmartRatio);

    assert_eq!(
        query.encode().unwrap(),
        "id=OHR.Test_EN-US123_UHD.jpg&w=200&h=200&p=0&c=7"
    );
}

#[test]
fn test_basic_url() {
    let url = UrlBuilder::new("OHR.Test_EN-US123_UHD.jpg")
        .build()
        .unwrap();

    assert_eq!(url, "https://www.bing.com/th?id=OHR.Test_EN-US123_UHD.jpg");
}

#[test]
fn test_url_with_size() {
    let url = UrlBuilder::new("OHR.Test_EN-US123_UHD.jpg")
        .width(1920)
        .height(1080)
        .build()
        .unwrap();

    assert_eq!(
        url,
        "https://www.bing.com/th?id=OHR.Test_EN-US123_UHD.jpg&w=1920&h=1080"
    );
}

#[test]
fn test_url_with_all_options() {
    let url = UrlBuilder::new("OHR.Test_EN-US123_UHD.jpg")
        .pid("hp")
        .width(200)
        .height(200)
        .no_padding()
        .crop(CropMode::SmartRatio)
        .build()
        .unwrap();

    assert_eq!(
        url,
        "https://www.bing.com/th?id=OHR.Test_EN-US123_UHD.jpg&pid=hp&w=200&h=200&p=0&c=7"
    );
}

#[test]
fn market_codes_parse_to_their_market() {
    for market in Market::all() {
        assert_eq!(Market::parse(market.code()), Some(*market));
        assert_eq!(Market::parse(&market.code().to_uppercase()), Some(*market));
        assert_eq!(Market::parse(&market.code().to_lowercase()), Some(*market));
        assert_eq!(market.as_str(), market.code());
    }
    assert_eq!(Market::all().len(), 38);
}

#[test]
fn market_rejects_what_is_no_code() {
    for text in ["", "ROW", "en_US", "en-USA", "en-U", "de-US", "\u{212a}o-KR", "en–US"] {
        assert_eq!(Market::parse(text), None, "{text:?}");
        assert_eq!(text.parse::<Market>(), Err(ParseMarketError));
    }
}

#[test]
fn market_display_names() {
    assert_eq!(Market::ZH_CN.display_name(), "中文");
    assert_eq!(Market::ES_ES.display_name(), "Español");
    assert_eq!(Market::EN_US.display_name(), "English (US)");
    assert_eq!(Market::EN_AU.display_name(), "en-AU");
    assert_eq!(Market::ZH_TW.display_name(), "zh-TW");
}

#[test]
fn query_defaults() {
    let query = Query::default();
    assert_eq!(
        query.encode().unwrap(),
        "format=js&idx=0&n=8&mkt=en-US&uhd=1"
    );
    assert_eq!(
        query.url().unwrap(),
        "https://www.bing.com/HPImageArchive.aspx?format=js&idx=0&n=8&mkt=en-US&uhd=1"
    );
}

#[test]
fn query_omits_what_has_no_value() {
    let mut query = Query::new(None, 3, 5);
    assert_eq!(query.encode().unwrap(), "idx=3&n=5&mkt=en-US&uhd=1");
    query.market = None;
    query.uhd = Some(false);
    assert_eq!(query.encode().unwrap(), "idx=3&n=5&uhd=0");
    query.uhd = None;
    query.format = Some(Format::RSS);
    query.market = Some(Market::JA_JP);
    assert_eq!(query.encode().unwrap(), "format=rss&idx=3&n=5&mkt=ja-JP");
}

#[test]
fn url_builder_with_an_id_alone_sends_one_parameter() {
    let builder = UrlBuilder::new("a b&c=d/é");
    let pairs = builder.pairs();
    assert_eq!(pairs, vec![("id".to_string(), "a b&c=d/é".to_string())]);
    assert_eq!(
        builder.build().unwrap(),
        "https://www.bing.com/th?id=a+b%26c%3Dd%2F%C3%A9"
    );
}

#[test]
fn url_builder_keeps_the_order_whatever_the_order_of_the_calls() {
    let url = UrlBuilder::new("x")
        .crop(CropMode::BlindRatio)
        .no_padding()
        .pid("hp")
        .height(2)
        .width(1)
        .build();
    assert_eq!(
        url,
        Ok("https://www.bing.com/th?id=x&pid=hp&w=1&h=2&p=0&c=4".to_string())
    );
    let names: Vec<String> = UrlBuilder::new("x")
        .crop(CropMode::SmartRatio)
        .width(u32::MAX)
        .pairs()
        .into_iter()
        .map(|pair| pair.0)
        .collect();
    assert_eq!(names, ["id", "w", "c"]);
}

#[test]
fn thumbnail_query_options() {
    let query = ThumbnailQuery::new("x")
        .pid_option(Some("hp"))
        .width_option(Some(4294967295))
        .height_option(None)
        .padding_option(Some(3))
        .crop_option(Some(CropMode::SmartRatio));
    assert_eq!(query.encode().unwrap(), "id=x&pid=hp&w=4294967295&p=3&c=7");
    let query = query.pid_option(None).crop_option(None).padding_option(None);
    assert_eq!(query.encode().unwrap(), "id=x&w=4294967295");
}

#[test]
fn address_of_a_query() {
    assert_eq!(
        address("https://example.com/x", &vec![]),
        Ok("https://example.com/x?".to_string())
    );
    assert_eq!(
        address_of("e", Ok("a=1&b=2".to_string())),
        Ok("e?a=1&b=2".to_string())
    );
    assert_eq!(address_of("e", Err(ErrorKind::Encode)), Err(ErrorKind::Encode));
}

#[test]
fn error_messages() {
    assert_eq!(ErrorKind::MissingId.message(), "missing id");
    assert_eq!(ErrorKind::InvalidId.message(), "invalid ID");
    assert_eq!(ErrorKind::InvalidUrl.message(), "invalid URL");
    assert_eq!(ErrorKind::Encode.message(), "failed to encode query");
}
