//! Images: the records that the library keeps, and how a record of the
//! service becomes one.

use crate::bing;
use crate::bing::form::Pair;
use crate::bing::url::UrlBuilder;
use crate::bing::BASE_URL;
use crate::copyright::{Copyright, CopyrightView};
use crate::error::ErrorKind;
use crate::id::{IdView, ID};
use crate::text::same_text;
use url::Url;
use vstd::prelude::*;
use vstd::std_specs::cmp::PartialEqSpecImpl;

verus! {

/// The error of `Url::parse` and `Url::join`.
#[verifier::external_type_specification]
#[verifier::external_body]
pub struct ExParseError(url::ParseError);

/// The address that `Url::join` gives for `reference` on the base address
/// that `Url::parse` reads from `base`; `None` where either gives an error.
pub uninterp spec fn resolved(base: Seq<char>, reference: Seq<char>) -> Option<Seq<char>>;

/// The names and values that `Url::query_pairs` finds in the address that
/// `Url::parse` reads from `url`; `None` where `url` is no address.
pub uninterp spec fn query_of(url: Seq<char>) -> Option<Seq<(Seq<char>, Seq<char>)>>;

/// Resolves `reference` against `base` with `Url::join` of the `url` crate,
/// after `Url::parse` has read `base`, and hands the address back as text.
#[verifier::external_body]
fn resolve(base: &str, reference: &str) -> (r: Result<String, url::ParseError>)
    ensures
        match r {
            Ok(url) => resolved(base@, reference@) == Some(url@),
            Err(_) => resolved(base@, reference@) is None,
        },
{
    Url::parse(base).and_then(|base| base.join(reference)).map(String::from)
}

/// Reads `url` with `Url::parse` of the `url` crate and lists the decoded
/// names and values of its query string, as `Url::query_pairs` gives them.
#[verifier::external_body]
fn query_pairs(url: &str) -> (r: Result<Vec<Pair>, url::ParseError>)
    ensures
        match r {
            Ok(pairs) => query_of(url@) == Some(crate::bing::form::pairs_view(pairs@)),
            Err(_) => query_of(url@) is None,
        },
{
    Url::parse(url).map(|url| url.query_pairs().into_owned().collect())
}

/// The mathematical value of an `Image`.
pub struct ImageView {
    pub url: Seq<char>,
    pub start_date: Seq<char>,
    pub full_start_date: Seq<char>,
    pub end_date: Seq<char>,
    pub id: Seq<char>,
    pub id_parsed: Option<IdView>,
    pub copyright: Seq<char>,
    pub copyright_parsed: Option<CopyrightView>,
    pub copyright_link: Seq<char>,
    pub title: Seq<char>,
    pub quiz_link: Seq<char>,
    pub wallpaper: bool,
    pub hash: Seq<char>,
}

/// An image of the day.
#[derive(Debug)]
pub struct Image {
    /// The address of the image at full resolution.
    pub url: String,
    pub start_date: String,
    /// The start of the display window, to the minute: `YYYYMMDDHHmm`.
    pub full_start_date: String,
    pub end_date: String,
    /// The identifier that the service gave the image.
    pub id: String,
    /// The structure of `id`, where it is of the grammar.
    pub id_parsed: Option<ID>,
    /// The attribution line: a description and, in parentheses, the
    /// attribution.
    pub copyright: String,
    /// The parts of `copyright`, where it is of the grammar.
    pub copyright_parsed: Option<Copyright>,
    pub copyright_link: String,
    /// The title; it may be empty, or `Info` where the service has none.
    pub title: String,
    pub quiz_link: String,
    /// Whether the image is fit for a wallpaper.
    pub wallpaper: bool,
    /// The fingerprint that the service gave the image.
    pub hash: String,
}

impl View for Image {
    type V = ImageView;

    open spec fn view(&self) -> ImageView {
        ImageView {
            url: self.url@,
            start_date: self.start_date@,
            full_start_date: self.full_start_date@,
            end_date: self.end_date@,
            id: self.id@,
            id_parsed: crate::id::view_of(self.id_parsed),
            copyright: self.copyright@,
            copyright_parsed: crate::copyright::view_of(self.copyright_parsed),
            copyright_link: self.copyright_link@,
            title: self.title@,
            quiz_link: self.quiz_link@,
            wallpaper: self.wallpaper,
            hash: self.hash@,
        }
    }
}

impl Clone for Image {
    fn clone(&self) -> (r: Self)
        ensures
            r@ == self@,
    {
        Image {
            url: self.url.clone(),
            start_date: self.start_date.clone(),
            full_start_date: self.full_start_date.clone(),
            end_date: self.end_date.clone(),
            id: self.id.clone(),
            id_parsed: match &self.id_parsed {
                Some(id) => Some(id.clone()),
                None => None,
            },
            copyright: self.copyright.clone(),
            copyright_parsed: match &self.copyright_parsed {
                Some(c) => Some(c.clone()),
                None => None,
            },
            copyright_link: self.copyright_link.clone(),
            title: self.title.clone(),
            quiz_link: self.quiz_link.clone(),
            wallpaper: self.wallpaper,
            hash: self.hash.clone(),
        }
    }
}

impl PartialEq for Image {
    fn eq(&self, other: &Self) -> (r: bool) {
        let same_id = match (&self.id_parsed, &other.id_parsed) {
            (Some(a), Some(b)) => a == b,
            (None, None) => true,
            _ => false,
        };
        let same_copyright = match (&self.copyright_parsed, &other.copyright_parsed) {
            (Some(a), Some(b)) => a == b,
            (None, None) => true,
            _ => false,
        };
        same_id && same_copyright && self.url == other.url && self.start_date == other.start_date
            && self.full_start_date == other.full_start_date && self.end_date == other.end_date
            && self.id == other.id && self.copyright == other.copyright && self.copyright_link
            == other.copyright_link && self.title == other.title && self.quiz_link
            == other.quiz_link && self.wallpaper == other.wallpaper && self.hash == other.hash
    }
}

impl PartialEqSpecImpl for Image {
    open spec fn obeys_eq_spec() -> bool {
        true
    }

    open spec fn eq_spec(&self, other: &Self) -> bool {
        self@ == other@
    }
}

/// The views of a list of images.
pub open spec fn views(images: Seq<Image>) -> Seq<ImageView> {
    images.map_values(|image: Image| image@)
}

/// The value of the first parameter called `name`.
pub open spec fn first_value(pairs: Seq<(Seq<char>, Seq<char>)>, name: Seq<char>) -> Option<
    Seq<char>,
>
    decreases pairs.len(),
{
    if pairs.len() == 0 {
        None
    } else if pairs[0].0 == name {
        Some(pairs[0].1)
    } else {
        first_value(pairs.drop_first(), name)
    }
}

/// The image that a record of the service stands for, given what its links
/// resolve to and the parameters of its resolved address.
///
/// The identifier of the image is the `id` parameter of its address. The
/// first of these that fails decides the error: the address does not
/// resolve, it has no `id`, the attribution link does not resolve, the quiz
/// link does not resolve.
pub open spec fn spec_assemble(
    raw: bing::Image,
    url: Option<Seq<char>>,
    query: Option<Seq<(Seq<char>, Seq<char>)>>,
    copyright_link: Option<Seq<char>>,
    quiz_link: Option<Seq<char>>,
) -> Result<ImageView, ErrorKind> {
    if url is None || query is None {
        Err(ErrorKind::InvalidUrl)
    } else if first_value(query.unwrap(), "id"@) is None {
        Err(ErrorKind::MissingId)
    } else if copyright_link is None || quiz_link is None {
        Err(ErrorKind::InvalidUrl)
    } else {
        let id = first_value(query.unwrap(), "id"@).unwrap();
        Ok(
            ImageView {
                url: url.unwrap(),
                start_date: raw.start_date@,
                full_start_date: raw.full_start_date@,
                end_date: raw.end_date@,
                id,
                id_parsed: crate::id::spec_parse(id),
                copyright: raw.copyright@,
                copyright_parsed: crate::copyright::spec_parse(raw.copyright@),
                copyright_link: copyright_link.unwrap(),
                title: raw.title@,
                quiz_link: quiz_link.unwrap(),
                wallpaper: raw.wallpaper,
                hash: raw.hash@,
            },
        )
    }
}

/// The image that a record of the service stands for: its links resolved
/// against the address of the service, its identifier taken from its
/// address.
pub open spec fn spec_parse(raw: bing::Image) -> Result<ImageView, ErrorKind> {
    let url = resolved(BASE_URL@, raw.url@);
    spec_assemble(
        raw,
        url,
        match url {
            Some(url) => query_of(url),
            None => None,
        },
        resolved(BASE_URL@, raw.copyright_link@),
        resolved(BASE_URL@, raw.quiz_link@),
    )
}

/// The view of the result of reading a record.
pub open spec fn view_of(r: Result<Image, ErrorKind>) -> Result<ImageView, ErrorKind> {
    match r {
        Ok(image) => Ok(image@),
        Err(e) => Err(e),
    }
}

/// The images that the records of a response stand for: the records that
/// cannot be read are left out, the others keep their order.
pub open spec fn spec_parse_all(records: Seq<bing::Image>) -> Seq<ImageView>
    decreases records.len(),
{
    if records.len() == 0 {
        Seq::empty()
    } else {
        let rest = spec_parse_all(records.drop_last());
        match spec_parse(records.last()) {
            Ok(image) => rest.push(image),
            Err(_) => rest,
        }
    }
}

/// A record that could not be read: its place in the response, and why.
#[derive(Debug, Clone, Copy, PartialEq, Eq, Structural)]
pub struct Dropped {
    pub index: usize,
    pub error: ErrorKind,
}

/// The records of a response that cannot be read, in their order.
pub open spec fn spec_dropped(records: Seq<bing::Image>) -> Seq<Dropped>
    decreases records.len(),
{
    if records.len() == 0 {
        Seq::empty()
    } else {
        let rest = spec_dropped(records.drop_last());
        match spec_parse(records.last()) {
            Ok(_) => rest,
            Err(error) => rest.push(Dropped { index: (records.len() - 1) as usize, error }),
        }
    }
}

fn find_value(pairs: &Vec<Pair>, name: &str) -> (r: Option<String>)
    ensures
        crate::bing::form::text(r) == first_value(crate::bing::form::pairs_view(pairs@), name@),
{
    let ghost all = crate::bing::form::pairs_view(pairs@);
    let mut i: usize = 0;
    assert(all.skip(0) =~= all);
    while i < pairs.len()
        invariant
            i <= pairs.len(),
            all == crate::bing::form::pairs_view(pairs@),
            first_value(all, name@) == first_value(all.skip(i as int), name@),
        decreases pairs.len() - i,
    {
        let ghost rest = all.skip(i as int);
        assert(rest[0] == (pairs@[i as int].0@, pairs@[i as int].1@));
        assert(rest.drop_first() =~= all.skip(i + 1));
        if same_text(pairs[i].0.as_str(), name) {
            return Some(pairs[i].1.clone());
        }
        i += 1;
    }
    assert(all.skip(i as int).len() == 0);
    None
}

impl Image {
    /// Makes the image of a record from what its links resolve to and from
    /// the parameters of its resolved address; `None` stands for a link or
    /// an address that could not be read.
    pub fn assemble(
        raw: bing::Image,
        url: Option<String>,
        query: Option<Vec<Pair>>,
        copyright_link: Option<String>,
        quiz_link: Option<String>,
    ) -> (r: Result<Image, ErrorKind>)
        ensures
            view_of(r) == spec_assemble(
                raw,
                crate::bing::form::text(url),
                match query {
                    Some(pairs) => Some(crate::bing::form::pairs_view(pairs@)),
                    None => None,
                },
                crate::bing::form::text(copyright_link),
                crate::bing::form::text(quiz_link),
            ),
    {
        let (url, query) = match (url, query) {
            (Some(url), Some(query)) => (url, query),
            _ => {
                return Err(ErrorKind::InvalidUrl);
            },
        };
        let id = match find_value(&query, "id") {
            Some(id) => id,
            None => {
                return Err(ErrorKind::MissingId);
            },
        };
        let (copyright_link, quiz_link) = match (copyright_link, quiz_link) {
            (Some(copyright_link), Some(quiz_link)) => (copyright_link, quiz_link),
            _ => {
                return Err(ErrorKind::InvalidUrl);
            },
        };
        Ok(
            Image {
                url,
                start_date: raw.start_date,
                full_start_date: raw.full_start_date,
                end_date: raw.end_date,
                id_parsed: ID::parse(id.as_str()),
                id,
                copyright_parsed: Copyright::parse(raw.copyright.as_str()),
                copyright_link,
                copyright: raw.copyright,
                title: raw.title,
                quiz_link,
                wallpaper: raw.wallpaper,
                hash: raw.hash,
            },
        )
    }

    /// Reads a record of the service: resolves its links against the
    /// address of the service, takes the identifier from the `id` parameter
    /// of the resolved address, and reads identifier and attribution line.
    ///
    /// `ErrorKind::InvalidUrl` where a link does not resolve,
    /// `ErrorKind::MissingId` where the address has no `id`.
    pub fn parse(image: bing::Image) -> (r: Result<Image, ErrorKind>)
        ensures
            view_of(r) == spec_parse(image),
    {
        let url = match resolve(BASE_URL, image.url.as_str()) {
            Ok(url) => Some(url),
            Err(_) => None,
        };
        let query = match &url {
            Some(url) => match query_pairs(url.as_str()) {
                Ok(pairs) => Some(pairs),
                Err(_) => None,
            },
            None => None,
        };
        let copyright_link = match resolve(BASE_URL, image.copyright_link.as_str()) {
            Ok(url) => Some(url),
            Err(_) => None,
        };
        let quiz_link = match resolve(BASE_URL, image.quiz_link.as_str()) {
            Ok(url) => Some(url),
            Err(_) => None,
        };
        Image::assemble(image, url, query, copyright_link, quiz_link)
    }

    /// Reads the records of a response. A record that cannot be read is left
    /// out of the images and listed with its error; it does not cost the
    /// others.
    pub fn parse_all(records: Vec<bing::Image>) -> (r: (Vec<Image>, Vec<Dropped>))
        ensures
            views(r.0@) == spec_parse_all(records@),
            r.1@ == spec_dropped(records@),
    {
        let mut images: Vec<Image> = Vec::new();
        let mut dropped: Vec<Dropped> = Vec::new();
        let ghost all = records@;
        let count = records.len();
        let mut index: usize = 0;
        assert(views(images@) =~= spec_parse_all(all.take(0)));
        assert(dropped@ =~= spec_dropped(all.take(0)));
        for record in it: records
            invariant
                it.seq() == all,
                count == all.len(),
                index == it.index(),
                views(images@) == spec_parse_all(all.take(it.index() as int)),
                dropped@ == spec_dropped(all.take(it.index() as int)),
        {
            let ghost done = views(images@);
            let ghost next = all.take(it.index() + 1);
            assert(next.drop_last() =~= all.take(it.index() as int));
            assert(next.last() == record);
            match Image::parse(record) {
                Ok(image) => {
                    images.push(image);
                    assert(views(images@) =~= done.push(image@));
                },
                Err(error) => {
                    dropped.push(Dropped { index, error });
                },
            }
            index += 1;
        }
        assert(all.take(all.len() as int) =~= all);
        (images, dropped)
    }

    /// A builder for the address of this image's thumbnail.
    pub fn url_builder(&self) -> (r: UrlBuilder)
        ensures
            r@ == (crate::bing::url::UrlBuilderView {
                id: self.id@,
                pid: None,
                width: None,
                height: None,
                padding: None,
                crop: None,
            }),
    {
        UrlBuilder::new(self.id.as_str())
    }

    /// The title under which the image is shown: its attribution line where
    /// the title is empty or `Info`, else its title.
    pub open spec fn spec_display_title(self) -> Seq<char> {
        if self.title@.len() == 0 || self.title@ == "Info"@ {
            self.copyright@
        } else {
            self.title@
        }
    }

    /// The title under which the image is shown: its attribution line where
    /// the title is empty or `Info`, else its title.
    pub fn display_title(&self) -> (s: &str)
        ensures
            s@ == self.spec_display_title(),
    {
        if self.title.as_str().is_empty() || same_text(self.title.as_str(), "Info") {
            self.copyright.as_str()
        } else {
            self.title.as_str()
        }
    }
}

} // verus!
