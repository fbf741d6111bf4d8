//! The parameters of an image archive request.

use crate::bing::form::{
    address, encode, optional, pairs_view, push_optional, push_pair, spec_address, spec_encode,
    view_of, Pair,
};
use crate::bing::format::Format;
use crate::bing::market::Market;
use crate::bing::HP_IMAGE_ARCHIVE_URL;
use crate::decimal::{decimal, decimal_string};
use crate::error::ErrorKind;
use vstd::prelude::*;

verus! {

/// What a request to the image archive asks for.
#[derive(Debug, Clone, Copy)]
pub struct Query {
    /// Response format
    pub format: Option<Format>,
    /// The offset in days from today: 0 is today's image.
    pub index: usize,
    /// The number of images.
    pub number: usize,
    /// The market whose feed is read.
    pub market: Option<Market>,
    /// Whether the images are asked for at native resolution.
    pub uhd: Option<bool>,
}

/// The value of the `format` parameter.
pub open spec fn format_text(format: Option<Format>) -> Option<Seq<char>> {
    match format {
        Some(f) => Some(f.spec_code()),
        None => None,
    }
}

/// The value of the `mkt` parameter.
pub open spec fn market_text(market: Option<Market>) -> Option<Seq<char>> {
    match market {
        Some(m) => Some(m.spec_code()),
        None => None,
    }
}

/// The value of the `uhd` parameter: `1` for yes, `0` for no.
pub open spec fn flag_text(flag: Option<bool>) -> Option<Seq<char>> {
    match flag {
        Some(true) => Some("1"@),
        Some(false) => Some("0"@),
        None => None,
    }
}

impl Query {
    /// The parameters that are sent: `format`, `idx`, `n`, `mkt` and `uhd`,
    /// the optional ones only where they have a value.
    pub open spec fn spec_pairs(self) -> Seq<(Seq<char>, Seq<char>)> {
        optional("format"@, format_text(self.format)) + seq![
            ("idx"@, decimal(self.index as nat)),
            ("n"@, decimal(self.number as nat)),
        ] + optional("mkt"@, market_text(self.market)) + optional("uhd"@, flag_text(self.uhd))
    }

    /// The address of the request.
    pub open spec fn spec_url(self) -> Result<Seq<char>, ErrorKind> {
        spec_address(HP_IMAGE_ARCHIVE_URL@, self.spec_pairs())
    }

    /// A query for `number` images from the day `index`, in the given
    /// format; market and resolution are those of `default`.
    pub fn new(format: Option<Format>, index: usize, number: usize) -> (r: Self)
        ensures
            r == (Query { format, index, number, market: Some(Market::EN_US), uhd: Some(true) }),
    {
        Query { format, index, number, market: Some(Market::EN_US), uhd: Some(true) }
    }

    /// The parameters that are sent, in their order.
    pub fn pairs(&self) -> (r: Vec<Pair>)
        ensures
            pairs_view(r@) == self.spec_pairs(),
    {
        let mut pairs: Vec<Pair> = Vec::new();
        assert(pairs_view(pairs@) =~= Seq::empty());
        let format = match self.format {
            Some(f) => Some(f.code().to_owned()),
            None => None,
        };
        push_optional(&mut pairs, "format", format);
        push_pair(&mut pairs, "idx", decimal_string(self.index as u64));
        push_pair(&mut pairs, "n", decimal_string(self.number as u64));
        let market = match self.market {
            Some(m) => Some(m.code().to_owned()),
            None => None,
        };
        push_optional(&mut pairs, "mkt", market);
        let uhd = match self.uhd {
            Some(true) => Some("1".to_owned()),
            Some(false) => Some("0".to_owned()),
            None => None,
        };
        push_optional(&mut pairs, "uhd", uhd);
        assert(pairs_view(pairs@) =~= self.spec_pairs());
        pairs
    }

    /// The query string of the request, or `ErrorKind::Encode` where the
    /// parameters cannot be encoded.
    pub fn encode(&self) -> (r: Result<String, ErrorKind>)
        ensures
            view_of(r) == spec_encode(self.spec_pairs()),
    {
        encode(&self.pairs())
    }

    /// The address of the request: the endpoint of the archive, a question
    /// mark and the encoded parameters.
    pub fn url(&self) -> (r: Result<String, ErrorKind>)
        ensures
            view_of(r) == self.spec_url(),
    {
        address(HP_IMAGE_ARCHIVE_URL, &self.pairs())
    }
}

impl Default for Query {
    /// Eight images from today on, as JSON, of the market `en-US`, at native
    /// resolution.
    fn default() -> (r: Self)
        ensures
            r == (Query {
                format: Some(Format::JSON),
                index: 0,
                number: 8,
                market: Some(Market::EN_US),
                uhd: Some(true),
            }),
    {
        Query {
            format: Some(Format::JSON),
            index: 0,
            number: 8,
            market: Some(Market::EN_US),
            uhd: Some(true),
        }
    }
}

} // verus!
