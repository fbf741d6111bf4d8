//! The language of the interface that goes with a market.

use crate::bing::market::Market;
use vstd::prelude::*;

verus! {

/// The locale of the interface for a market, as characters.
pub open spec fn spec_from_market(market: Market) -> Seq<char> {
    match market {
        Market::ZH_CN => "zh-CN"@,
        _ => "en"@,
    }
}

/// Maps a market to the closest available locale of the interface:
/// `zh-CN` for the market of that code, `en` for every other.
pub fn from_market(market: Market) -> (r: &'static str)
    ensures
        r@ == spec_from_market(market),
{
    match market {
        Market::ZH_CN => "zh-CN",
        _ => "en",
    }
}

} // verus!
