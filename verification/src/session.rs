//! What a viewer does with its lists: searching them, and deciding what to
//! show and what to refresh when the market changes.

use crate::bing::market::Market;
use crate::image::{views, Image, ImageView};
use crate::stale::{is_stale_at, now, stale_at, Seconds, DAY};
use crate::text::chars_of;
use vstd::prelude::*;

verus! {

/// The text `s` in lower case, as `str::to_lowercase` gives it.
pub uninterp spec fn lowercase(s: Seq<char>) -> Seq<char>;

/// `str::to_lowercase` gives the lower-case form of a text, by the rules of
/// Unicode.
pub assume_specification[ str::to_lowercase ](s: &str) -> (r: String)
    ensures
        r@ == lowercase(s@),
;

/// `needle` stands somewhere in `hay`.
pub open spec fn contains_text(hay: Seq<char>, needle: Seq<char>) -> bool {
    exists|i: int|
        0 <= i <= hay.len() - needle.len() && #[trigger] hay.subrange(i, i + needle.len())
            == needle
}

/// Whether `needle` stands somewhere in `hay`.
pub fn contains_chars(hay: &[char], needle: &[char]) -> (r: bool)
    ensures
        r == contains_text(hay@, needle@),
{
    if needle.len() > hay.len() {
        return false;
    }
    let last: usize = hay.len() - needle.len();
    let mut i: usize = 0;
    while i <= last
        invariant
            i <= last + 1,
            last == hay.len() - needle.len(),
            forall|k: int| 0 <= k < i ==> #[trigger] hay@.subrange(k, k + needle.len()) != needle@,
        decreases last + 1 - i,
    {
        let mut j: usize = 0;
        while j < needle.len() && hay[i + j] == needle[j]
            invariant
                j <= needle.len(),
                i <= last,
                last == hay.len() - needle.len(),
                forall|k: int| 0 <= k < j ==> hay@[i + k] == needle@[k],
            decreases needle.len() - j,
        {
            j += 1;
        }
        if j == needle.len() {
            assert(hay@.subrange(i as int, i + needle.len()) =~= needle@);
            return true;
        }
        assert(hay@.subrange(i as int, i + needle.len())[j as int] != needle@[j as int]);
        i += 1;
    }
    false
}

/// The image answers the query: its title or its attribution line holds the
/// query, case aside. `query` is in lower case already.
pub open spec fn answers(image: ImageView, query: Seq<char>) -> bool {
    contains_text(lowercase(image.title), query) || contains_text(
        lowercase(image.copyright),
        query,
    )
}

/// The images of the list that answer the query, in their order.
pub open spec fn answering(images: Seq<ImageView>, query: Seq<char>) -> Seq<ImageView>
    decreases images.len(),
{
    if images.len() == 0 {
        Seq::empty()
    } else if answers(images.last(), query) {
        answering(images.drop_last(), query).push(images.last())
    } else {
        answering(images.drop_last(), query)
    }
}

/// The images of the list whose title or attribution line holds the query,
/// case aside, in their order; all of them where the query is empty.
pub open spec fn spec_search(images: Seq<ImageView>, query: Seq<char>) -> Seq<ImageView> {
    if query.len() == 0 {
        images
    } else {
        answering(images, lowercase(query))
    }
}

/// Whether the title or the attribution line of `image`, in lower case,
/// holds `query`.
fn image_answers(image: &Image, query: &[char]) -> (r: bool)
    ensures
        r == answers(image@, query@),
{
    let title = chars_of(image.title.as_str().to_lowercase().as_str());
    if contains_chars(title.as_slice(), query) {
        return true;
    }
    let copyright = chars_of(image.copyright.as_str().to_lowercase().as_str());
    contains_chars(copyright.as_slice(), query)
}

/// The images whose title or attribution line holds `query`, whatever the
/// case of either; all images where `query` is empty.
pub fn search(images: &[Image], query: &str) -> (r: Vec<Image>)
    ensures
        views(r@) == spec_search(views(images@), query@),
{
    let all = query.is_empty();
    let lowered = query.to_lowercase();
    let needle = chars_of(lowered.as_str());
    let mut found: Vec<Image> = Vec::new();
    let mut i: usize = 0;
    assert(views(images@).take(0) =~= Seq::empty());
    assert(views(found@) =~= Seq::empty());
    while i < images.len()
        invariant
            i <= images.len(),
            all == (query@.len() == 0),
            needle@ == lowercase(query@),
            all ==> views(found@) == views(images@).take(i as int),
            !all ==> views(found@) == answering(views(images@).take(i as int), needle@),
        decreases images.len() - i,
    {
        let ghost before = views(found@);
        let ghost seen = views(images@).take(i as int);
        let ghost next = views(images@).take(i + 1);
        proof {
            assert(next =~= seen.push(images@[i as int]@));
            assert(next.drop_last() =~= seen);
        }
        if all || image_answers(&images[i], needle.as_slice()) {
            found.push(images[i].clone());
            assert(views(found@) =~= before.push(images@[i as int]@));
        }
        i += 1;
    }
    assert(views(images@).take(images.len() as int) =~= views(images@));
    found
}

/// What the viewer does when a market is chosen.
#[derive(Debug, Clone, Copy, PartialEq, Eq, Structural)]
pub struct Switch {
    /// The market to show.
    pub market: Market,
    /// Whether the list that is kept in memory for the market is shown; if
    /// not, the list that the viewer was built with is.
    pub from_cache: bool,
    /// Whether a refresh of the market is to start.
    pub reload: bool,
}

/// What the viewer does when the market `requested` is chosen while it
/// shows `current`. Nothing, where the text names no market or names the
/// market that is shown. Else it shows the list kept in memory, and
/// refreshes it only where it is older than a day; without such a list it
/// refreshes in any case.
pub open spec fn spec_switch(
    current: Market,
    requested: Seq<char>,
    cached: Option<Seq<ImageView>>,
    now: Seconds,
) -> Option<Switch> {
    match Market::spec_parse(requested) {
        None => None,
        Some(market) => if market == current {
            None
        } else {
            Some(
                Switch {
                    market,
                    from_cache: cached is Some,
                    reload: match cached {
                        Some(list) => stale_at(list, now, DAY),
                        None => true,
                    },
                },
            )
        },
    }
}

/// The views of a list that may be missing.
pub open spec fn cached_view(cached: Option<&[Image]>) -> Option<Seq<ImageView>> {
    match cached {
        Some(list) => Some(views(list@)),
        None => None,
    }
}

/// What the viewer does when the market `requested` is chosen at the time
/// `now`, while it shows `current` and keeps `cached` for the market
/// chosen.
pub fn switch_market_at(
    current: Market,
    requested: &str,
    cached: Option<&[Image]>,
    now: Seconds,
) -> (r: Option<Switch>)
    ensures
        r == spec_switch(current, requested@, cached_view(cached), now),
{
    match Market::parse(requested) {
        None => None,
        Some(market) => {
            if market == current {
                None
            } else {
                match cached {
                    Some(list) => Some(
                        Switch { market, from_cache: true, reload: is_stale_at(list, now, DAY) },
                    ),
                    None => Some(Switch { market, from_cache: false, reload: true }),
                }
            }
        },
    }
}

/// What the viewer does when the market `requested` is chosen, by the clock
/// of the system.
pub fn switch_market(current: Market, requested: &str, cached: Option<&[Image]>) -> (r: Option<
    Switch,
>)
    ensures
        exists|now: Seconds| r == spec_switch(current, requested@, cached_view(cached), now),
{
    let t: Seconds = now();
    let r = switch_market_at(current, requested, cached, t);
    assert(r == spec_switch(current, requested@, cached_view(cached), t));
    r
}

} // verus!
