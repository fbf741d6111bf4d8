//! Staleness: whether a list of images is old enough to be fetched again.

use crate::image::{views, Image, ImageView};
use chrono::{DateTime, NaiveDateTime, Utc};
use std::time::SystemTime;
use vstd::prelude::*;

verus! {

/// The error of `NaiveDateTime::parse_from_str`.
#[verifier::external_type_specification]
#[verifier::external_body]
pub struct ExDateError(chrono::format::ParseError);

/// A point in time, in seconds since the start of 1970 in UTC.
pub type Seconds = i64;

/// The seconds of a day.
pub const DAY: Seconds = 86_400;

/// The seconds of a week.
pub const WEEK: Seconds = 604_800;

/// The point in time that `chrono` reads from a text of the form
/// `YYYYMMDDHHmm`, taken as UTC; `None` where it reads none.
pub uninterp spec fn minute_of(text: Seq<char>) -> Option<Seconds>;

/// Reads `text` with `NaiveDateTime::parse_from_str` of `chrono` and the
/// format `%Y%m%d%H%M`, and gives the seconds from the start of 1970 to that
/// minute in UTC.
#[verifier::external_body]
fn read_minute(text: &str) -> (r: Result<Seconds, chrono::format::ParseError>)
    ensures
        match r {
            Ok(t) => minute_of(text@) == Some(t),
            Err(_) => minute_of(text@) is None,
        },
{
    NaiveDateTime::parse_from_str(text, "%Y%m%d%H%M").map(|minute| minute.and_utc().timestamp())
}

/// Reads the clock of the system and has `chrono` turn it, with
/// `DateTime::<Utc>::from` and `timestamp`, into the seconds from the start
/// of 1970 to now; before 1970 they are negative.
#[verifier::external_body]
pub(crate) fn now() -> Seconds {
    DateTime::<Utc>::from(SystemTime::now()).timestamp()
}

/// The start of an image, where its `full_start_date` can be read.
pub open spec fn start_of(image: ImageView) -> Option<Seconds> {
    minute_of(image.full_start_date)
}

/// The latest start among the images whose start can be read.
pub open spec fn latest_start(images: Seq<ImageView>) -> Option<Seconds>
    decreases images.len(),
{
    if images.len() == 0 {
        None
    } else {
        let before = latest_start(images.drop_last());
        match (before, start_of(images.last())) {
            (Some(a), Some(b)) => Some(
                if a >= b {
                    a
                } else {
                    b
                },
            ),
            (Some(a), None) => Some(a),
            (None, start) => start,
        }
    }
}

/// The list is stale at `now`: it has no image whose start can be read, or
/// the latest start is more than `max_age` seconds ago.
pub open spec fn stale_at(images: Seq<ImageView>, now: Seconds, max_age: Seconds) -> bool {
    match latest_start(images) {
        Some(latest) => now - latest > max_age,
        None => true,
    }
}

/// The latest start among the images whose start can be read.
pub fn latest_start_of(images: &[Image]) -> (r: Option<Seconds>)
    ensures
        r == latest_start(views(images@)),
{
    let mut latest: Option<Seconds> = None;
    let mut i: usize = 0;
    assert(views(images@).take(0) =~= Seq::empty());
    while i < images.len()
        invariant
            i <= images.len(),
            latest == latest_start(views(images@).take(i as int)),
        decreases images.len() - i,
    {
        proof {
            let next = views(images@).take(i + 1);
            assert(next.drop_last() =~= views(images@).take(i as int));
            assert(next.last() == images@[i as int]@);
        }
        match read_minute(images[i].full_start_date.as_str()) {
            Ok(start) => {
                latest = match latest {
                    Some(a) => Some(
                        if a >= start {
                            a
                        } else {
                            start
                        },
                    ),
                    None => Some(start),
                };
            },
            Err(_) => {},
        }
        i += 1;
    }
    assert(views(images@).take(images.len() as int) =~= views(images@));
    latest
}

/// Whether a latest start of `latest` is stale at `now`.
pub fn is_older_than(latest: Option<Seconds>, now: Seconds, max_age: Seconds) -> (r: bool)
    ensures
        r == match latest {
            Some(latest) => now - latest > max_age,
            None => true,
        },
{
    match latest {
        Some(latest) => {
            let age: i128 = now as i128 - latest as i128;
            age > max_age as i128
        },
        None => true,
    }
}

/// Whether the list is stale at `now`: `true` if the latest image started
/// more than `max_age` seconds before `now`, or the list is empty or holds
/// no image whose start can be read.
pub fn is_stale_at(images: &[Image], now: Seconds, max_age: Seconds) -> (r: bool)
    ensures
        r == stale_at(views(images@), now, max_age),
{
    is_older_than(latest_start_of(images), now, max_age)
}

/// Whether the list is stale by the clock of the system: `true` if the
/// latest image started more than `max_age` seconds ago, or the list is
/// empty or holds no image whose start can be read.
pub fn is_stale(images: &[Image], max_age: Seconds) -> (r: bool)
    ensures
        exists|now: Seconds| r == stale_at(views(images@), now, max_age),
        latest_start(views(images@)) is None ==> r,
{
    let t = now();
    let r = is_stale_at(images, t, max_age);
    assert(r == stale_at(views(images@), t, max_age));
    r
}

/// An empty list is stale, whatever the time and the age.
pub proof fn lemma_empty_is_stale(now: Seconds, max_age: Seconds)
    ensures
        stale_at(Seq::empty(), now, max_age),
{
}

/// A list of one image is stale exactly where the image started more than
/// `max_age` seconds before `now`: at an age of `max_age` it is not yet.
pub proof fn lemma_one_is_stale(image: ImageView, now: Seconds, max_age: Seconds)
    ensures
        stale_at(seq![image], now, max_age) == match start_of(image) {
            Some(start) => now - start > max_age,
            None => true,
        },
{
    let one = seq![image];
    assert(one.drop_last() =~= Seq::<ImageView>::empty());
    assert(latest_start(one.drop_last()) is None);
}

/// The latest start is the start of an image of the list, and no image of
/// the list starts later.
pub proof fn lemma_latest_start(images: Seq<ImageView>)
    ensures
        latest_start(images) matches Some(latest) ==> exists|i: int|
            0 <= i < images.len() && start_of(#[trigger] images[i]) == Some(latest),
        forall|i: int|
            0 <= i < images.len() ==> (start_of(#[trigger] images[i]) matches Some(start)
                ==> latest_start(images) matches Some(latest) && start <= latest),
    decreases images.len(),
{
    if images.len() > 0 {
        let before = images.drop_last();
        lemma_latest_start(before);
        if let Some(latest) = latest_start(images) {
            if start_of(images.last()) == Some(latest) {
                assert(start_of(images[images.len() - 1]) == Some(latest));
            } else {
                let i = choose|i: int|
                    0 <= i < before.len() && start_of(#[trigger] before[i]) == Some(latest);
                assert(images[i] == before[i]);
            }
        }
        assert forall|i: int| 0 <= i < images.len() implies (start_of(#[trigger] images[i])
            matches Some(start) ==> latest_start(images) matches Some(latest) && start
            <= latest) by {
            if i < before.len() {
                assert(images[i] == before[i]);
            }
        }
    }
}

/// A list that is stale at some time stays stale from then on, and is stale
/// for every shorter age.
pub proof fn lemma_stale_stays_stale(
    images: Seq<ImageView>,
    now: Seconds,
    max_age: Seconds,
    later: Seconds,
    shorter: Seconds,
)
    requires
        stale_at(images, now, max_age),
        now <= later,
        shorter <= max_age,
    ensures
        stale_at(images, later, shorter),
{
}

/// More images never make a list stale: a list is stale wherever a list
/// that holds it and more is stale.
pub proof fn lemma_more_is_fresher(
    images: Seq<ImageView>,
    more: Seq<ImageView>,
    now: Seconds,
    max_age: Seconds,
)
    requires
        stale_at(images + more, now, max_age),
    ensures
        stale_at(images, now, max_age),
{
    let all = images + more;
    lemma_latest_start(all);
    lemma_latest_start(images);
    if let Some(latest) = latest_start(images) {
        let i = choose|i: int|
            0 <= i < images.len() && start_of(#[trigger] images[i]) == Some(latest);
        assert(all[i] == images[i]);
    }
}

} // verus!
