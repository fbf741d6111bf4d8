//! Lists of images: putting two lists together, without duplicates and in
//! order.

use crate::bing::market::Market;
use crate::image::{views, Image, ImageView};
use crate::order::{lemma_lex_le_total, lemma_lex_le_transitive, str_le, text_le};
use ahash::AHashSet;
use vstd::prelude::*;
use vstd::utf8::encode_utf8;

verus! {

/// The hash set of the `ahash` crate.
#[verifier::external_type_specification]
#[verifier::external_body]
#[verifier::reject_recursive_types(T)]
#[verifier::reject_recursive_types(S)]
pub struct ExAHashSet<T, S>(AHashSet<T, S>);

/// The hasher with which `AHashSet::new` makes its sets.
#[verifier::external_type_specification]
#[verifier::external_body]
pub struct ExRandomState(ahash::RandomState);

/// The strings that a set holds, as texts.
pub uninterp spec fn members(set: AHashSet<String>) -> Set<Seq<char>>;

/// `AHashSet::new` makes a set that holds nothing. It draws the keys of its
/// hasher from the random source of the system, and panics where that fails.
#[verifier::external_body]
fn new_set() -> (set: AHashSet<String>)
    ensures
        members(set) == Set::<Seq<char>>::empty(),
{
    AHashSet::new()
}

/// `HashSet::insert`, which an `AHashSet` hands on to the set of the standard
/// library that it wraps, puts the string into the set and tells whether the
/// set did not hold it before; a set that held it stays as it was.
#[verifier::external_body]
fn insert(set: &mut AHashSet<String>, key: String) -> (fresh: bool)
    ensures
        members(*final(set)) == members(*old(set)).insert(key@),
        fresh == !members(*old(set)).contains(key@),
{
    set.insert(key)
}

/// The text by which two images count as one.
#[derive(Debug, Clone, Copy, PartialEq, Eq, Structural)]
pub enum Identity {
    /// The identifier of the image.
    Id,
    /// The fingerprint of the image.
    Hash,
}

impl Identity {
    /// The text of `image` by which it is told from others.
    pub open spec fn of(self, image: ImageView) -> Seq<char> {
        match self {
            Identity::Id => image.id,
            Identity::Hash => image.hash,
        }
    }

    /// The text of `image` by which it is told from others.
    pub fn get<'a>(self, image: &'a Image) -> (r: &'a str)
        ensures
            r@ == self.of(image@),
    {
        match self {
            Identity::Id => image.id.as_str(),
            Identity::Hash => image.hash.as_str(),
        }
    }
}

/// An order of images.
#[derive(Debug, Clone, Copy, PartialEq, Eq, Structural)]
pub enum Order {
    /// By `full_start_date`, the latest first.
    NewestFirst,
    /// By `start_date`, the latest first.
    LatestDayFirst,
    /// By `hash`, the least first.
    ByHash,
}

impl Order {
    /// `x` may stand before `y`: in an order by date it did not start before
    /// `y`, in the order by hash its hash is not the greater.
    pub open spec fn allows(self, x: ImageView, y: ImageView) -> bool {
        match self {
            Order::NewestFirst => text_le(y.full_start_date, x.full_start_date),
            Order::LatestDayFirst => text_le(y.start_date, x.start_date),
            Order::ByHash => text_le(x.hash, y.hash),
        }
    }

    /// Whether `x` may stand before `y`.
    pub fn check(self, x: &Image, y: &Image) -> (r: bool)
        ensures
            r == self.allows(x@, y@),
    {
        match self {
            Order::NewestFirst => str_le(y.full_start_date.as_str(), x.full_start_date.as_str()),
            Order::LatestDayFirst => str_le(y.start_date.as_str(), x.start_date.as_str()),
            Order::ByHash => str_le(x.hash.as_str(), y.hash.as_str()),
        }
    }

    /// Of two images, one may stand before the other.
    pub proof fn lemma_total(self, x: ImageView, y: ImageView)
        ensures
            self.allows(x, y) || self.allows(y, x),
    {
        lemma_lex_le_total(encode_utf8(x.full_start_date), encode_utf8(y.full_start_date));
        lemma_lex_le_total(encode_utf8(x.start_date), encode_utf8(y.start_date));
        lemma_lex_le_total(encode_utf8(x.hash), encode_utf8(y.hash));
    }

    /// Where `x` may stand before `y` and `y` before `z`, `x` may stand
    /// before `z`.
    pub proof fn lemma_transitive(self, x: ImageView, y: ImageView, z: ImageView)
        requires
            self.allows(x, y),
            self.allows(y, z),
        ensures
            self.allows(x, z),
    {
        match self {
            Order::NewestFirst => lemma_lex_le_transitive(
                encode_utf8(z.full_start_date),
                encode_utf8(y.full_start_date),
                encode_utf8(x.full_start_date),
            ),
            Order::LatestDayFirst => lemma_lex_le_transitive(
                encode_utf8(z.start_date),
                encode_utf8(y.start_date),
                encode_utf8(x.start_date),
            ),
            Order::ByHash => lemma_lex_le_transitive(
                encode_utf8(x.hash),
                encode_utf8(y.hash),
                encode_utf8(z.hash),
            ),
        }
    }
}

/// Some image of the list goes by the text `k`.
pub open spec fn has_key(s: Seq<ImageView>, by: Identity, k: Seq<char>) -> bool {
    exists|i: int| 0 <= i < s.len() && by.of(#[trigger] s[i]) == k
}

/// The texts by which the images of a list go.
pub open spec fn keys(s: Seq<ImageView>, by: Identity) -> Set<Seq<char>> {
    Set::new(|k: Seq<char>| has_key(s, by, k))
}

/// The first image of the list that goes by the text `k`.
pub open spec fn lookup(s: Seq<ImageView>, by: Identity, k: Seq<char>) -> Option<ImageView>
    decreases s.len(),
{
    if s.len() == 0 {
        None
    } else if by.of(s[0]) == k {
        Some(s[0])
    } else {
        lookup(s.drop_first(), by, k)
    }
}

/// No two images of the list go by the same text.
pub open spec fn distinct(s: Seq<ImageView>, by: Identity) -> bool {
    forall|i: int, j: int|
        0 <= i < j < s.len() ==> by.of(#[trigger] s[i]) != by.of(#[trigger] s[j])
}

/// The list is in order: every image may stand before those behind it.
pub open spec fn ordered(s: Seq<ImageView>, o: Order) -> bool {
    forall|i: int, j: int| 0 <= i < j < s.len() ==> o.allows(#[trigger] s[i], #[trigger] s[j])
}

/// No two images of the list have the same identifier.
pub open spec fn distinct_ids(s: Seq<ImageView>) -> bool {
    distinct(s, Identity::Id)
}

/// The list is in order, newest first; images of the same minute may stand
/// in any order.
pub open spec fn newest_first(s: Seq<ImageView>) -> bool {
    ordered(s, Order::NewestFirst)
}

/// The list without the images that go by the text of an earlier image: of
/// the images with one text the first stays, at its place.
pub open spec fn dedup(s: Seq<ImageView>, by: Identity) -> Seq<ImageView>
    decreases s.len(),
{
    if s.len() == 0 {
        Seq::empty()
    } else if has_key(s.drop_last(), by, by.of(s.last())) {
        dedup(s.drop_last(), by)
    } else {
        dedup(s.drop_last(), by).push(s.last())
    }
}

/// The number of images at the start of the list that may stand before `x`.
pub open spec fn insert_position(s: Seq<ImageView>, x: ImageView, o: Order) -> nat
    decreases s.len(),
{
    if s.len() > 0 && o.allows(s[0], x) {
        1 + insert_position(s.drop_first(), x, o)
    } else {
        0
    }
}

/// The list with `x` put behind the images at its start that may stand
/// before `x`.
pub open spec fn insert_sorted(s: Seq<ImageView>, x: ImageView, o: Order) -> Seq<ImageView> {
    s.insert(insert_position(s, x, o) as int, x)
}

/// The list in order; images of which either may stand before the other
/// keep the order in which they stand in the list.
pub open spec fn sort(s: Seq<ImageView>, o: Order) -> Seq<ImageView>
    decreases s.len(),
{
    if s.len() == 0 {
        Seq::empty()
    } else {
        insert_sorted(sort(s.drop_last(), o), s.last(), o)
    }
}

/// The two lists as one: the incoming images first, so that they win over
/// the existing ones with the same identifier, then without duplicates and
/// in order, newest first.
pub open spec fn spec_merge(existing: Seq<ImageView>, incoming: Seq<ImageView>) -> Seq<ImageView> {
    sort(dedup(incoming + existing, Identity::Id), Order::NewestFirst)
}

/// The two lists as one, told apart by fingerprint: the incoming images
/// first, so that they win over the existing ones with the same
/// fingerprint; in order by day, the latest first, and within a day by
/// fingerprint.
pub open spec fn spec_merge_by_hash(existing: Seq<ImageView>, incoming: Seq<ImageView>) -> Seq<
    ImageView,
> {
    sort(
        dedup(sort(incoming + existing, Order::ByHash), Identity::Hash),
        Order::LatestDayFirst,
    )
}

/// The texts of a list that got one more image.
proof fn lemma_keys_push(s: Seq<ImageView>, by: Identity, x: ImageView)
    ensures
        keys(s.push(x), by) == keys(s, by).insert(by.of(x)),
{
    let t = s.push(x);
    assert forall|k: Seq<char>| keys(t, by).contains(k) <==> keys(s, by).insert(
        by.of(x),
    ).contains(k) by {
        if has_key(t, by, k) {
            let i = choose|i: int| 0 <= i < t.len() && by.of(#[trigger] t[i]) == k;
            if i < s.len() {
                assert(by.of(s[i]) == k);
            }
        }
        if has_key(s, by, k) {
            let i = choose|i: int| 0 <= i < s.len() && by.of(#[trigger] s[i]) == k;
            assert(by.of(t[i]) == k);
        }
        if k == by.of(x) {
            assert(by.of(t[s.len() as int]) == k);
        }
    }
    assert(keys(t, by) =~= keys(s, by).insert(by.of(x)));
}

/// The images at the start that may stand before `x`, followed by one that
/// may not or by the end, fix the place of `x`.
proof fn lemma_insert_position_is(s: Seq<ImageView>, x: ImageView, o: Order, p: nat)
    requires
        p <= s.len(),
        forall|j: int| 0 <= j < p ==> o.allows(#[trigger] s[j], x),
        p < s.len() ==> !o.allows(s[p as int], x),
    ensures
        insert_position(s, x, o) == p,
    decreases s.len(),
{
    if p > 0 {
        let rest = s.drop_first();
        assert(o.allows(s[0], x));
        assert forall|j: int| 0 <= j < p - 1 implies o.allows(#[trigger] rest[j], x) by {
            assert(rest[j] == s[j + 1]);
        }
        lemma_insert_position_is(rest, x, o, (p - 1) as nat);
    }
}

/// Puts `x` into the list, at its place in the order.
fn insert_in_order(list: &mut Vec<Image>, x: Image, o: Order)
    ensures
        views(final(list)@) == insert_sorted(views(old(list)@), x@, o),
{
    let mut p: usize = 0;
    while p < list.len() && o.check(&list[p], &x)
        invariant
            p <= list.len(),
            forall|j: int| 0 <= j < p ==> o.allows(#[trigger] views(list@)[j], x@),
        decreases list.len() - p,
    {
        p += 1;
    }
    proof {
        lemma_insert_position_is(views(list@), x@, o, p as nat);
    }
    let ghost before = views(list@);
    list.insert(p, x);
    assert(views(list@) =~= before.insert(p as int, x@));
}

/// Takes the images of `source` into `list`, each at its place in the
/// order, but for those that go by a text that `seen` holds already.
fn absorb(
    list: &mut Vec<Image>,
    seen: &mut AHashSet<String>,
    source: &[Image],
    by: Identity,
    o: Order,
    Ghost(taken): Ghost<Seq<ImageView>>,
)
    requires
        views(old(list)@) == sort(dedup(taken, by), o),
        members(*old(seen)) == keys(taken, by),
    ensures
        views(final(list)@) == sort(dedup(taken + views(source@), by), o),
        members(*final(seen)) == keys(taken + views(source@), by),
{
    let mut i: usize = 0;
    assert(taken + views(source@).take(0) =~= taken);
    while i < source.len()
        invariant
            i <= source.len(),
            views(list@) == sort(dedup(taken + views(source@).take(i as int), by), o),
            members(*seen) == keys(taken + views(source@).take(i as int), by),
        decreases source.len() - i,
    {
        let image = &source[i];
        let ghost before = taken + views(source@).take(i as int);
        let ghost after = taken + views(source@).take(i + 1);
        proof {
            assert(after =~= before.push(image@));
            assert(after.drop_last() =~= before);
            lemma_keys_push(before, by, image@);
        }
        if insert(seen, by.get(image).to_owned()) {
            insert_in_order(list, image.clone(), o);
            proof {
                let kept = dedup(before, by);
                assert(!keys(before, by).contains(by.of(image@)));
                assert(!has_key(before, by, by.of(image@)));
                assert(dedup(after, by) == kept.push(image@));
                assert(kept.push(image@).drop_last() =~= kept);
                assert(sort(kept.push(image@), o) == insert_sorted(sort(kept, o), image@, o));
            }
        } else {
            proof {
                assert(keys(before, by).contains(by.of(image@)));
                assert(has_key(before, by, by.of(image@)));
                assert(dedup(after, by) == dedup(before, by));
            }
        }
        i += 1;
    }
    assert(views(source@).take(source.len() as int) =~= views(source@));
}

/// The images of the two lists that are the first to go by their text, the
/// incoming ones taken first, in order.
fn combine(existing: &[Image], incoming: &[Image], by: Identity, o: Order) -> (r: Vec<Image>)
    ensures
        views(r@) == sort(dedup(views(incoming@) + views(existing@), by), o),
{
    let mut seen = new_set();
    let mut result: Vec<Image> = Vec::new();
    let ghost none = Seq::<ImageView>::empty();
    assert(views(result@) =~= sort(dedup(none, by), o));
    assert(keys(none, by) =~= Set::<Seq<char>>::empty());
    absorb(&mut result, &mut seen, incoming, by, o, Ghost(none));
    assert(none + views(incoming@) =~= views(incoming@));
    absorb(&mut result, &mut seen, existing, by, o, Ghost(views(incoming@)));
    result
}

/// The list in order.
fn sorted(list: &[Image], o: Order) -> (r: Vec<Image>)
    ensures
        views(r@) == sort(views(list@), o),
{
    let mut result: Vec<Image> = Vec::new();
    let mut i: usize = 0;
    assert(views(result@) =~= sort(views(list@).take(0), o));
    while i < list.len()
        invariant
            i <= list.len(),
            views(result@) == sort(views(list@).take(i as int), o),
        decreases list.len() - i,
    {
        proof {
            let next = views(list@).take(i + 1);
            assert(next.drop_last() =~= views(list@).take(i as int));
            assert(next.last() == list@[i as int]@);
        }
        insert_in_order(&mut result, list[i].clone(), o);
        i += 1;
    }
    assert(views(list@).take(list.len() as int) =~= views(list@));
    result
}

/// Merges two image lists, deduplicating by `id`. Images from `new` take
/// priority over those of `existing`. The result is in order, newest first
/// by `full_start_date`; images of the same minute keep the order in which
/// they came, those of `new` first.
pub fn merge(existing: &[Image], new: &[Image]) -> (r: Vec<Image>)
    ensures
        views(r@) == spec_merge(views(existing@), views(new@)),
{
    combine(existing, new, Identity::Id, Order::NewestFirst)
}

/// Merges two image lists, deduplicating by `hash`. Images from `new` take
/// priority over those of `existing`. The result is in order by
/// `start_date`, the latest day first; the images of a day stand in the
/// order of their hashes.
pub fn merge_by_hash(existing: &[Image], new: &[Image]) -> (r: Vec<Image>)
    ensures
        views(r@) == spec_merge_by_hash(views(existing@), views(new@)),
{
    let mut all: Vec<Image> = Vec::new();
    let mut i: usize = 0;
    assert(views(all@) =~= views(new@).take(0));
    while i < new.len()
        invariant
            i <= new.len(),
            views(all@) == views(new@).take(i as int),
        decreases new.len() - i,
    {
        let ghost before = views(all@);
        all.push(new[i].clone());
        assert(views(all@) =~= before.push(new@[i as int]@));
        assert(views(new@).take(i + 1) =~= views(new@).take(i as int).push(new@[i as int]@));
        i += 1;
    }
    assert(views(new@).take(new.len() as int) =~= views(new@));
    let mut j: usize = 0;
    assert(views(all@) =~= views(new@) + views(existing@).take(0));
    while j < existing.len()
        invariant
            j <= existing.len(),
            views(all@) == views(new@) + views(existing@).take(j as int),
        decreases existing.len() - j,
    {
        let ghost before = views(all@);
        all.push(existing[j].clone());
        assert(views(all@) =~= before.push(existing@[j as int]@));
        assert(views(existing@).take(j + 1) =~= views(existing@).take(j as int).push(
            existing@[j as int]@,
        ));
        j += 1;
    }
    assert(views(existing@).take(existing.len() as int) =~= views(existing@));
    let by_hash = sorted(all.as_slice(), Order::ByHash);
    let none: Vec<Image> = Vec::new();
    assert(views(by_hash@) + views(none@) =~= views(by_hash@));
    combine(none.as_slice(), by_hash.as_slice(), Identity::Hash, Order::LatestDayFirst)
}

/// The market that the identifier of an image names.
pub open spec fn market_of(image: ImageView) -> Option<Market> {
    match image.id_parsed {
        Some(id) => id.market,
        None => None,
    }
}

/// The images of the list whose identifier names `market`, in their order.
pub open spec fn spec_of_market(images: Seq<ImageView>, market: Market) -> Seq<ImageView>
    decreases images.len(),
{
    if images.len() == 0 {
        Seq::empty()
    } else if market_of(images.last()) == Some(market) {
        spec_of_market(images.drop_last(), market).push(images.last())
    } else {
        spec_of_market(images.drop_last(), market)
    }
}

/// The images of the list whose identifier names `market`, in their order.
/// An image whose identifier is not of the grammar, or names no market,
/// belongs to none.
pub fn of_market(images: &[Image], market: Market) -> (r: Vec<Image>)
    ensures
        views(r@) == spec_of_market(views(images@), market),
{
    let mut found: Vec<Image> = Vec::new();
    let mut i: usize = 0;
    assert(views(found@) =~= spec_of_market(views(images@).take(0), market));
    while i < images.len()
        invariant
            i <= images.len(),
            views(found@) == spec_of_market(views(images@).take(i as int), market),
        decreases images.len() - i,
    {
        let ghost before = views(found@);
        proof {
            let next = views(images@).take(i + 1);
            assert(next.drop_last() =~= views(images@).take(i as int));
            assert(next.last() == images@[i as int]@);
        }
        let named = match &images[i].id_parsed {
            Some(id) => match id.market {
                Some(m) => m == market,
                None => false,
            },
            None => false,
        };
        if named {
            found.push(images[i].clone());
            assert(views(found@) =~= before.push(images@[i as int]@));
        }
        i += 1;
    }
    assert(views(images@).take(images.len() as int) =~= views(images@));
    found
}

/// What `insert_position` counts: the images before the place may stand
/// before `x`, the image at the place may not.
pub proof fn lemma_insert_position(s: Seq<ImageView>, x: ImageView, o: Order)
    ensures
        insert_position(s, x, o) <= s.len(),
        forall|j: int| 0 <= j < insert_position(s, x, o) ==> o.allows(#[trigger] s[j], x),
        insert_position(s, x, o) < s.len() ==> !o.allows(s[insert_position(s, x, o) as int], x),
    decreases s.len(),
{
    if s.len() > 0 && o.allows(s[0], x) {
        let rest = s.drop_first();
        lemma_insert_position(rest, x, o);
        let p = insert_position(s, x, o);
        assert forall|j: int| 0 <= j < p implies o.allows(#[trigger] s[j], x) by {
            if j > 0 {
                assert(rest[j - 1] == s[j]);
            }
        }
        if p < s.len() {
            assert(rest[p - 1] == s[p as int]);
        }
    }
}

/// An image that goes into a list in order leaves the list in order.
pub proof fn lemma_insert_keeps_order(s: Seq<ImageView>, x: ImageView, o: Order)
    requires
        ordered(s, o),
    ensures
        ordered(insert_sorted(s, x, o), o),
{
    lemma_insert_position(s, x, o);
    let p = insert_position(s, x, o) as int;
    let t = insert_sorted(s, x, o);
    assert forall|i: int, j: int| 0 <= i < j < t.len() implies o.allows(
        #[trigger] t[i],
        #[trigger] t[j],
    ) by {
        if j < p {
            assert(t[i] == s[i] && t[j] == s[j]);
        } else if j == p {
            assert(t[i] == s[i]);
        } else if i > p {
            assert(t[i] == s[i - 1] && t[j] == s[j - 1]);
        } else if i < p {
            assert(t[i] == s[i] && t[j] == s[j - 1]);
        } else {
            let y = s[p];
            let z = s[j - 1];
            assert(t[j] == z);
            o.lemma_total(x, y);
            if j - 1 > p {
                assert(o.allows(s[p], s[j - 1]));
                o.lemma_transitive(x, y, z);
            }
        }
    }
}

/// The result of sorting is in order, and as long as the list.
pub proof fn lemma_sort_is_ordered(s: Seq<ImageView>, o: Order)
    ensures
        ordered(sort(s, o), o),
        sort(s, o).len() == s.len(),
    decreases s.len(),
{
    if s.len() > 0 {
        lemma_sort_is_ordered(s.drop_last(), o);
        lemma_insert_position(sort(s.drop_last(), o), s.last(), o);
        lemma_insert_keeps_order(sort(s.drop_last(), o), s.last(), o);
    }
}

/// Sorting neither adds nor loses an image: the sorted list holds the
/// images of the list, each as often as the list does.
pub proof fn lemma_sort_permutes(s: Seq<ImageView>, o: Order)
    ensures
        sort(s, o).to_multiset() == s.to_multiset(),
    decreases s.len(),
{
    if s.len() > 0 {
        let t = s.drop_last();
        let x = s.last();
        lemma_sort_permutes(t, o);
        let sorted = sort(t, o);
        lemma_insert_position(sorted, x, o);
        let p = insert_position(sorted, x, o) as int;
        let r = sorted.insert(p, x);
        assert(r.remove(p) =~= sorted);
        assert(r[p] == x);
        vstd::seq_lib::to_multiset_remove(r, p);
        r.to_multiset_ensures();
        assert(r.contains(x));
        assert(r.to_multiset() =~= sorted.to_multiset().insert(x));
        assert(s =~= t.push(x));
        vstd::seq_lib::to_multiset_build(t, x);
    } else {
        assert(sort(s, o) =~= s);
    }
}

/// A list in order is what sorting it gives.
pub proof fn lemma_sort_of_ordered(s: Seq<ImageView>, o: Order)
    requires
        ordered(s, o),
    ensures
        sort(s, o) == s,
    decreases s.len(),
{
    if s.len() > 0 {
        let t = s.drop_last();
        assert forall|i: int, j: int| 0 <= i < j < t.len() implies o.allows(
            #[trigger] t[i],
            #[trigger] t[j],
        ) by {
            assert(t[i] == s[i] && t[j] == s[j]);
        }
        lemma_sort_of_ordered(t, o);
        assert forall|j: int| 0 <= j < t.len() implies o.allows(#[trigger] t[j], s.last()) by {
            assert(t[j] == s[j]);
            assert(o.allows(s[j], s[s.len() - 1]));
        }
        lemma_insert_position_is(t, s.last(), o, t.len());
        assert(t.insert(t.len() as int, s.last()) =~= s);
    } else {
        assert(sort(s, o) =~= s);
    }
}

/// Looking a text up finds an image exactly where the list has one that
/// goes by it.
pub proof fn lemma_lookup(s: Seq<ImageView>, by: Identity, k: Seq<char>)
    ensures
        lookup(s, by, k) is Some <==> has_key(s, by, k),
        lookup(s, by, k) matches Some(x) ==> by.of(x) == k && s.contains(x),
    decreases s.len(),
{
    if s.len() > 0 {
        let rest = s.drop_first();
        lemma_lookup(rest, by, k);
        if by.of(s[0]) == k {
            assert(has_key(s, by, k));
            assert(s.contains(s[0]));
        } else {
            if has_key(s, by, k) {
                let i = choose|i: int| 0 <= i < s.len() && by.of(#[trigger] s[i]) == k;
                assert(by.of(rest[i - 1]) == k);
            }
            if has_key(rest, by, k) {
                let i = choose|i: int| 0 <= i < rest.len() && by.of(#[trigger] rest[i]) == k;
                assert(by.of(s[i + 1]) == k);
                let x = lookup(rest, by, k).unwrap();
                let j = choose|j: int| 0 <= j < rest.len() && rest[j] == x;
                assert(s[j + 1] == x);
            }
        }
    }
}

/// In two lists put together, a text is looked up in the first, and in the
/// second only where the first does not have it.
pub proof fn lemma_lookup_in_both(
    a: Seq<ImageView>,
    b: Seq<ImageView>,
    by: Identity,
    k: Seq<char>,
)
    ensures
        lookup(a + b, by, k) == if lookup(a, by, k) is Some {
            lookup(a, by, k)
        } else {
            lookup(b, by, k)
        },
    decreases a.len(),
{
    if a.len() == 0 {
        assert(a + b =~= b);
    } else {
        assert((a + b).drop_first() =~= a.drop_first() + b);
        lemma_lookup_in_both(a.drop_first(), b, by, k);
    }
}

/// In a list of one image, that image is found under its text, and nothing
/// under any other.
pub proof fn lemma_lookup_in_one(x: ImageView, by: Identity, k: Seq<char>)
    ensures
        lookup(seq![x], by, k) == if by.of(x) == k {
            Some(x)
        } else {
            None
        },
{
    let one = seq![x];
    assert(one.len() == 1 && one[0] == x);
    assert(one.drop_first() =~= Seq::<ImageView>::empty());
    assert(lookup(one.drop_first(), by, k) is None);
}

/// A list without duplicates has the texts of the whole list, each once,
/// with the image that the whole list has first under it.
pub proof fn lemma_dedup(s: Seq<ImageView>, by: Identity)
    ensures
        distinct(dedup(s, by), by),
        forall|k: Seq<char>| has_key(dedup(s, by), by, k) <==> has_key(s, by, k),
        forall|k: Seq<char>| lookup(dedup(s, by), by, k) == lookup(s, by, k),
    decreases s.len(),
{
    if s.len() > 0 {
        let t = s.drop_last();
        let x = s.last();
        let d = dedup(t, by);
        lemma_dedup(t, by);
        assert(s =~= t + seq![x]);
        assert forall|k: Seq<char>| has_key(dedup(s, by), by, k) <==> has_key(s, by, k) by {
            lemma_keys_push(t, by, x);
            assert(s =~= t.push(x));
            assert(has_key(s, by, k) <==> keys(t, by).insert(by.of(x)).contains(k));
            if has_key(t, by, by.of(x)) {
            } else {
                lemma_keys_push(d, by, x);
                assert(has_key(d.push(x), by, k) <==> keys(d, by).insert(by.of(x)).contains(k));
            }
        }
        assert forall|k: Seq<char>| lookup(dedup(s, by), by, k) == lookup(s, by, k) by {
            lemma_lookup_in_both(t, seq![x], by, k);
            lemma_lookup(t, by, k);
            lemma_lookup_in_one(x, by, k);
            if has_key(t, by, by.of(x)) {
                lemma_lookup(t, by, by.of(x));
            } else {
                lemma_lookup_in_both(d, seq![x], by, k);
                assert(d.push(x) =~= d + seq![x]);
                lemma_lookup(d, by, k);
            }
        }
        if !has_key(t, by, by.of(x)) {
            let r = d.push(x);
            assert forall|i: int, j: int| 0 <= i < j < r.len() implies by.of(#[trigger] r[i])
                != by.of(#[trigger] r[j]) by {
                if j < d.len() {
                    assert(r[i] == d[i] && r[j] == d[j]);
                } else {
                    assert(r[i] == d[i]);
                    if by.of(d[i]) == by.of(x) {
                        assert(has_key(d, by, by.of(x)));
                    }
                }
            }
        }
    }
}

/// A list whose images go by different texts has no duplicates to lose.
pub proof fn lemma_dedup_of_distinct(s: Seq<ImageView>, by: Identity)
    requires
        distinct(s, by),
    ensures
        dedup(s, by) == s,
    decreases s.len(),
{
    if s.len() > 0 {
        let t = s.drop_last();
        assert forall|i: int, j: int| 0 <= i < j < t.len() implies by.of(#[trigger] t[i])
            != by.of(#[trigger] t[j]) by {
            assert(t[i] == s[i] && t[j] == s[j]);
        }
        lemma_dedup_of_distinct(t, by);
        if has_key(t, by, by.of(s.last())) {
            let i = choose|i: int| 0 <= i < t.len() && by.of(#[trigger] t[i]) == by.of(s.last());
            assert(t[i] == s[i]);
            assert(by.of(s[i]) != by.of(s[s.len() - 1]));
        }
        assert(t.push(s.last()) =~= s);
    } else {
        assert(dedup(s, by) =~= s);
    }
}

/// Images that go by texts that the list has already add nothing to it.
pub proof fn lemma_dedup_absorbs(a: Seq<ImageView>, b: Seq<ImageView>, by: Identity)
    requires
        forall|i: int| 0 <= i < b.len() ==> has_key(a, by, by.of(#[trigger] b[i])),
    ensures
        dedup(a + b, by) == dedup(a, by),
    decreases b.len(),
{
    if b.len() == 0 {
        assert(a + b =~= a);
    } else {
        let c = b.drop_last();
        assert forall|i: int| 0 <= i < c.len() implies has_key(a, by, by.of(#[trigger] c[i])) by {
            assert(c[i] == b[i]);
        }
        lemma_dedup_absorbs(a, c, by);
        let s = a + b;
        assert(s.drop_last() =~= a + c);
        assert(s.last() == b.last());
        assert(has_key(a, by, by.of(b[b.len() - 1])));
        let i = choose|i: int| 0 <= i < a.len() && by.of(#[trigger] a[i]) == by.of(b.last());
        assert((a + c)[i] == a[i]);
        assert(has_key(a + c, by, by.of(b.last())));
    }
}

/// An image that goes by a new text and is put into a list is found under
/// its text; under the others the list has what it had.
pub proof fn lemma_insert_lookup(
    s: Seq<ImageView>,
    p: int,
    x: ImageView,
    by: Identity,
    k: Seq<char>,
)
    requires
        0 <= p <= s.len(),
        !has_key(s, by, by.of(x)),
    ensures
        lookup(s.insert(p, x), by, k) == if k == by.of(x) {
            Some(x)
        } else {
            lookup(s, by, k)
        },
        has_key(s.insert(p, x), by, k) <==> k == by.of(x) || has_key(s, by, k),
{
    let a = s.take(p);
    let b = s.skip(p);
    let one = seq![x];
    assert(s.insert(p, x) =~= a + (one + b));
    assert(s =~= a + b);
    lemma_lookup_in_both(a, one + b, by, k);
    lemma_lookup_in_both(one, b, by, k);
    lemma_lookup_in_both(a, b, by, k);
    lemma_lookup_in_one(x, by, k);
    lemma_lookup(a, by, k);
    lemma_lookup(s, by, k);
    lemma_lookup(s.insert(p, x), by, k);
    if k == by.of(x) && has_key(a, by, k) {
        let i = choose|i: int| 0 <= i < a.len() && by.of(#[trigger] a[i]) == k;
        assert(by.of(s[i]) == k);
    }
}

/// Sorting a list whose images go by different texts keeps every image
/// under its text, and the texts different.
pub proof fn lemma_sort_keeps_lookup(s: Seq<ImageView>, o: Order, by: Identity)
    requires
        distinct(s, by),
    ensures
        forall|k: Seq<char>| lookup(sort(s, o), by, k) == lookup(s, by, k),
        forall|k: Seq<char>| has_key(sort(s, o), by, k) <==> has_key(s, by, k),
        distinct(sort(s, o), by),
    decreases s.len(),
{
    if s.len() > 0 {
        let t = s.drop_last();
        let x = s.last();
        assert forall|i: int, j: int| 0 <= i < j < t.len() implies by.of(#[trigger] t[i])
            != by.of(#[trigger] t[j]) by {
            assert(t[i] == s[i] && t[j] == s[j]);
        }
        lemma_sort_keeps_lookup(t, o, by);
        let sorted = sort(t, o);
        lemma_insert_position(sorted, x, o);
        let p = insert_position(sorted, x, o) as int;
        if has_key(t, by, by.of(x)) {
            let i = choose|i: int| 0 <= i < t.len() && by.of(#[trigger] t[i]) == by.of(x);
            assert(t[i] == s[i]);
            assert(by.of(s[i]) != by.of(s[s.len() - 1]));
        }
        assert(!has_key(sorted, by, by.of(x)));
        assert(s =~= t + seq![x]);
        assert forall|k: Seq<char>| lookup(sort(s, o), by, k) == lookup(s, by, k) by {
            lemma_insert_lookup(sorted, p, x, by, k);
            lemma_lookup_in_both(t, seq![x], by, k);
            lemma_lookup_in_one(x, by, k);
            lemma_lookup(t, by, k);
        }
        assert forall|k: Seq<char>| has_key(sort(s, o), by, k) <==> has_key(s, by, k) by {
            lemma_insert_lookup(sorted, p, x, by, k);
            lemma_keys_push(t, by, x);
            assert(s =~= t.push(x));
            assert(has_key(s, by, k) <==> keys(t, by).insert(by.of(x)).contains(k));
        }
        let r = sorted.insert(p, x);
        assert forall|i: int, j: int| 0 <= i < j < r.len() implies by.of(#[trigger] r[i])
            != by.of(#[trigger] r[j]) by {
            let a = if i < p {
                i
            } else {
                i - 1
            };
            let b = if j < p {
                j
            } else {
                j - 1
            };
            if i == p {
                assert(r[j] == sorted[b]);
                if by.of(sorted[b]) == by.of(x) {
                    assert(has_key(sorted, by, by.of(x)));
                }
            } else if j == p {
                assert(r[i] == sorted[a]);
                if by.of(sorted[a]) == by.of(x) {
                    assert(has_key(sorted, by, by.of(x)));
                }
            } else {
                assert(r[i] == sorted[a] && r[j] == sorted[b]);
            }
        }
    }
}

/// The merged list is in order, newest first.
pub proof fn lemma_merge_is_sorted(existing: Seq<ImageView>, incoming: Seq<ImageView>)
    ensures
        newest_first(spec_merge(existing, incoming)),
{
    lemma_sort_is_ordered(dedup(incoming + existing, Identity::Id), Order::NewestFirst);
}

/// The merged list has every identifier of the two lists, and under it the
/// incoming image where there is one: on a collision the incoming image
/// wins, whichever of the two is newer.
pub proof fn lemma_merge_incoming_wins(
    existing: Seq<ImageView>,
    incoming: Seq<ImageView>,
    id: Seq<char>,
)
    ensures
        lookup(spec_merge(existing, incoming), Identity::Id, id) == if lookup(
            incoming,
            Identity::Id,
            id,
        ) is Some {
            lookup(incoming, Identity::Id, id)
        } else {
            lookup(existing, Identity::Id, id)
        },
{
    let all = incoming + existing;
    lemma_dedup(all, Identity::Id);
    lemma_sort_keeps_lookup(dedup(all, Identity::Id), Order::NewestFirst, Identity::Id);
    lemma_lookup_in_both(incoming, existing, Identity::Id, id);
}

/// The merged list has no identifier twice.
pub proof fn lemma_merge_is_distinct(existing: Seq<ImageView>, incoming: Seq<ImageView>)
    ensures
        distinct_ids(spec_merge(existing, incoming)),
{
    lemma_dedup(incoming + existing, Identity::Id);
    lemma_sort_keeps_lookup(
        dedup(incoming + existing, Identity::Id),
        Order::NewestFirst,
        Identity::Id,
    );
}

/// Merging nothing into a list sorts it and drops its duplicates.
pub proof fn lemma_merge_nothing(x: Seq<ImageView>)
    ensures
        spec_merge(x, Seq::empty()) == sort(dedup(x, Identity::Id), Order::NewestFirst),
{
    assert(Seq::<ImageView>::empty() + x =~= x);
}

/// Merging is idempotent: a list in order whose identifiers differ stays as
/// it is when nothing, or the list itself, is merged into it.
pub proof fn lemma_merge_is_idempotent(x: Seq<ImageView>)
    requires
        newest_first(x),
        distinct_ids(x),
    ensures
        spec_merge(x, Seq::empty()) == x,
        spec_merge(x, x) == x,
{
    lemma_merge_nothing(x);
    lemma_dedup_of_distinct(x, Identity::Id);
    lemma_sort_of_ordered(x, Order::NewestFirst);
    assert forall|i: int| 0 <= i < x.len() implies has_key(
        x,
        Identity::Id,
        Identity::Id.of(#[trigger] x[i]),
    ) by {}
    lemma_dedup_absorbs(x, x, Identity::Id);
}

/// What merging gives is a list that merging leaves alone.
pub proof fn lemma_merge_is_stable(existing: Seq<ImageView>, incoming: Seq<ImageView>)
    ensures
        spec_merge(spec_merge(existing, incoming), Seq::empty()) == spec_merge(existing, incoming),
{
    lemma_merge_is_sorted(existing, incoming);
    lemma_merge_is_distinct(existing, incoming);
    lemma_merge_is_idempotent(spec_merge(existing, incoming));
}

/// Merging into a list what came of merging something into it before
/// changes nothing: what the list holds, the merged list holds already.
pub proof fn lemma_merge_again(existing: Seq<ImageView>, incoming: Seq<ImageView>)
    ensures
        spec_merge(existing, spec_merge(existing, incoming)) == spec_merge(existing, incoming),
{
    let merged = spec_merge(existing, incoming);
    let all = incoming + existing;
    lemma_merge_is_sorted(existing, incoming);
    lemma_merge_is_distinct(existing, incoming);
    lemma_dedup(all, Identity::Id);
    lemma_sort_keeps_lookup(dedup(all, Identity::Id), Order::NewestFirst, Identity::Id);
    lemma_dedup_of_distinct(merged, Identity::Id);
    lemma_sort_of_ordered(merged, Order::NewestFirst);
    assert forall|i: int| 0 <= i < existing.len() implies has_key(
        merged,
        Identity::Id,
        Identity::Id.of(#[trigger] existing[i]),
    ) by {
        assert(all[incoming.len() + i] == existing[i]);
        assert(has_key(all, Identity::Id, Identity::Id.of(existing[i])));
    }
    lemma_dedup_absorbs(merged, existing, Identity::Id);
}

/// The list merged by fingerprint is in order by day, the latest first,
/// and has no fingerprint twice; under each fingerprint of the two lists it
/// has an image with that fingerprint.
pub proof fn lemma_merge_by_hash(existing: Seq<ImageView>, incoming: Seq<ImageView>)
    ensures
        ordered(spec_merge_by_hash(existing, incoming), Order::LatestDayFirst),
        distinct(spec_merge_by_hash(existing, incoming), Identity::Hash),
        forall|k: Seq<char>|
            has_key(spec_merge_by_hash(existing, incoming), Identity::Hash, k) <==> has_key(
                incoming + existing,
                Identity::Hash,
                k,
            ),
{
    let all = incoming + existing;
    let by_hash = sort(all, Order::ByHash);
    let kept = dedup(by_hash, Identity::Hash);
    lemma_sort_is_ordered(kept, Order::LatestDayFirst);
    lemma_dedup(by_hash, Identity::Hash);
    lemma_sort_keeps_lookup(kept, Order::LatestDayFirst, Identity::Hash);
    lemma_sort_has(all, Order::ByHash, Identity::Hash);
}

/// Sorting neither adds nor loses a text by which the images go.
pub proof fn lemma_sort_has(s: Seq<ImageView>, o: Order, by: Identity)
    ensures
        forall|k: Seq<char>| has_key(sort(s, o), by, k) <==> has_key(s, by, k),
    decreases s.len(),
{
    if s.len() > 0 {
        let t = s.drop_last();
        let x = s.last();
        lemma_sort_has(t, o, by);
        let sorted = sort(t, o);
        lemma_insert_position(sorted, x, o);
        let p = insert_position(sorted, x, o) as int;
        let r = sorted.insert(p, x);
        assert forall|k: Seq<char>| has_key(r, by, k) <==> has_key(s, by, k) by {
            lemma_keys_push(t, by, x);
            assert(s =~= t.push(x));
            assert(has_key(s, by, k) <==> keys(t, by).insert(by.of(x)).contains(k));
            if has_key(r, by, k) {
                let i = choose|i: int| 0 <= i < r.len() && by.of(#[trigger] r[i]) == k;
                if i < p {
                    assert(r[i] == sorted[i]);
                } else if i > p {
                    assert(r[i] == sorted[i - 1]);
                }
            }
            if has_key(sorted, by, k) {
                let i = choose|i: int| 0 <= i < sorted.len() && by.of(#[trigger] sorted[i]) == k;
                if i < p {
                    assert(r[i] == sorted[i]);
                } else {
                    assert(r[i + 1] == sorted[i]);
                }
            }
            if k == by.of(x) {
                assert(r[p] == x);
            }
        }
    }
}

} // verus!
