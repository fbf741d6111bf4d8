//! The refresh of a market's list of images, as a state machine.
//!
//! A run reads the snapshot on disk, asks the mirror where the list is older
//! than a week, asks the live API where it is older than a day, writes the
//! snapshot where anything came in, and reports the list. The machine
//! decides; a driver does the reading, fetching and writing that the
//! machine asks for and hands back what came of it.

use crate::bing::market::Market;
use crate::image::{views, Image, ImageView};
use crate::merge::{
    distinct_ids, lemma_merge_is_distinct, lemma_merge_is_sorted, merge, newest_first, spec_merge,
};
use crate::stale::{is_stale_at, now, stale_at, Seconds, DAY, WEEK};
use vstd::prelude::*;

verus! {

/// Where a run stands.
#[derive(Debug, Clone, Copy, PartialEq, Eq, Structural)]
pub enum Phase {
    /// Not started.
    Idle,
    /// Waiting for the snapshot on disk.
    Loading,
    /// Waiting for the mirror.
    MirrorFetching,
    /// Waiting for the live API.
    ApiFetching,
    /// Waiting for the snapshot to be written.
    Persisting,
    /// Over: the list has been reported.
    Done,
}

impl Phase {
    /// The place of the phase in the course of a run.
    pub open spec fn rank(self) -> int {
        match self {
            Phase::Idle => 0,
            Phase::Loading => 1,
            Phase::MirrorFetching => 2,
            Phase::ApiFetching => 3,
            Phase::Persisting => 4,
            Phase::Done => 5,
        }
    }
}

/// What the driver reports to the machine. A list that could not be read
/// or fetched is reported as `None`.
#[derive(Debug)]
pub enum Event {
    /// The run is to begin.
    Start,
    /// The snapshot on disk was read, or could not be.
    Loaded(Option<Vec<Image>>),
    /// The mirror answered, or did not.
    MirrorFetched(Option<Vec<Image>>),
    /// The live API answered, or did not.
    ApiFetched(Option<Vec<Image>>),
    /// The snapshot was written, or could not be.
    Saved(bool),
}

/// The mathematical value of an `Event`.
pub enum EventView {
    Start,
    Loaded(Option<Seq<ImageView>>),
    MirrorFetched(Option<Seq<ImageView>>),
    ApiFetched(Option<Seq<ImageView>>),
    Saved(bool),
}

/// The views of an optional list.
pub open spec fn list_view(list: Option<Vec<Image>>) -> Option<Seq<ImageView>> {
    match list {
        Some(list) => Some(views(list@)),
        None => None,
    }
}

impl View for Event {
    type V = EventView;

    open spec fn view(&self) -> EventView {
        match *self {
            Event::Start => EventView::Start,
            Event::Loaded(list) => EventView::Loaded(list_view(list)),
            Event::MirrorFetched(list) => EventView::MirrorFetched(list_view(list)),
            Event::ApiFetched(list) => EventView::ApiFetched(list_view(list)),
            Event::Saved(ok) => EventView::Saved(ok),
        }
    }
}

/// What the machine asks the driver to do.
#[derive(Debug)]
pub enum Action {
    /// Read the snapshot of the market from disk, and report `Loaded`.
    Load,
    /// Fetch the list of the market from the mirror, and report
    /// `MirrorFetched`.
    FetchMirror,
    /// Fetch the list of the market from the live API, and report
    /// `ApiFetched`.
    FetchApi,
    /// Write the list as the snapshot of the market, and report `Saved`.
    Save(Vec<Image>),
    /// Hand the list to the caller: the run is over.
    Finish(Vec<Image>),
    /// Nothing: the event was not the one that the run waits for.
    Nothing,
}

/// The mathematical value of an `Action`.
pub enum ActionView {
    Load,
    FetchMirror,
    FetchApi,
    Save(Seq<ImageView>),
    Finish(Seq<ImageView>),
    Nothing,
}

impl ActionView {
    /// The place of the action in the course of a run; 0 for no action.
    pub open spec fn rank(self) -> int {
        match self {
            ActionView::Nothing => 0,
            ActionView::Load => 1,
            ActionView::FetchMirror => 2,
            ActionView::FetchApi => 3,
            ActionView::Save(_) => 4,
            ActionView::Finish(_) => 5,
        }
    }
}

impl View for Action {
    type V = ActionView;

    open spec fn view(&self) -> ActionView {
        match *self {
            Action::Load => ActionView::Load,
            Action::FetchMirror => ActionView::FetchMirror,
            Action::FetchApi => ActionView::FetchApi,
            Action::Save(list) => ActionView::Save(views(list@)),
            Action::Finish(list) => ActionView::Finish(views(list@)),
            Action::Nothing => ActionView::Nothing,
        }
    }
}

/// A run of the refresh of one market.
#[derive(Debug)]
pub struct Refresh {
    /// The market whose list is refreshed.
    pub market: Market,
    /// Where the run stands.
    pub phase: Phase,
    /// The list that the caller held when the run began.
    pub current: Vec<Image>,
    /// The list that the run works on.
    pub images: Vec<Image>,
    /// Whether anything came in that the snapshot does not hold yet.
    pub dirty: bool,
    /// The age in seconds beyond which the mirror is asked.
    pub mirror_max_age: Seconds,
    /// The age in seconds beyond which the live API is asked.
    pub api_max_age: Seconds,
}

/// The mathematical value of a `Refresh`.
pub struct RefreshView {
    pub market: Market,
    pub phase: Phase,
    pub current: Seq<ImageView>,
    pub images: Seq<ImageView>,
    pub dirty: bool,
    pub mirror_max_age: Seconds,
    pub api_max_age: Seconds,
}

impl View for Refresh {
    type V = RefreshView;

    open spec fn view(&self) -> RefreshView {
        RefreshView {
            market: self.market,
            phase: self.phase,
            current: views(self.current@),
            images: views(self.images@),
            dirty: self.dirty,
            mirror_max_age: self.mirror_max_age,
            api_max_age: self.api_max_age,
        }
    }
}

impl RefreshView {
    /// The run with what a source gave merged in: a list that has images
    /// goes into the working list and marks it dirty; a failure or an empty
    /// list changes nothing.
    pub open spec fn absorb(self, fetched: Option<Seq<ImageView>>) -> RefreshView {
        match fetched {
            Some(list) => if list.len() > 0 {
                RefreshView { images: spec_merge(self.images, list), dirty: true, ..self }
            } else {
                self
            },
            None => self,
        }
    }

    /// The end of a run: the working list, merged into the list that the
    /// caller held, is reported.
    pub open spec fn finish(self) -> (RefreshView, ActionView) {
        (
            RefreshView { phase: Phase::Done, ..self },
            ActionView::Finish(spec_merge(self.current, self.images)),
        )
    }

    /// After the last source: the snapshot is written where the run is
    /// dirty; else the run ends.
    pub open spec fn settle(self) -> (RefreshView, ActionView) {
        if self.dirty {
            (RefreshView { phase: Phase::Persisting, ..self }, ActionView::Save(self.images))
        } else {
            self.finish()
        }
    }

    /// After the mirror: the live API is asked where the list is older than
    /// `api_max_age`.
    pub open spec fn consider_api(self, now: Seconds) -> (RefreshView, ActionView) {
        if stale_at(self.images, now, self.api_max_age) {
            (RefreshView { phase: Phase::ApiFetching, ..self }, ActionView::FetchApi)
        } else {
            self.settle()
        }
    }

    /// After the snapshot was read: the mirror is asked where the list is
    /// older than `mirror_max_age`.
    pub open spec fn consider_mirror(self, now: Seconds) -> (RefreshView, ActionView) {
        if stale_at(self.images, now, self.mirror_max_age) {
            (RefreshView { phase: Phase::MirrorFetching, ..self }, ActionView::FetchMirror)
        } else {
            self.consider_api(now)
        }
    }

    /// The next state of the run and what the driver is to do, for an event
    /// that arrives at the time `now`. An event that the run does not wait
    /// for changes nothing and asks for nothing.
    pub open spec fn step(self, event: EventView, now: Seconds) -> (RefreshView, ActionView) {
        match (self.phase, event) {
            (Phase::Idle, EventView::Start) => (
                RefreshView { phase: Phase::Loading, ..self },
                ActionView::Load,
            ),
            (Phase::Loading, EventView::Loaded(list)) => (RefreshView {
                images: match list {
                    Some(list) => list,
                    None => Seq::empty(),
                },
                ..self
            }).consider_mirror(now),
            (Phase::MirrorFetching, EventView::MirrorFetched(list)) => self.absorb(
                list,
            ).consider_api(now),
            (Phase::ApiFetching, EventView::ApiFetched(list)) => self.absorb(list).settle(),
            (Phase::Persisting, EventView::Saved(_)) => self.finish(),
            _ => (self, ActionView::Nothing),
        }
    }

    /// The state of the run after the events of a course, each with the
    /// time at which it arrives.
    pub open spec fn after(self, course: Seq<(EventView, Seconds)>) -> RefreshView
        decreases course.len(),
    {
        if course.len() == 0 {
            self
        } else {
            self.after(course.drop_last()).step(course.last().0, course.last().1).0
        }
    }

    /// What the driver is asked to do on the last event of a course.
    pub open spec fn asked(self, course: Seq<(EventView, Seconds)>) -> ActionView
        recommends
            course.len() > 0,
    {
        self.after(course.drop_last()).step(course.last().0, course.last().1).1
    }
}

impl Refresh {
    /// A run for `market` that has not started, for a caller that holds
    /// `current`. The mirror is asked where the list is older than a week,
    /// the live API where it is older than a day.
    pub fn new(market: Market, current: Vec<Image>) -> (r: Refresh)
        ensures
            r@ == (RefreshView {
                market,
                phase: Phase::Idle,
                current: views(current@),
                images: Seq::empty(),
                dirty: false,
                mirror_max_age: WEEK,
                api_max_age: DAY,
            }),
    {
        let images: Vec<Image> = Vec::new();
        assert(views(images@) =~= Seq::empty());
        Refresh {
            market,
            phase: Phase::Idle,
            current,
            images,
            dirty: false,
            mirror_max_age: WEEK,
            api_max_age: DAY,
        }
    }

    /// Whether the run is over.
    pub fn is_done(&self) -> (r: bool)
        ensures
            r == (self.phase == Phase::Done),
    {
        match self.phase {
            Phase::Done => true,
            _ => false,
        }
    }

    /// Merges what a source gave into the working list.
    fn absorb(self, fetched: Option<Vec<Image>>) -> (r: Refresh)
        ensures
            r@ == self@.absorb(list_view(fetched)),
    {
        match fetched {
            Some(list) => {
                if list.len() > 0 {
                    let mut this = self;
                    this.images = merge(this.images.as_slice(), list.as_slice());
                    this.dirty = true;
                    this
                } else {
                    self
                }
            },
            None => self,
        }
    }

    /// Ends the run with its report.
    fn finish(self) -> (r: (Refresh, Action))
        ensures
            (r.0@, r.1@) == self@.finish(),
    {
        let mut this = self;
        let merged = merge(this.current.as_slice(), this.images.as_slice());
        this.phase = Phase::Done;
        (this, Action::Finish(merged))
    }

    /// Asks for the snapshot to be written where the run is dirty, and ends
    /// the run where it is not.
    fn settle(self) -> (r: (Refresh, Action))
        ensures
            (r.0@, r.1@) == self@.settle(),
    {
        if self.dirty {
            let mut this = self;
            let snapshot = this.images.clone();
            assert(views(snapshot@) =~= views(this.images@));
            this.phase = Phase::Persisting;
            (this, Action::Save(snapshot))
        } else {
            self.finish()
        }
    }

    /// Asks the live API where the list is older than `api_max_age`.
    fn consider_api(self, now: Seconds) -> (r: (Refresh, Action))
        ensures
            (r.0@, r.1@) == self@.consider_api(now),
    {
        if is_stale_at(self.images.as_slice(), now, self.api_max_age) {
            let mut this = self;
            this.phase = Phase::ApiFetching;
            (this, Action::FetchApi)
        } else {
            self.settle()
        }
    }

    /// Asks the mirror where the list is older than `mirror_max_age`.
    fn consider_mirror(self, now: Seconds) -> (r: (Refresh, Action))
        ensures
            (r.0@, r.1@) == self@.consider_mirror(now),
    {
        if is_stale_at(self.images.as_slice(), now, self.mirror_max_age) {
            let mut this = self;
            this.phase = Phase::MirrorFetching;
            (this, Action::FetchMirror)
        } else {
            self.consider_api(now)
        }
    }

    /// Takes the run one step on: the state after `event`, which arrives at
    /// the time `now`, and what the driver is to do next.
    pub fn step_at(self, event: Event, now: Seconds) -> (r: (Refresh, Action))
        ensures
            (r.0@, r.1@) == self@.step(event@, now),
    {
        match (self.phase, event) {
            (Phase::Idle, Event::Start) => {
                let mut this = self;
                this.phase = Phase::Loading;
                (this, Action::Load)
            },
            (Phase::Loading, Event::Loaded(list)) => {
                let mut this = self;
                this.images = match list {
                    Some(list) => list,
                    None => {
                        let none: Vec<Image> = Vec::new();
                        assert(views(none@) =~= Seq::empty());
                        none
                    },
                };
                this.consider_mirror(now)
            },
            (Phase::MirrorFetching, Event::MirrorFetched(list)) => self.absorb(list).consider_api(
                now,
            ),
            (Phase::ApiFetching, Event::ApiFetched(list)) => self.absorb(list).settle(),
            (Phase::Persisting, Event::Saved(_)) => self.finish(),
            _ => (self, Action::Nothing),
        }
    }

    /// Takes the run one step on, at the time that the clock of the system
    /// shows.
    pub fn step(self, event: Event) -> (r: (Refresh, Action))
        ensures
            exists|now: Seconds| (r.0@, r.1@) == self@.step(event@, now),
    {
        let t: Seconds = now();
        let r = self.step_at(event, t);
        assert((r.0@, r.1@) == self@.step(event@, t));
        r
    }
}

/// A step never takes a run back. An event that the run does not wait for
/// changes nothing; any other takes the run to a later phase and asks for
/// what belongs to that phase. The market, the list of the caller and the
/// two ages never change, and a run that is over asks for nothing.
pub proof fn lemma_step_advances(s: RefreshView, event: EventView, now: Seconds)
    ensures
        ({
            let (t, action) = s.step(event, now);
            &&& t.market == s.market
            &&& t.current == s.current
            &&& t.mirror_max_age == s.mirror_max_age
            &&& t.api_max_age == s.api_max_age
            &&& action is Nothing ==> t == s
            &&& !(action is Nothing) ==> s.phase.rank() < t.phase.rank() && action.rank()
                == t.phase.rank()
            &&& s.phase is Done ==> action is Nothing
        }),
{
}

/// What a step asks to write or to report. The snapshot is written only
/// where something came in, and it is the working list; the list that is
/// reported is the working list merged into the list of the caller, so it
/// is in order, newest first, and has no identifier twice.
pub proof fn lemma_step_lists(s: RefreshView, event: EventView, now: Seconds)
    ensures
        ({
            let (t, action) = s.step(event, now);
            &&& action matches ActionView::Save(list) ==> t.dirty && list == t.images
            &&& action matches ActionView::Finish(list) ==> list == spec_merge(
                t.current,
                t.images,
            ) && newest_first(list) && distinct_ids(list)
            &&& s.phase is Persisting || s.phase is Done ==> t.images == s.images
        }),
{
    let (t, action) = s.step(event, now);
    lemma_merge_is_sorted(t.current, t.images);
    lemma_merge_is_distinct(t.current, t.images);
}

/// The phases of a course never go back.
pub proof fn lemma_course_advances(
    s: RefreshView,
    course: Seq<(EventView, Seconds)>,
    i: int,
    j: int,
)
    requires
        0 <= i <= j <= course.len(),
    ensures
        s.after(course.take(i)).phase.rank() <= s.after(course.take(j)).phase.rank(),
    decreases j - i,
{
    if i < j {
        lemma_course_advances(s, course, i, j - 1);
        let c = course.take(j);
        assert(c.drop_last() =~= course.take(j - 1));
        lemma_step_advances(s.after(course.take(j - 1)), c.last().0, c.last().1);
    }
}

/// In the course of a run, what the driver is asked to do comes in the
/// order read, ask the mirror, ask the live API, write, report: of two
/// requests the later one has the higher rank. So nothing is asked twice.
pub proof fn lemma_course_order(s: RefreshView, course: Seq<(EventView, Seconds)>, i: int, j: int)
    requires
        0 < i < j <= course.len(),
        !(s.asked(course.take(i)) is Nothing),
        !(s.asked(course.take(j)) is Nothing),
    ensures
        s.asked(course.take(i)).rank() < s.asked(course.take(j)).rank(),
{
    let ci = course.take(i);
    let cj = course.take(j);
    assert(ci.drop_last() =~= course.take(i - 1));
    assert(cj.drop_last() =~= course.take(j - 1));
    lemma_step_advances(s.after(course.take(i - 1)), ci.last().0, ci.last().1);
    lemma_step_advances(s.after(course.take(j - 1)), cj.last().0, cj.last().1);
    lemma_course_advances(s, course, i, j - 1);
}

/// A run ends with a report even where every source fails: with no
/// snapshot, no mirror and no live API, the caller gets back the list that
/// it held, in order and without duplicates, and nothing is written.
pub proof fn lemma_all_sources_fail(s: RefreshView, t1: Seconds, t2: Seconds, t3: Seconds)
    requires
        s.phase is Idle,
        !s.dirty,
    ensures
        ({
            let s1 = s.step(EventView::Start, t1);
            let s2 = s1.0.step(EventView::Loaded(None), t1);
            let s3 = s2.0.step(EventView::MirrorFetched(None), t2);
            let s4 = s3.0.step(EventView::ApiFetched(None), t3);
            &&& s1.1 == ActionView::Load
            &&& s2.1 == ActionView::FetchMirror
            &&& s3.1 == ActionView::FetchApi
            &&& s4.1 == ActionView::Finish(spec_merge(s.current, Seq::empty()))
            &&& s4.0.phase is Done
        }),
{
}

/// What the sources of a run have to give: the snapshot on disk, the list
/// of the mirror and the list of the live API, each `None` where it cannot
/// be had; and whether the snapshot can be written.
pub struct Sources {
    pub disk: Option<Seq<ImageView>>,
    pub mirror: Option<Seq<ImageView>>,
    pub api: Option<Seq<ImageView>>,
    pub writes: bool,
}

impl Sources {
    /// What a driver that does as it is asked reports back.
    pub open spec fn answer(self, action: ActionView) -> EventView {
        match action {
            ActionView::FetchMirror => EventView::MirrorFetched(self.mirror),
            ActionView::FetchApi => EventView::ApiFetched(self.api),
            ActionView::Save(_) => EventView::Saved(self.writes),
            _ => EventView::Loaded(self.disk),
        }
    }
}

impl RefreshView {
    /// What the driver is asked to do, request by request, from the event
    /// `event` on, where it does as it is asked and the sources give what
    /// `sources` holds. The request number `i` is made at the time
    /// `clock[i]`; the requests end with the report, or where the clock
    /// runs out.
    pub open spec fn requests(
        self,
        event: EventView,
        sources: Sources,
        clock: Seq<Seconds>,
    ) -> Seq<ActionView>
        decreases clock.len(),
    {
        if clock.len() == 0 {
            Seq::empty()
        } else {
            let (next, action) = self.step(event, clock[0]);
            match action {
                ActionView::Finish(_) | ActionView::Nothing => seq![action],
                _ => seq![action] + next.requests(
                    sources.answer(action),
                    sources,
                    clock.drop_first(),
                ),
            }
        }
    }

    /// The working list of a run once the sources have been asked: the
    /// snapshot, with the list of the mirror merged in where the snapshot
    /// is older than `mirror_max_age` at the time `loaded`, and with the
    /// list of the live API merged in where the result is older than
    /// `api_max_age` at the time at which the last source before it
    /// answered.
    pub open spec fn gathered(
        self,
        sources: Sources,
        loaded: Seconds,
        mirrored: Seconds,
    ) -> RefreshView {
        let local = RefreshView {
            images: match sources.disk {
                Some(list) => list,
                None => Seq::empty(),
            },
            ..self
        };
        if stale_at(local.images, loaded, self.mirror_max_age) {
            let with_mirror = local.absorb(sources.mirror);
            if stale_at(with_mirror.images, mirrored, self.api_max_age) {
                with_mirror.absorb(sources.api)
            } else {
                with_mirror
            }
        } else if stale_at(local.images, loaded, self.api_max_age) {
            local.absorb(sources.api)
        } else {
            local
        }
    }
}

/// A whole run, from its start to its report, with a driver that does as it
/// is asked. The snapshot is read once; the mirror is asked once, where the
/// snapshot is older than `mirror_max_age`, and else not at all; the live
/// API is asked once, where the list is then older than `api_max_age`, and
/// else not at all; the snapshot is written once, where a source gave
/// images, and else not at all; and the run ends with the report of the
/// gathered list, merged into the list that the caller held. Five requests
/// at most are made.
pub proof fn lemma_whole_run(s: RefreshView, sources: Sources, clock: Seq<Seconds>)
    requires
        s.phase is Idle,
        !s.dirty,
        clock.len() == 5,
    ensures
        ({
            let end = s.gathered(sources, clock[1], clock[2]);
            let local: Seq<ImageView> = match sources.disk {
                Some(list) => list,
                None => Seq::empty(),
            };
            let asks_mirror = stale_at(local, clock[1], s.mirror_max_age);
            let asks_api = if asks_mirror {
                stale_at(
                    (RefreshView { images: local, ..s }).absorb(sources.mirror).images,
                    clock[2],
                    s.api_max_age,
                )
            } else {
                stale_at(local, clock[1], s.api_max_age)
            };
            let mirror: Seq<ActionView> = if asks_mirror {
                seq![ActionView::FetchMirror]
            } else {
                Seq::empty()
            };
            let api: Seq<ActionView> = if asks_api {
                seq![ActionView::FetchApi]
            } else {
                Seq::empty()
            };
            let save: Seq<ActionView> = if end.dirty {
                seq![ActionView::Save(end.images)]
            } else {
                Seq::empty()
            };
            s.requests(EventView::Start, sources, clock) == seq![ActionView::Load] + mirror + api
                + save + seq![ActionView::Finish(spec_merge(s.current, end.images))]
        }),
{
    reveal_with_fuel(RefreshView::requests, 6);
    let c1 = clock.drop_first();
    let c2 = c1.drop_first();
    let c3 = c2.drop_first();
    let c4 = c3.drop_first();
    assert(c1[0] == clock[1] && c2[0] == clock[2] && c3[0] == clock[3] && c4[0] == clock[4]);
    assert(c1.len() == 4 && c2.len() == 3 && c3.len() == 2 && c4.len() == 1);
    let end = s.gathered(sources, clock[1], clock[2]);
    let local: Seq<ImageView> = match sources.disk {
        Some(list) => list,
        None => Seq::empty(),
    };
    let asks_mirror = stale_at(local, clock[1], s.mirror_max_age);
    let asks_api = if asks_mirror {
        stale_at(
            (RefreshView { images: local, ..s }).absorb(sources.mirror).images,
            clock[2],
            s.api_max_age,
        )
    } else {
        stale_at(local, clock[1], s.api_max_age)
    };
    let mirror: Seq<ActionView> = if asks_mirror {
        seq![ActionView::FetchMirror]
    } else {
        Seq::empty()
    };
    let api: Seq<ActionView> = if asks_api {
        seq![ActionView::FetchApi]
    } else {
        Seq::empty()
    };
    let save: Seq<ActionView> = if end.dirty {
        seq![ActionView::Save(end.images)]
    } else {
        Seq::empty()
    };
    let report = seq![ActionView::Finish(spec_merge(s.current, end.images))];
    assert(s.requests(EventView::Start, sources, clock) =~= seq![ActionView::Load] + mirror + api
        + save + report);
}

/// The markets whose list is being refreshed. A market is in the set from
/// the moment its run is let in until the run is reported over, so that no
/// second run of the same market starts in between.
#[derive(Debug)]
pub struct InFlight {
    pub markets: Vec<Market>,
}

impl View for InFlight {
    type V = Set<Market>;

    open spec fn view(&self) -> Set<Market> {
        Set::new(|m: Market| self.markets@.contains(m))
    }
}

impl InFlight {
    /// No market is being refreshed.
    pub fn new() -> (r: InFlight)
        ensures
            r@ == Set::<Market>::empty(),
    {
        let r = InFlight { markets: Vec::new() };
        assert(r@ =~= Set::<Market>::empty());
        r
    }

    /// Whether a run of `market` is in flight.
    pub fn is_active(&self, market: Market) -> (r: bool)
        ensures
            r == self@.contains(market),
    {
        let mut i: usize = 0;
        while i < self.markets.len()
            invariant
                i <= self.markets.len(),
                forall|j: int| 0 <= j < i ==> self.markets@[j] != market,
            decreases self.markets.len() - i,
        {
            if self.markets[i] == market {
                assert(self.markets@.contains(market));
                return true;
            }
            i += 1;
        }
        false
    }

    /// Lets a run of `market` in, unless one is in flight: `true` where the
    /// run may start, `false` where it is turned away.
    pub fn try_begin(&mut self, market: Market) -> (r: bool)
        ensures
            r == !old(self)@.contains(market),
            final(self)@ == old(self)@.insert(market),
    {
        if self.is_active(market) {
            assert(self@ =~= self@.insert(market));
            false
        } else {
            let ghost before = self.markets@;
            self.markets.push(market);
            assert forall|m: Market| self@.contains(m) <==> old(self)@.insert(market).contains(
                m,
            ) by {
                if before.contains(m) {
                    let i = choose|i: int| 0 <= i < before.len() && before[i] == m;
                    assert(self.markets@[i] == m);
                }
                if m == market {
                    assert(self.markets@[before.len() as int] == m);
                }
            }
            assert(self@ =~= old(self)@.insert(market));
            true
        }
    }

    /// Takes note that the run of `market` is over.
    pub fn finish(&mut self, market: Market)
        ensures
            final(self)@ == old(self)@.remove(market),
    {
        let mut kept: Vec<Market> = Vec::new();
        let mut i: usize = 0;
        while i < self.markets.len()
            invariant
                i <= self.markets.len(),
                forall|m: Market| #[trigger]
                    kept@.contains(m) <==> m != market && self.markets@.take(i as int).contains(m),
            decreases self.markets.len() - i,
        {
            let m = self.markets[i];
            let ghost before = kept@;
            let ghost seen = self.markets@.take(i as int);
            let ghost next = self.markets@.take(i + 1);
            assert(next =~= seen.push(m));
            if m != market {
                kept.push(m);
            }
            assert forall|x: Market| #[trigger]
                kept@.contains(x) <==> x != market && next.contains(x) by {
                if before.contains(x) {
                    let k = choose|k: int| 0 <= k < before.len() && before[k] == x;
                    assert(kept@[k] == x);
                }
                if seen.contains(x) {
                    let k = choose|k: int| 0 <= k < seen.len() && seen[k] == x;
                    assert(next[k] == x);
                }
                if x == m {
                    assert(next[i as int] == x);
                    if m != market {
                        assert(kept@[before.len() as int] == x);
                    }
                }
                if kept@.contains(x) && !before.contains(x) {
                    let k = choose|k: int| 0 <= k < kept@.len() && kept@[k] == x;
                    if k < before.len() {
                        assert(before[k] == x);
                    }
                }
                if next.contains(x) && !seen.contains(x) {
                    let k = choose|k: int| 0 <= k < next.len() && next[k] == x;
                    if k < seen.len() {
                        assert(seen[k] == x);
                    }
                }
            }
            i += 1;
        }
        assert(self.markets@.take(i as int) =~= self.markets@);
        let ghost all = self.markets@;
        self.markets = kept;
        assert(self@ =~= old(self)@.remove(market));
    }
}

} // verus!
