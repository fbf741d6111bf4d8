use xpic::bing::Market;
use xpic::merge::merge;
use xpic::refresh::{Action, Event, InFlight, Phase, Refresh};
use xpic::stale::{DAY, WEEK};
use xpic::Image;

// 2024-01-10 00:00 UTC.
const NOW: i64 = 1_704_844_800;

fn image(id: &str, full_start_date: &str) -> Image {
    Image {
        url: String::new(),
        start_date: String::new(),
        full_start_date: full_start_date.to_string(),
        end_date: String::new(),
        id: id.to_string(),
        id_parsed: None,
        copyright: String::new(),
        copyright_parsed: None,
        copyright_link: String::new(),
        title: String::new(),
        quiz_link: String::new(),
        wallpaper: true,
        hash: String::new(),
    }
}

/// What a driver with canned sources sees of a run.
struct Run {
    mirror_calls: usize,
    api_calls: usize,
    loads: usize,
    saved: Vec<Vec<Image>>,
    reported: Vec<Image>,
    phases: Vec<Phase>,
}

fn drive(
    current: Vec<Image>,
    disk: Option<Vec<Image>>,
    mirror: Option<Vec<Image>>,
    api: Option<Vec<Image>>,
    save_works: bool,
) -> Run {
    let mut run = Run {
        mirror_calls: 0,
        api_calls: 0,
        loads: 0,
        saved: vec![],
        reported: vec![],
        phases: vec![],
    };
    let mut refresh = Refresh::new(Market::EN_US, current);
    assert_eq!(refresh.phase, Phase::Idle);
    let mut event = Event::Start;
    for _ in 0..10 {
        let (next, action) = refresh.step_at(event, NOW);
        refresh = next;
        run.phases.push(refresh.phase);
        event = match action {
            Action::Load => {
                run.loads += 1;
                Event::Loaded(disk.clone())
            }
            Action::FetchMirror => {
                run.mirror_calls += 1;
                Event::MirrorFetched(mirror.clone())
            }
            Action::FetchApi => {
                run.api_calls += 1;
                Event::ApiFetched(api.clone())
            }
            Action::Save(list) => {
                run.saved.push(list);
                Event::Saved(save_works)
            }
            Action::Finish(list) => {
                run.reported = list;
                assert!(refresh.is_done());
                return run;
            }
            Action::Nothing => panic!("the driver answered what was asked"),
        };
    }
    panic!("the run did not end");
}

#[test]
fn refresh_end_to_end() {
    let api = vec![
        image("b", "202401080800"),
        image("c", "202401090800"),
        image("a", "202401070800"),
    ];
    let sorted = vec![
        image("c", "202401090800"),
        image("b", "202401080800"),
        image("a", "202401070800"),
    ];
    for disk in [None, Some(vec![])] {
        for mirror in [None, Some(vec![])] {
            let run = drive(vec![], disk.clone(), mirror, Some(api.clone()), true);
            assert_eq!(run.loads, 1);
            assert_eq!(run.mirror_calls, 1);
            assert_eq!(run.api_calls, 1);
            assert_eq!(run.saved, vec![sorted.clone()]);
            assert_eq!(run.reported, sorted);
            assert_eq!(
                run.phases,
                [
                    Phase::Loading,
                    Phase::MirrorFetching,
                    Phase::ApiFetching,
                    Phase::Persisting,
                    Phase::Done
                ]
            );
        }
    }
}

#[test]
fn refresh_trusts_a_fresh_snapshot() {
    let disk = vec![image("a", "202401092300")];
    let run = drive(vec![], Some(disk.clone()), None, None, true);
    assert_eq!((run.loads, run.mirror_calls, run.api_calls), (1, 0, 0));
    assert!(run.saved.is_empty());
    assert_eq!(run.reported, disk);
    assert_eq!(run.phases, [Phase::Loading, Phase::Done]);
}

#[test]
fn refresh_asks_the_api_alone_for_a_snapshot_of_some_days() {
    let disk = vec![image("a", "202401050800")];
    let api = vec![image("b", "202401090800"), image("a", "202401050800")];
    let run = drive(vec![], Some(disk), None, Some(api.clone()), true);
    assert_eq!((run.loads, run.mirror_calls, run.api_calls), (1, 0, 1));
    assert_eq!(run.saved, vec![api.clone()]);
    assert_eq!(run.reported, api);
}

#[test]
fn refresh_skips_the_api_where_the_mirror_is_fresh() {
    let disk = vec![image("a", "202401010800")];
    let mirror = vec![image("b", "202401092300")];
    let run = drive(vec![], Some(disk), Some(mirror), None, true);
    assert_eq!((run.loads, run.mirror_calls, run.api_calls), (1, 1, 0));
    let merged = vec![image("b", "202401092300"), image("a", "202401010800")];
    assert_eq!(run.saved, vec![merged.clone()]);
    assert_eq!(run.reported, merged);
    assert_eq!(
        run.phases,
        [Phase::Loading, Phase::MirrorFetching, Phase::Persisting, Phase::Done]
    );
}

#[test]
fn refresh_reports_even_where_every_source_fails() {
    let current = vec![
        image("a", "202401010800"),
        image("b", "202401020800"),
        image("a", "202401030800"),
    ];
    let run = drive(current.clone(), None, None, None, true);
    assert_eq!((run.loads, run.mirror_calls, run.api_calls), (1, 1, 1));
    assert!(run.saved.is_empty());
    assert_eq!(run.reported, merge(&current, &[]));
    let run = drive(vec![], None, None, None, true);
    assert_eq!(run.reported, vec![]);
}

#[test]
fn refresh_reports_where_the_snapshot_cannot_be_written() {
    let api = vec![image("a", "202401090800")];
    let run = drive(vec![], None, None, Some(api.clone()), false);
    assert_eq!(run.saved, vec![api.clone()]);
    assert_eq!(run.reported, api);
}

#[test]
fn refresh_folds_in_what_the_caller_held() {
    let current = vec![image("x", "202401091200"), image("a", "202401010800")];
    let mut newer = image("a", "202401010800");
    newer.title = "from disk".to_string();
    let disk = vec![image("b", "202401092300"), newer.clone()];
    let run = drive(current, Some(disk), None, None, true);
    assert!(run.saved.is_empty());
    assert_eq!(
        run.reported,
        vec![image("b", "202401092300"), image("x", "202401091200"), newer]
    );
}

#[test]
fn refresh_ignores_events_it_does_not_wait_for() {
    let refresh = Refresh::new(Market::ZH_CN, vec![image("a", "202401010800")]);
    assert_eq!(refresh.market, Market::ZH_CN);
    assert_eq!(refresh.mirror_max_age, WEEK);
    assert_eq!(refresh.api_max_age, DAY);
    let (refresh, action) = refresh.step_at(Event::Loaded(Some(vec![])), NOW);
    assert!(matches!(action, Action::Nothing));
    assert_eq!(refresh.phase, Phase::Idle);
    let (refresh, action) = refresh.step_at(Event::Saved(true), NOW);
    assert!(matches!(action, Action::Nothing));
    let (refresh, action) = refresh.step_at(Event::Start, NOW);
    assert!(matches!(action, Action::Load));
    let (refresh, action) = refresh.step_at(Event::Start, NOW);
    assert!(matches!(action, Action::Nothing));
    assert_eq!(refresh.phase, Phase::Loading);
    let (refresh, action) = refresh.step_at(Event::ApiFetched(Some(vec![image("z", "")])), NOW);
    assert!(matches!(action, Action::Nothing));
    assert!(refresh.images.is_empty());
    let (refresh, action) = refresh.step_at(Event::Loaded(Some(vec![image("b", "202401092300")])), NOW);
    assert!(matches!(action, Action::Finish(_)));
    let (refresh, action) = refresh.step_at(Event::Start, NOW);
    assert!(matches!(action, Action::Nothing));
    assert!(refresh.is_done());
    assert_eq!(refresh.current, vec![image("a", "202401010800")]);
}

#[test]
fn refresh_by_the_clock() {
    let refresh = Refresh::new(Market::EN_US, vec![]);
    let (refresh, action) = refresh.step(Event::Start);
    assert!(matches!(action, Action::Load));
    let (refresh, action) = refresh.step(Event::Loaded(Some(vec![image("a", "200001010000")])));
    assert!(matches!(action, Action::FetchMirror));
    let (refresh, action) = refresh.step(Event::MirrorFetched(Some(vec![image("b", "999912312359")])));
    match action {
        Action::Save(list) => assert_eq!(list.len(), 2),
        other => panic!("{other:?}"),
    }
    let (refresh, action) = refresh.step(Event::Saved(true));
    match action {
        Action::Finish(list) => assert_eq!(list[0].id, "b"),
        other => panic!("{other:?}"),
    }
    assert!(refresh.is_done());
}

#[test]
fn in_flight_lets_one_run_in_per_market() {
    let mut guard = InFlight::new();
    assert!(!guard.is_active(Market::EN_US));
    assert!(guard.try_begin(Market::EN_US));
    assert!(guard.is_active(Market::EN_US));
    assert!(!guard.try_begin(Market::EN_US));
    assert!(guard.try_begin(Market::JA_JP));
    assert!(!guard.try_begin(Market::JA_JP));
    guard.finish(Market::EN_US);
    assert!(!guard.is_active(Market::EN_US));
    assert!(guard.is_active(Market::JA_JP));
    assert!(guard.try_begin(Market::EN_US));
    guard.finish(Market::DE_DE);
    guard.finish(Market::JA_JP);
    guard.finish(Market::EN_US);
    assert!(guard.markets.is_empty());
}
