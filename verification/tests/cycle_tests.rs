use sat_bot::commands::{add_location, remove_location, unwatch_satellite, watch_satellite};
use sat_bot::cycle::{
    notices, write_histories, CycleAction, CycleError, CycleEvent, CycleFailure, CyclePhase,
    DeliveredBatch, FailureKind, NotificationBatch, PassNotice, PollCycle, CYCLE_DAYS,
};
use sat_bot::database::{DatabaseContents, LocationName, Snowflake};
use sat_bot::n2yo::{PassRequest, SatellitePass, SatellitePassInfo, SatellitePasses};

const DEGREE: u32 = 1_000_000;
const U1: Snowflake = Snowflake(11);
const C1: Snowflake = Snowflake(100);
const C2: Snowflake = Snowflake(200);
const DAY: i64 = 24 * 60 * 60;

fn pass(start_utc: usize, end_utc: usize, degrees: u32) -> SatellitePass {
    SatellitePass { start_utc, max_utc: start_utc, end_utc, max_elevation: degrees * DEGREE }
}

fn answer(name: &str, passes: Vec<SatellitePass>) -> SatellitePasses {
    SatellitePasses {
        info: SatellitePassInfo { id: 25338, name: name.to_string(), transaction_count: 1, passes_count: passes.len() },
        passes,
    }
}

fn watch(contents: &mut DatabaseContents, satellite_id: usize, location: &str, degrees: u32, channel: Snowflake) {
    watch_satellite(
        contents,
        satellite_id,
        format!("SAT {}", satellite_id),
        location.to_string(),
        channel,
        U1,
        "en-GB".to_string(),
        degrees * DEGREE,
    )
    .unwrap();
}

fn backyard_store() -> DatabaseContents {
    let mut contents = DatabaseContents::new();
    add_location(&mut contents, "Backyard".to_string(), U1, 51_500_000, -120_000, 35_000).unwrap();
    watch(&mut contents, 25338, "Backyard", 20, C1);
    contents
}

fn backyard_request(satellite_id: usize, degrees: u32) -> PassRequest {
    PassRequest {
        satellite_id,
        latitude: 51_500_000,
        longitude: -120_000,
        altitude: 35_000,
        days: 1,
        min_max_elevation: degrees * DEGREE,
    }
}

/// Runs a cycle in which every fetch gives the passes of `upstream` and every delivery goes as `deliver` says.
fn run_cycle(
    contents: &mut DatabaseContents,
    now: i64,
    upstream: &dyn Fn(&PassRequest) -> Option<SatellitePasses>,
    deliver: &dyn Fn(&NotificationBatch) -> bool,
) -> (Vec<NotificationBatch>, Vec<CycleFailure>) {
    let mut delivered = Vec::new();
    let (mut cycle, mut action) = PollCycle::begin(contents, now);
    loop {
        let event = match action {
            CycleAction::Fetch(request) => match upstream(&request) {
                Some(passes) => CycleEvent::Fetched(passes),
                None => CycleEvent::FetchFailed,
            },
            CycleAction::Deliver(batch) => {
                if deliver(&batch) {
                    delivered.push(batch);
                    CycleEvent::Delivered
                } else {
                    CycleEvent::DeliveryFailed
                }
            }
            CycleAction::Commit => break,
        };
        let (next, outcome) = cycle.step(event);
        cycle = next;
        action = outcome.unwrap();
    }
    assert_eq!(cycle.phase(), CyclePhase::Committing);
    let failures = cycle.commit(contents).unwrap();
    (delivered, failures)
}

#[test]
fn one_day_is_asked_for() {
    assert_eq!(CYCLE_DAYS, 1);
}

#[test]
fn a_pass_is_notified_once_and_forgotten_after_a_day() {
    let mut contents = backyard_store();

    let first = |_: &PassRequest| Some(answer("NOAA 15", vec![pass(1000, 1300, 35)]));
    let (delivered, failures) = run_cycle(&mut contents, 900, &first, &|_| true);
    assert_eq!(delivered.len(), 1);
    assert_eq!(delivered[0].channel, C1);
    assert_eq!(delivered[0].satellite_name, "NOAA 15");
    assert_eq!(delivered[0].location.0, "Backyard");
    assert_eq!(delivered[0].locale, "en-GB");
    assert_eq!(delivered[0].passes, vec![pass(1000, 1300, 35)]);
    assert!(failures.is_empty());
    assert_eq!(contents.watched_satellites[0].previous_notifications, vec![(1000, 1300)]);

    let second = |_: &PassRequest| Some(answer("NOAA 15", vec![pass(1004, 1296, 35)]));
    let (delivered, failures) = run_cycle(&mut contents, 950, &second, &|_| true);
    assert!(delivered.is_empty());
    assert!(failures.is_empty());
    assert_eq!(contents.watched_satellites[0].previous_notifications, vec![(1000, 1300)]);

    let nothing = |_: &PassRequest| Some(answer("NOAA 15", Vec::new()));
    let (delivered, _) = run_cycle(&mut contents, 1000 + DAY + 1, &nothing, &|_| true);
    assert!(delivered.is_empty());
    assert_eq!(contents.watched_satellites[0].previous_notifications, Vec::new());
}

#[test]
fn the_same_answer_twice_notifies_once() {
    let mut contents = backyard_store();
    watch(&mut contents, 28654, "Backyard", 30, C2);
    let upstream = |request: &PassRequest| {
        Some(answer(
            "SAT",
            vec![
                pass(3000 + request.satellite_id, 3300 + request.satellite_id, 40),
                pass(1000 + request.satellite_id, 1300 + request.satellite_id, 25),
            ],
        ))
    };
    let (delivered, _) = run_cycle(&mut contents, 500, &upstream, &|_| true);
    assert_eq!(delivered.len(), 2);
    assert_eq!(delivered[0].passes.len(), 2);
    assert_eq!(delivered[1].passes.len(), 1);
    let (delivered, failures) = run_cycle(&mut contents, 600, &upstream, &|_| true);
    assert!(delivered.is_empty());
    assert!(failures.is_empty());
}

#[test]
fn a_batch_that_was_not_delivered_is_tried_again() {
    let mut contents = backyard_store();
    let upstream = |_: &PassRequest| Some(answer("NOAA 15", vec![pass(2000, 2300, 50), pass(1000, 1300, 35)]));

    let (delivered, failures) = run_cycle(&mut contents, 900, &upstream, &|_| false);
    assert!(delivered.is_empty());
    assert_eq!(failures, vec![CycleFailure { subscription: 0, kind: FailureKind::Delivery }]);
    assert_eq!(contents.watched_satellites[0].previous_notifications, Vec::new());

    let (delivered, failures) = run_cycle(&mut contents, 950, &upstream, &|_| true);
    assert_eq!(delivered.len(), 1);
    assert_eq!(delivered[0].passes, vec![pass(1000, 1300, 35), pass(2000, 2300, 50)]);
    assert!(failures.is_empty());
    assert_eq!(contents.watched_satellites[0].previous_notifications, vec![(1000, 1300), (2000, 2300)]);
}

#[test]
fn a_failure_stays_with_its_subscription() {
    let mut contents = backyard_store();
    watch(&mut contents, 28654, "Backyard", 20, C1);
    watch(&mut contents, 33591, "Backyard", 20, C2);
    let upstream = |request: &PassRequest| {
        if request.satellite_id == 28654 {
            None
        } else {
            Some(answer("SAT", vec![pass(1000, 1300, 35)]))
        }
    };
    let deliver = |batch: &NotificationBatch| batch.channel != C2;
    let (delivered, failures) = run_cycle(&mut contents, 900, &upstream, &deliver);
    assert_eq!(delivered.len(), 1);
    assert_eq!(delivered[0].channel, C1);
    assert_eq!(
        failures,
        vec![
            CycleFailure { subscription: 1, kind: FailureKind::Fetch },
            CycleFailure { subscription: 2, kind: FailureKind::Delivery },
        ]
    );
    assert_eq!(contents.watched_satellites[0].previous_notifications, vec![(1000, 1300)]);
    assert_eq!(contents.watched_satellites[1].previous_notifications, Vec::new());
    assert_eq!(contents.watched_satellites[2].previous_notifications, Vec::new());
}

#[test]
fn a_subscription_without_its_location_is_passed_over() {
    let mut contents = backyard_store();
    add_location(&mut contents, "Roof".to_string(), U1, 1, 2, 3).unwrap();
    watch(&mut contents, 28654, "Roof", 20, C1);
    watch(&mut contents, 33591, "Backyard", 20, C2);
    remove_location(&mut contents, &"Roof".to_string(), U1).unwrap();

    let (cycle, action) = PollCycle::begin(&contents, 900);
    assert_eq!(action, CycleAction::Fetch(backyard_request(25338, 20)));
    assert_eq!(cycle.cursor(), 0);
    let (cycle, action) = cycle.step(CycleEvent::Fetched(answer("NOAA 15", Vec::new())));
    // Subscription 1 has no location: the cycle goes on with subscription 2.
    assert_eq!(action, Ok(CycleAction::Fetch(backyard_request(33591, 20))));
    assert_eq!(cycle.cursor(), 2);
    let (cycle, action) = cycle.step(CycleEvent::Fetched(answer("NOAA 19", Vec::new())));
    assert_eq!(action, Ok(CycleAction::Commit));
    let failures = cycle.commit(&mut contents).unwrap();
    assert_eq!(failures, vec![CycleFailure { subscription: 1, kind: FailureKind::MissingLocation }]);
}

#[test]
fn a_store_without_subscriptions_goes_straight_to_the_end() {
    let mut contents = DatabaseContents::new();
    let (cycle, action) = PollCycle::begin(&contents, 900);
    assert_eq!(action, CycleAction::Commit);
    assert_eq!(cycle.phase(), CyclePhase::Committing);
    assert_eq!(cycle.now(), 900);
    assert_eq!(cycle.commit(&mut contents), Ok(Vec::new()));
}

#[test]
fn a_store_without_any_location_fails_every_subscription() {
    let mut contents = backyard_store();
    watch(&mut contents, 28654, "Backyard", 20, C2);
    remove_location(&mut contents, &"Backyard".to_string(), U1).unwrap();
    let (cycle, action) = PollCycle::begin(&contents, 900);
    assert_eq!(action, CycleAction::Commit);
    assert_eq!(
        cycle.commit(&mut contents),
        Ok(vec![
            CycleFailure { subscription: 0, kind: FailureKind::MissingLocation },
            CycleFailure { subscription: 1, kind: FailureKind::MissingLocation },
        ])
    );
}

#[test]
fn passes_below_the_threshold_are_not_delivered() {
    let mut contents = backyard_store();
    let upstream = |_: &PassRequest| Some(answer("NOAA 15", vec![pass(1000, 1300, 19)]));
    let (delivered, failures) = run_cycle(&mut contents, 900, &upstream, &|_| true);
    assert!(delivered.is_empty());
    assert!(failures.is_empty());
    assert_eq!(contents.watched_satellites[0].previous_notifications, Vec::new());
}

#[test]
fn an_event_that_was_not_asked_for_changes_nothing() {
    let contents = backyard_store();
    let (cycle, action) = PollCycle::begin(&contents, 900);
    assert_eq!(action, CycleAction::Fetch(backyard_request(25338, 20)));
    let (cycle, outcome) = cycle.step(CycleEvent::Delivered);
    assert_eq!(outcome, Err(CycleError::UnexpectedEvent));
    let (cycle, outcome) = cycle.step(CycleEvent::DeliveryFailed);
    assert_eq!(outcome, Err(CycleError::UnexpectedEvent));
    assert_eq!(cycle.phase(), CyclePhase::Fetching);
    assert_eq!(cycle.cursor(), 0);

    let (cycle, outcome) = cycle.step(CycleEvent::Fetched(answer("NOAA 15", vec![pass(1000, 1300, 35)])));
    assert!(matches!(outcome, Ok(CycleAction::Deliver(_))));
    assert_eq!(cycle.phase(), CyclePhase::Delivering);
    let (cycle, outcome) = cycle.step(CycleEvent::FetchFailed);
    assert_eq!(outcome, Err(CycleError::UnexpectedEvent));
    let (cycle, outcome) = cycle.step(CycleEvent::Fetched(answer("NOAA 15", Vec::new())));
    assert_eq!(outcome, Err(CycleError::UnexpectedEvent));
    assert_eq!(cycle.phase(), CyclePhase::Delivering);

    let (mut cycle, outcome) = cycle.step(CycleEvent::Delivered);
    assert_eq!(outcome, Ok(CycleAction::Commit));
    let late = [
        CycleEvent::Delivered,
        CycleEvent::DeliveryFailed,
        CycleEvent::FetchFailed,
        CycleEvent::Fetched(answer("NOAA 15", vec![pass(5000, 5300, 35)])),
    ];
    for event in late {
        let (same, outcome) = cycle.step(event);
        assert_eq!(outcome, Err(CycleError::UnexpectedEvent));
        assert_eq!(same.phase(), CyclePhase::Committing);
        assert_eq!(same.cursor(), 1);
        cycle = same;
    }
    let mut store = contents.clone();
    assert_eq!(cycle.commit(&mut store), Ok(Vec::new()));
    assert_eq!(store.watched_satellites[0].previous_notifications, vec![(1000, 1300)]);
}

#[test]
fn a_cycle_takes_at_most_two_events_for_each_subscription() {
    let mut contents = backyard_store();
    watch(&mut contents, 28654, "Backyard", 20, C2);
    watch(&mut contents, 33591, "Backyard", 20, C1);
    let (mut cycle, mut action) = PollCycle::begin(&contents, 900);
    let mut events = 0;
    while action != CycleAction::Commit {
        let event = match action {
            CycleAction::Fetch(_) => CycleEvent::Fetched(answer("SAT", vec![pass(1000, 1300, 35)])),
            _ => CycleEvent::Delivered,
        };
        let (next, outcome) = cycle.step(event);
        cycle = next;
        action = outcome.unwrap();
        events += 1;
    }
    assert_eq!(events, 6);
    assert_eq!(cycle.cursor(), 3);
}

#[test]
fn an_unfinished_cycle_writes_nothing() {
    let mut contents = backyard_store();
    contents.watched_satellites[0].previous_notifications.push((10, 20));
    let before = contents.clone();
    let (cycle, _) = PollCycle::begin(&contents, 10 * DAY);
    assert_eq!(cycle.commit(&mut contents), Err(CycleError::Unfinished));
    assert_eq!(contents, before);

    let (cycle, _) = PollCycle::begin(&contents, 10 * DAY);
    let (cycle, _) = cycle.step(CycleEvent::Fetched(answer("NOAA 15", vec![pass(10 * 86_400, 10 * 86_400 + 300, 35)])));
    assert_eq!(cycle.phase(), CyclePhase::Delivering);
    assert_eq!(cycle.commit(&mut contents), Err(CycleError::Unfinished));
    assert_eq!(contents, before);
}

#[test]
fn the_cycle_writes_into_the_store_as_it_is_at_the_end() {
    let mut contents = backyard_store();
    watch(&mut contents, 28654, "Backyard", 20, C2);
    let (cycle, _) = PollCycle::begin(&contents, 900);
    let (cycle, _) = cycle.step(CycleEvent::Fetched(answer("NOAA 15", vec![pass(1000, 1300, 35)])));
    let (cycle, _) = cycle.step(CycleEvent::Delivered);
    let (cycle, _) = cycle.step(CycleEvent::Fetched(answer("NOAA 18", vec![pass(5000, 5300, 35)])));
    let (cycle, action) = cycle.step(CycleEvent::Delivered);
    assert_eq!(action, Ok(CycleAction::Commit));

    // Meanwhile the first subscription is removed and another one is made.
    unwatch_satellite(&mut contents, 25338, C1, &"Backyard".to_string(), U1).unwrap();
    watch(&mut contents, 33591, "Backyard", 20, C1);
    cycle.commit(&mut contents).unwrap();
    assert_eq!(contents.watched_satellites.len(), 2);
    assert_eq!(contents.watched_satellites[0].satellite_id.0, 28654);
    assert_eq!(contents.watched_satellites[0].previous_notifications, vec![(5000, 5300)]);
    assert_eq!(contents.watched_satellites[1].satellite_id.0, 33591);
    assert_eq!(contents.watched_satellites[1].previous_notifications, Vec::new());
}

#[test]
fn writing_appends_under_the_key_and_prunes_every_history() {
    let mut contents = backyard_store();
    watch(&mut contents, 25338, "Backyard", 30, C1);
    contents.watched_satellites[0].previous_notifications = vec![(10, 20), (100_000, 100_300)];
    contents.watched_satellites[1].previous_notifications = vec![(30, 40), (100_500, 100_800)];
    let delivered = vec![
        DeliveredBatch {
            satellite_id: 25338,
            location: LocationName("Backyard".to_string()),
            min_max_elevation: 30 * DEGREE,
            channel: C1.0,
            windows: vec![(101_000, 101_300), (50, 60)],
        },
        DeliveredBatch {
            satellite_id: 25338,
            location: LocationName("Backyard".to_string()),
            min_max_elevation: 31 * DEGREE,
            channel: C1.0,
            windows: vec![(7, 8)],
        },
        DeliveredBatch {
            satellite_id: 25338,
            location: LocationName("Backyard".to_string()),
            min_max_elevation: 30 * DEGREE,
            channel: C1.0,
            windows: vec![(102_000, 102_300)],
        },
    ];
    write_histories(&mut contents, &delivered, 100_000);
    assert_eq!(contents.watched_satellites[0].previous_notifications, vec![(100_000, 100_300)]);
    assert_eq!(
        contents.watched_satellites[1].previous_notifications,
        vec![(100_500, 100_800), (101_000, 101_300), (102_000, 102_300)]
    );
    assert_eq!(contents.locations.len(), 1);
}

#[test]
fn a_cycle_started_by_the_clock_starts_now() {
    let contents = backyard_store();
    let (cycle, action) = PollCycle::begin_now(&contents);
    assert_eq!(action, CycleAction::Fetch(backyard_request(25338, 20)));
    // Later than the first of January 2020.
    assert!(cycle.now() > 1_577_836_800);
}

#[test]
fn each_pass_of_a_batch_has_its_notice() {
    let batch = NotificationBatch {
        channel: C1,
        locale: "en-GB".to_string(),
        satellite_name: "NOAA 15".to_string(),
        location: LocationName("Backyard".to_string()),
        passes: vec![
            pass(1000, 1300, 35),
            SatellitePass { start_utc: 7200, max_utc: 7250, end_utc: 7290, max_elevation: 62_230_000 },
        ],
    };
    assert_eq!(
        notices(&batch),
        vec![
            PassNotice {
                title: "Upcoming pass for NOAA 15 at Backyard".to_string(),
                description: "<t:1000> - <t:1300:t> (5m 0s)\nMax Elevation: 35°".to_string(),
            },
            PassNotice {
                title: "Upcoming pass for NOAA 15 at Backyard".to_string(),
                description: "<t:7200> - <t:7290:t> (1m 30s)\nMax Elevation: 62.23°".to_string(),
            },
        ]
    );
}
