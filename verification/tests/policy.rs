use telemetry_core::dispatcher::ceiling_for;
use telemetry_core::dispatcher::delay_for;
use telemetry_core::dispatcher::Demand;
use telemetry_core::dispatcher::FailureStep;
use telemetry_core::limits::Limits;
use telemetry_core::record::Fields;
use telemetry_core::rng::INCREMENT;
use telemetry_core::rng::MULTIPLIER;
use telemetry_core::run::Action;
use telemetry_core::run::LogStep;
use telemetry_core::session::Session;
use telemetry_core::settings::Settings;

#[test]
fn backoff_doubles_up_to_the_cap() {
    assert_eq!(ceiling_for(200, 30_000, 0), 200);
    assert_eq!(ceiling_for(200, 30_000, 1), 400);
    assert_eq!(ceiling_for(200, 30_000, 2), 800);
    assert_eq!(ceiling_for(200, 30_000, 7), 25_600);
    assert_eq!(ceiling_for(200, 30_000, 8), 30_000);
    assert_eq!(ceiling_for(200, 30_000, 63), 30_000);
    assert_eq!(ceiling_for(200, 30_000, u32::MAX), 30_000);
    assert_eq!(ceiling_for(0, 30_000, 4), 0);
    assert_eq!(ceiling_for(0, 30_000, u32::MAX), 0);
    assert_eq!(ceiling_for(500, 100, 0), 100);
    assert_eq!(ceiling_for(1, u64::MAX, 63), 1u64 << 63);
    assert_eq!(ceiling_for(1, u64::MAX, 64), u64::MAX);
    assert_eq!(ceiling_for(3, 48, 4), 48);
    assert_eq!(ceiling_for(3, 49, 4), 48);
    assert_eq!(ceiling_for(3, 47, 4), 47);
}

#[test]
fn jitter_stays_between_half_the_ceiling_and_the_ceiling() {
    assert_eq!(delay_for(200, 30_000, 0, 0), 100);
    assert_eq!(delay_for(200, 30_000, 0, 100), 200);
    assert_eq!(delay_for(200, 30_000, 0, 101), 100);
    assert_eq!(delay_for(200, 30_000, 2, 7), 407);
    assert_eq!(delay_for(200, 30_000, 19, 15_000), 30_000);
    assert_eq!(delay_for(0, 30_000, 3, 12345), 0);
    assert_eq!(delay_for(1, 10, 0, 999), 1);
    for draw in 0..500u64 {
        let delay = delay_for(200, 30_000, 3, draw * 7919);
        assert!((800..=1_600).contains(&delay));
    }
}

#[test]
fn retries_wait_out_the_backoff() {
    let limits = Limits {
        queue_capacity: 4,
        batch_size: 4,
        max_retries: 2,
        base_delay_ms: 200,
        max_delay_ms: 30_000,
        enqueue_timeout_ms: 0,
        finish_timeout_ms: 0,
        event_capacity: 8,
    };
    let mut session = Session::with_limits(Settings::new(None, None, Some(99)), limits).expect("valid");
    let mut dispatcher = session.dispatcher().expect("first request");
    let mut run = session.init_run(None).expect("fresh id");
    let fields = Fields::new();
    assert_eq!(run.log(&fields, 0, 0), Ok(LogStep::Accepted(0)));

    assert_eq!(dispatcher.on_failure(&mut run, 5), FailureStep::Ignored);
    assert_eq!(dispatcher.dispatch(&mut run, 1_000), Action::Transmit);
    assert_eq!(run.attempts(), 0);

    let first = 99u64.wrapping_mul(MULTIPLIER).wrapping_add(INCREMENT);
    let at = 1_000 + delay_for(200, 30_000, 0, first >> 11);
    assert_eq!(dispatcher.on_failure(&mut run, 1_000), FailureStep::Retry(at));
    assert_eq!(run.attempts(), 1);
    assert_eq!(run.retry_at(), at);
    assert_eq!(dispatcher.dispatch(&mut run, at - 1), Action::Backoff(at));
    assert_eq!(dispatcher.dispatch(&mut run, at), Action::Transmit);

    let second = first.wrapping_mul(MULTIPLIER).wrapping_add(INCREMENT);
    let again = at + delay_for(200, 30_000, 1, second >> 11);
    assert_eq!(dispatcher.on_failure(&mut run, at), FailureStep::Retry(again));
    assert_eq!(run.attempts(), 2);
    assert_eq!(run.in_flight().len(), 1);

    assert_eq!(dispatcher.dispatch(&mut run, again), Action::Transmit);
    assert_eq!(dispatcher.on_failure(&mut run, again), FailureStep::Dropped(1));
    assert_eq!(run.attempts(), 0);
    assert_eq!(run.in_flight().len(), 0);
    assert_eq!(run.failed(), 1);
    assert_eq!(dispatcher.dispatch(&mut run, again), Action::Idle);

    // A retry instant never wraps round.
    assert_eq!(run.log(&fields, 0, 0), Ok(LogStep::Accepted(1)));
    assert_eq!(dispatcher.dispatch(&mut run, u64::MAX), Action::Transmit);
    assert_eq!(dispatcher.on_failure(&mut run, u64::MAX), FailureStep::Retry(u64::MAX));
}

#[test]
fn selection_prefers_urgent_and_rotates() {
    let mut session = Session::new(Settings::new(None, None, None)).expect("valid");
    let mut dispatcher = session.dispatcher().expect("first request");
    let (ready_run, resting, retired, urgent) = (Demand::Ready, Demand::Resting, Demand::Retired, Demand::Urgent);

    assert_eq!(dispatcher.select(&vec![]), None);
    assert_eq!(dispatcher.select(&vec![resting, retired, resting]), None);

    // Rounds rotate among the ready runs.
    let ready = vec![ready_run, ready_run, ready_run];
    assert_eq!(dispatcher.select(&ready), Some(0));
    assert_eq!(dispatcher.select(&ready), Some(1));
    assert_eq!(dispatcher.select(&ready), Some(2));
    assert_eq!(dispatcher.select(&ready), Some(0));
    assert_eq!(dispatcher.select(&vec![resting, retired, resting]), None);
    assert_eq!(dispatcher.select(&ready), Some(1));

    // An urgent run goes first wherever the round stands.
    assert_eq!(dispatcher.select(&vec![urgent, ready_run, ready_run]), Some(0));
    assert_eq!(dispatcher.select(&vec![ready_run, ready_run, urgent]), Some(2));
    assert_eq!(dispatcher.select(&vec![ready_run, ready_run, urgent]), Some(2));

    // urgent runs rotate among themselves too.
    let mixed = vec![urgent, ready_run, urgent, resting];
    assert_eq!(dispatcher.select(&mixed), Some(0));
    assert_eq!(dispatcher.select(&mixed), Some(2));
    assert_eq!(dispatcher.select(&mixed), Some(0));

    // A shorter list restarts the round at its beginning.
    assert_eq!(dispatcher.select(&vec![ready_run, ready_run, ready_run, ready_run, ready_run]), Some(1));
    assert_eq!(dispatcher.select(&vec![ready_run, ready_run, ready_run, ready_run, ready_run]), Some(2));
    assert_eq!(dispatcher.select(&vec![resting, resting, resting, resting, ready_run]), Some(4));
    assert_eq!(dispatcher.select(&vec![ready_run, ready_run]), Some(0));
}

#[test]
fn watermark_follows_acknowledgements_only() {
    let limits = Limits {
        queue_capacity: 8,
        batch_size: 2,
        max_retries: 0,
        base_delay_ms: 1,
        max_delay_ms: 1,
        enqueue_timeout_ms: 0,
        finish_timeout_ms: 0,
        event_capacity: 8,
    };
    let mut session = Session::with_limits(Settings::new(None, None, None), limits).expect("valid");
    let mut dispatcher = session.dispatcher().expect("first request");
    let mut run = session.init_run(None).expect("fresh id");
    let fields = Fields::new();
    for i in 0..5u64 {
        assert_eq!(run.log(&fields, i, i), Ok(LogStep::Accepted(i)));
    }
    assert_eq!(run.last_acknowledged(), None);

    // The first batch is refused and given up at once.
    assert_eq!(dispatcher.dispatch(&mut run, 10), Action::Transmit);
    assert_eq!(dispatcher.on_failure(&mut run, 10), FailureStep::Dropped(2));
    assert_eq!(run.last_acknowledged(), None);
    assert_eq!((run.delivered(), run.failed()), (0, 2));

    // The second is acknowledged.
    assert_eq!(dispatcher.dispatch(&mut run, 11), Action::Transmit);
    let sequences: Vec<u64> = run.in_flight().iter().map(|r| r.sequence()).collect();
    assert_eq!(sequences, vec![2, 3]);
    assert!(dispatcher.on_ack(&mut run));
    assert_eq!(run.last_acknowledged(), Some(3));
    assert_eq!((run.delivered(), run.failed()), (2, 2));

    assert_eq!(dispatcher.dispatch(&mut run, 12), Action::Transmit);
    assert!(dispatcher.on_ack(&mut run));
    assert_eq!(run.last_acknowledged(), Some(4));
    assert_eq!(dispatcher.dispatch(&mut run, 13), Action::Idle);
    assert!(!dispatcher.on_ack(&mut run));
    assert_eq!(run.last_acknowledged(), Some(4));
    assert_eq!(run.finish(14, 14), Err(telemetry_core::run::RunError::PartialFlush(2)));
}
