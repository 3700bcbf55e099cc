use telemetry_core::clock::deadline;
use telemetry_core::event::Event;
use telemetry_core::event::Outbox;
use telemetry_core::limits::Limits;
use telemetry_core::queue::PushError;
use telemetry_core::queue::RecordQueue;
use telemetry_core::record::Fields;
use telemetry_core::record::MetricRecord;
use telemetry_core::rng::Rng;
use telemetry_core::rng::DRAW_RANGE;
use telemetry_core::rng::INCREMENT;
use telemetry_core::rng::MULTIPLIER;
use telemetry_core::run::LogStep;
use telemetry_core::sampler::threshold;
use telemetry_core::sampler::Sampler;
use telemetry_core::session::make_id;
use telemetry_core::session::Session;
use telemetry_core::settings::rate_is_valid;
use telemetry_core::settings::ConfigError;
use telemetry_core::settings::Settings;

fn record(sequence: u64) -> MetricRecord {
    let mut fields = Fields::new();
    fields.insert("n".to_string(), (sequence as f64).to_bits());
    MetricRecord::new("q".to_string(), sequence, 1_000 + sequence, fields)
}

#[test]
fn deadline_adds_and_saturates() {
    assert_eq!(deadline(100, 50), 150);
    assert_eq!(deadline(0, 0), 0);
    assert_eq!(deadline(u64::MAX - 1, 1), u64::MAX);
    assert_eq!(deadline(u64::MAX - 1, 2), u64::MAX);
    assert_eq!(deadline(u64::MAX, u64::MAX), u64::MAX);
}

#[test]
fn fields_behave_as_a_mapping() {
    let mut fields = Fields::new();
    assert!(fields.is_empty());
    assert_eq!(fields.len(), 0);
    assert_eq!(fields.insert("loss".to_string(), 13.37f64.to_bits()), None);
    assert_eq!(fields.insert("acc".to_string(), 0.9f64.to_bits()), None);
    assert_eq!(fields.len(), 2);
    assert_eq!(fields.get(&"loss".to_string()), Some(13.37f64.to_bits()));
    assert_eq!(fields.get(&"missing".to_string()), None);
    assert_eq!(fields.insert("loss".to_string(), 1.0f64.to_bits()), Some(13.37f64.to_bits()));
    assert_eq!(fields.len(), 2);
    assert_eq!(fields.get(&"loss".to_string()), Some(1.0f64.to_bits()));
    assert_eq!(fields.get(&"acc".to_string()), Some(0.9f64.to_bits()));
    assert!(!fields.is_empty());

    let copy = fields.duplicate();
    fields.insert("acc".to_string(), 0.0f64.to_bits());
    assert_eq!(copy.get(&"acc".to_string()), Some(0.9f64.to_bits()));
    assert_eq!(copy.len(), 2);
    let names: Vec<String> = copy.entries().iter().map(|m| m.name.clone()).collect();
    assert_eq!(names, vec!["loss".to_string(), "acc".to_string()]);
}

#[test]
fn record_keeps_its_parts() {
    let r = record(7);
    assert_eq!(r.run_id(), "q");
    assert_eq!(r.sequence(), 7);
    assert_eq!(r.timestamp(), 1_007);
    assert_eq!(r.fields().get(&"n".to_string()), Some(7.0f64.to_bits()));
}

#[test]
fn queue_is_bounded_and_first_in_first_out() {
    let mut queue = RecordQueue::new(3);
    assert_eq!(queue.capacity(), 3);
    assert!(queue.is_empty());
    assert!(!queue.is_closed());
    for i in 0..3 {
        assert_eq!(queue.push(record(i)), Ok(()));
    }
    assert!(queue.is_full());
    assert_eq!(queue.push(record(3)), Err(PushError::Full));
    assert_eq!(queue.len(), 3);

    let batch = queue.drain(2);
    let sequences: Vec<u64> = batch.iter().map(|r| r.sequence()).collect();
    assert_eq!(sequences, vec![0, 1]);
    assert_eq!(queue.len(), 1);
    assert_eq!(queue.push(record(3)), Ok(()));

    let batch = queue.drain(10);
    let sequences: Vec<u64> = batch.iter().map(|r| r.sequence()).collect();
    assert_eq!(sequences, vec![2, 3]);
    assert!(queue.drain(10).is_empty());
    assert!(queue.drain(0).is_empty());
}

#[test]
fn closed_queue_refuses_pushes_and_still_drains() {
    let mut queue = RecordQueue::new(2);
    assert_eq!(queue.push(record(0)), Ok(()));
    queue.close();
    assert!(queue.is_closed());
    assert_eq!(queue.push(record(1)), Err(PushError::Closed));
    assert_eq!(queue.len(), 1);
    // Closed wins over full.
    let mut full = RecordQueue::new(0);
    assert_eq!(full.push(record(0)), Err(PushError::Full));
    full.close();
    assert_eq!(full.push(record(0)), Err(PushError::Closed));
    let batch = queue.drain(5);
    assert_eq!(batch.len(), 1);
    assert_eq!(batch[0].sequence(), 0);
}

#[test]
fn outbox_drops_what_does_not_fit() {
    let mut outbox = Outbox::new(2);
    assert_eq!(outbox.capacity(), 2);
    assert!(outbox.emit(Event::RunFinished { run_id: "a".to_string() }));
    assert!(outbox.emit(Event::RunFinished { run_id: "b".to_string() }));
    assert!(!outbox.emit(Event::RunFinished { run_id: "c".to_string() }));
    assert_eq!(outbox.len(), 2);
    let events = outbox.take();
    let ids: Vec<String> = events
        .iter()
        .map(|e| match e {
            Event::RunFinished { run_id } => run_id.clone(),
            other => panic!("unexpected event {:?}", other),
        })
        .collect();
    assert_eq!(ids, vec!["a".to_string(), "b".to_string()]);
    assert_eq!(outbox.len(), 0);
    assert!(outbox.emit(Event::RunFinished { run_id: "d".to_string() }));
}

#[test]
fn generator_follows_its_recurrence() {
    let mut rng = Rng::new(0);
    assert_eq!(rng.peek(), INCREMENT >> 11);
    assert_eq!(rng.next(), INCREMENT >> 11);
    let second = INCREMENT.wrapping_mul(MULTIPLIER).wrapping_add(INCREMENT);
    assert_eq!(rng.next(), second >> 11);

    let mut state = 42u64;
    let mut rng = Rng::new(42);
    for _ in 0..1000 {
        state = state.wrapping_mul(MULTIPLIER).wrapping_add(INCREMENT);
        let draw = rng.next();
        assert_eq!(draw, state >> 11);
        assert!(draw < DRAW_RANGE);
    }
}

#[test]
fn rate_must_lie_above_zero_and_at_most_one() {
    assert!(rate_is_valid(1.0f64.to_bits()));
    assert!(rate_is_valid(0.5f64.to_bits()));
    assert!(rate_is_valid(f64::MIN_POSITIVE.to_bits()));
    assert!(rate_is_valid(5e-324f64.to_bits()));
    assert!(rate_is_valid((1.0f64 - f64::EPSILON / 2.0).to_bits()));
    assert!(!rate_is_valid(0.0f64.to_bits()));
    assert!(!rate_is_valid((-0.0f64).to_bits()));
    assert!(!rate_is_valid((1.0f64 + f64::EPSILON).to_bits()));
    assert!(!rate_is_valid(2.0f64.to_bits()));
    assert!(!rate_is_valid((-0.5f64).to_bits()));
    assert!(!rate_is_valid(f64::INFINITY.to_bits()));
    assert!(!rate_is_valid(f64::NEG_INFINITY.to_bits()));
    assert!(!rate_is_valid(f64::NAN.to_bits()));
}

#[test]
fn settings_are_validated_when_the_session_starts() {
    let settings = Settings::new(Some("https://collector.example".to_string()), Some(0.25f64.to_bits()), Some(9));
    assert_eq!(settings.validate(), Ok(()));
    assert_eq!(settings.sample_rate(), Some(0.25f64.to_bits()));
    assert_eq!(settings.seed(), Some(9));
    assert_eq!(settings.base_url(), &Some("https://collector.example".to_string()));
    assert!(Session::new(settings).is_ok());

    assert_eq!(Settings::new(None, None, None).validate(), Ok(()));
    for bad in [0.0f64, 1.5, -1.0, f64::NAN] {
        let settings = Settings::new(None, Some(bad.to_bits()), None);
        assert_eq!(settings.validate(), Err(ConfigError::SampleRateOutOfRange));
        assert_eq!(Session::new(settings).err(), Some(ConfigError::SampleRateOutOfRange));
    }
}

#[test]
fn limits_are_validated_after_the_settings() {
    let defaults = Limits::default();
    assert_eq!(defaults.batch_size, 50);
    assert_eq!(defaults.base_delay_ms, 200);
    assert_eq!(defaults.max_delay_ms, 30_000);
    assert_eq!(defaults.validate(), Ok(()));

    let no_queue = Limits { queue_capacity: 0, ..defaults };
    let no_batch = Limits { batch_size: 0, ..defaults };
    assert_eq!(no_queue.validate(), Err(ConfigError::InvalidLimits));
    assert_eq!(no_batch.validate(), Err(ConfigError::InvalidLimits));
    assert_eq!(
        Session::with_limits(Settings::new(None, None, None), no_queue).err(),
        Some(ConfigError::InvalidLimits)
    );
    assert_eq!(
        Session::with_limits(Settings::new(None, Some(3.0f64.to_bits()), None), no_batch).err(),
        Some(ConfigError::SampleRateOutOfRange)
    );
}

#[test]
fn threshold_is_the_rate_scaled_to_the_draw_range() {
    assert_eq!(threshold(1.0f64.to_bits()), DRAW_RANGE);
    assert_eq!(threshold(0.5f64.to_bits()), DRAW_RANGE / 2);
    assert_eq!(threshold(0.25f64.to_bits()), DRAW_RANGE / 4);
    assert_eq!(threshold(0.75f64.to_bits()), DRAW_RANGE / 4 * 3);
    // 2^-53 keeps one draw in the whole range; anything smaller still keeps that one.
    assert_eq!(threshold((2.0f64).powi(-53).to_bits()), 1);
    assert_eq!(threshold((2.0f64).powi(-52).to_bits()), 2);
    assert_eq!(threshold((2.0f64).powi(-60).to_bits()), 1);
    assert_eq!(threshold(f64::MIN_POSITIVE.to_bits()), 1);
    assert_eq!(threshold(5e-324f64.to_bits()), 1);
    // 1.5 * 2^-53 lies between one and two draws and is rounded up.
    assert_eq!(threshold((1.5f64 * (2.0f64).powi(-53)).to_bits()), 2);
    for rate in [0.1f64, 0.3, 0.9, 0.999, 1e-9] {
        let scaled = rate * (DRAW_RANGE as f64);
        assert_eq!(threshold(rate.to_bits()), scaled.ceil() as u64);
    }
}

#[test]
fn sampler_decides_by_comparing_draw_and_threshold() {
    let mut sampler = Sampler::new(Some(0.5f64.to_bits()), Some(11));
    let mut state = 11u64;
    let mut kept = 0u32;
    for _ in 0..2000 {
        state = state.wrapping_mul(MULTIPLIER).wrapping_add(INCREMENT);
        let expected = (state >> 11) < DRAW_RANGE / 2;
        assert_eq!(sampler.peek(), expected);
        assert_eq!(sampler.peek(), expected);
        sampler.advance();
        if expected {
            kept += 1;
        }
    }
    assert!(kept > 800 && kept < 1200);

    let mut all = Sampler::new(None, None);
    for _ in 0..100 {
        assert!(all.peek());
        all.advance();
    }
}

#[test]
fn sampled_out_records_use_no_sequence_number() {
    let settings = Settings::new(None, Some(0.5f64.to_bits()), Some(5));
    let mut session = Session::new(settings).expect("valid");
    let mut run = session.init_run(None).expect("fresh id");
    let mut fields = Fields::new();
    fields.insert("x".to_string(), 1.0f64.to_bits());
    let mut state = 5u64;
    let mut next = 0u64;
    let mut skipped = 0u32;
    for i in 0..200u64 {
        state = state.wrapping_mul(MULTIPLIER).wrapping_add(INCREMENT);
        let keep = (state >> 11) < DRAW_RANGE / 2;
        let answer = run.log(&fields, i, i + 1);
        if keep {
            assert_eq!(answer, Ok(LogStep::Accepted(next)));
            next += 1;
        } else {
            assert_eq!(answer, Ok(LogStep::Skipped));
            skipped += 1;
        }
    }
    assert!(skipped > 0);
    assert_eq!(run.accepted(), next);
    assert_eq!(run.queued() as u64, next);
}

#[test]
fn second_run_samples_from_a_shifted_seed() {
    let settings = Settings::new(None, Some(0.5f64.to_bits()), Some(u64::MAX));
    let mut session = Session::new(settings).expect("valid");
    let _first = session.init_run(None).expect("fresh id");
    let mut second = session.init_run(None).expect("fresh id");
    let fields = Fields::new();
    // The second run's stream starts from the seed plus one, wrapped: zero.
    let mut state = 0u64;
    for i in 0..50u64 {
        state = state.wrapping_mul(MULTIPLIER).wrapping_add(INCREMENT);
        let keep = (state >> 11) < DRAW_RANGE / 2;
        let answer = second.log(&fields, i, i);
        assert_eq!(matches!(answer, Ok(LogStep::Accepted(_))), keep);
    }
}

#[test]
fn generated_ids_count_up_in_decimal() {
    assert_eq!(make_id(0), "run-0");
    assert_eq!(make_id(9), "run-9");
    assert_eq!(make_id(10), "run-10");
    assert_eq!(make_id(1234567890), "run-1234567890");
    assert_eq!(make_id(usize::MAX), format!("run-{}", usize::MAX));
}

#[test]
fn generated_ids_skip_taken_ones() {
    let mut session = Session::new(Settings::new(None, None, None)).expect("valid");
    let taken = session.init_run(Some("run-1".to_string())).expect("fresh id");
    assert_eq!(taken.id(), "run-1");
    let a = session.init_run(None).expect("fresh id");
    let b = session.init_run(None).expect("fresh id");
    let c = session.init_run(None).expect("fresh id");
    assert_eq!(a.id(), "run-0");
    assert_eq!(b.id(), "run-2");
    assert_eq!(c.id(), "run-3");
    assert!(session.init_run(Some("run-2".to_string())).is_err());
    assert_eq!(session.active_runs().len(), 4);
}

#[test]
fn run_created_event_carries_the_url() {
    let settings = Settings::new(Some("https://collector.example/team".to_string()), None, None);
    let mut session = Session::new(settings).expect("valid");
    let _run = session.init_run(Some("KEHHBT".to_string())).expect("fresh id");
    let events = session.take_events();
    assert_eq!(events.len(), 1);
    match &events[0] {
        Event::RunCreated { id, url } => {
            assert_eq!(id, "KEHHBT");
            assert_eq!(url, &Some("https://collector.example/team/runs/KEHHBT".to_string()));
        },
        other => panic!("unexpected event {:?}", other),
    }

    let mut bare = Session::new(Settings::new(None, None, None)).expect("valid");
    let _run = bare.init_run(None).expect("fresh id");
    match &bare.take_events()[0] {
        Event::RunCreated { id, url } => {
            assert_eq!(id, "run-0");
            assert_eq!(url, &None);
        },
        other => panic!("unexpected event {:?}", other),
    }
}

#[test]
fn dispatcher_is_handed_out_once() {
    let mut session = Session::new(Settings::new(None, None, None)).expect("valid");
    let first = session.dispatcher();
    assert!(first.is_some());
    let dispatcher = first.expect("first request");
    assert_eq!(dispatcher.batch_size(), 50);
    assert_eq!(dispatcher.max_retries(), 5);
    assert!(session.dispatcher().is_none());
    assert!(session.dispatcher().is_none());
}
