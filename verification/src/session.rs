//! The session: one validated configuration and the registry of run ids.

use crate::dispatcher::Dispatcher;
use crate::dispatcher::DispatcherView;
use crate::event::Event;
use crate::event::EventView;
use crate::event::Outbox;
use crate::event::event_views;
use crate::event::offer;
use crate::limits::Limits;
use crate::limits::limits_acceptable;
use crate::record::RecordView;
use crate::run::Run;
use crate::run::RunState;
use crate::run::RunView;
use crate::sampler::DEFAULT_SEED;
use crate::sampler::Sampler;
use crate::sampler::limit_matches;
use crate::settings::ConfigError;
use crate::settings::Settings;
use crate::settings::SettingsView;
use crate::settings::acceptable;
use vstd::prelude::*;
use vstd::set_lib::lemma_int_range;
use vstd::set_lib::lemma_len_subset;
use vstd::set_lib::lemma_map_size;
use vstd::set_lib::set_int_range;

verus! {

/// The character of a decimal digit.
pub open spec fn digit(d: nat) -> char
    recommends
        d < 10,
{
    if d == 0 {
        '0'
    } else if d == 1 {
        '1'
    } else if d == 2 {
        '2'
    } else if d == 3 {
        '3'
    } else if d == 4 {
        '4'
    } else if d == 5 {
        '5'
    } else if d == 6 {
        '6'
    } else if d == 7 {
        '7'
    } else if d == 8 {
        '8'
    } else {
        '9'
    }
}

/// A number in decimal, most significant digit first, without leading zeros.
pub open spec fn decimal(n: nat) -> Seq<char>
    decreases n,
{
    if n < 10 {
        seq![digit(n)]
    } else {
        decimal(n / 10).push(digit(n % 10))
    }
}

/// The id that the session gives the run with ordinal `n`.
pub open spec fn generated_id(n: nat) -> Seq<char> {
    "run-"@ + decimal(n)
}

/// Where the collector shows a run: the base address, `/runs/` and the id.
pub open spec fn run_url(base: Seq<char>, id: Seq<char>) -> Seq<char> {
    base + "/runs/"@ + id
}

/// Different digits have different characters.
pub proof fn lemma_digit_injective(a: nat, b: nat)
    requires
        a < 10,
        b < 10,
        digit(a) == digit(b),
    ensures
        a == b,
{
}

/// Different numbers have different decimals.
pub proof fn lemma_decimal_injective(a: nat, b: nat)
    requires
        decimal(a) == decimal(b),
    ensures
        a == b,
    decreases a,
{
    lemma_decimal_nonempty(a / 10);
    lemma_decimal_nonempty(b / 10);
    if a < 10 {
        assert(decimal(a).len() == 1);
        assert(b < 10);
        assert(decimal(a)[0] == digit(a));
        assert(decimal(b)[0] == digit(b));
        lemma_digit_injective(a, b);
    } else {
        assert(decimal(a).len() >= 2);
        assert(b >= 10);
        let da = decimal(a / 10);
        let db = decimal(b / 10);
        assert(decimal(a).last() == digit(a % 10));
        assert(decimal(b).last() == digit(b % 10));
        assert(da =~= decimal(a).drop_last());
        assert(db =~= decimal(b).drop_last());
        lemma_decimal_injective(a / 10, b / 10);
        lemma_digit_injective(a % 10, b % 10);
    }
}

/// A decimal has at least one digit.
pub proof fn lemma_decimal_nonempty(n: nat)
    ensures
        decimal(n).len() >= 1,
    decreases n,
{
    if n >= 10 {
        lemma_decimal_nonempty(n / 10);
    }
}

/// Different ordinals give different ids.
pub proof fn lemma_generated_id_injective(a: nat, b: nat)
    requires
        generated_id(a) == generated_id(b),
    ensures
        a == b,
{
    let p = "run-"@;
    assert(decimal(a) =~= generated_id(a).subrange(p.len() as int, generated_id(a).len() as int));
    assert(decimal(b) =~= generated_id(b).subrange(p.len() as int, generated_id(b).len() as int));
    lemma_decimal_injective(a, b);
}

/// A list that holds the ids of the first `n` ordinals has at least `n` entries.
pub proof fn lemma_ordinals_fit(active: Seq<Seq<char>>, n: nat)
    requires
        forall|c: nat| c < n ==> active.contains(#[trigger] generated_id(c)),
    ensures
        n <= active.len(),
{
    let x = set_int_range(0, n as int);
    lemma_int_range(0, n as int);
    let f = |c: int| generated_id(c as nat);
    let y = x.map(f);
    assert(vstd::relations::injective_on(f, x)) by {
        assert forall|a: int, b: int| x.contains(a) && x.contains(b) && #[trigger] f(a)
            == #[trigger] f(b) implies a == b by {
            lemma_generated_id_injective(a as nat, b as nat);
        }
    }
    lemma_map_size(x, y, f);
    assert(y.subset_of(active.to_set())) by {
        assert forall|s: Seq<char>| y.contains(s) implies active.to_set().contains(s) by {
            let c = choose|c: int| x.contains(c) && f(c) == s;
            assert(active.contains(generated_id(c as nat)));
        }
    }
    vstd::seq_lib::seq_to_set_is_finite(active);
    lemma_len_subset(y, active.to_set());
    active.lemma_cardinality_of_set();
}

/// The string of one decimal digit.
fn digit_str(d: usize) -> (s: &'static str)
    requires
        d < 10,
    ensures
        s@ == seq![digit(d as nat)],
{
    proof {
        reveal_strlit("0");
        reveal_strlit("1");
        reveal_strlit("2");
        reveal_strlit("3");
        reveal_strlit("4");
        reveal_strlit("5");
        reveal_strlit("6");
        reveal_strlit("7");
        reveal_strlit("8");
        reveal_strlit("9");
    }
    let s: &'static str = if d == 0 {
        "0"
    } else if d == 1 {
        "1"
    } else if d == 2 {
        "2"
    } else if d == 3 {
        "3"
    } else if d == 4 {
        "4"
    } else if d == 5 {
        "5"
    } else if d == 6 {
        "6"
    } else if d == 7 {
        "7"
    } else if d == 8 {
        "8"
    } else {
        "9"
    };
    assert(s@ =~= seq![digit(d as nat)]);
    s
}

/// Appends the decimal of `n` to `text`.
fn append_decimal(text: &mut String, n: usize)
    ensures
        final(text)@ == old(text)@ + decimal(n as nat),
    decreases n,
{
    if n >= 10 {
        append_decimal(text, n / 10);
    }
    text.append(digit_str(n % 10));
    assert(text@ =~= old(text)@ + decimal(n as nat));
}

/// The id of the run with ordinal `n`.
pub fn make_id(n: usize) -> (id: String)
    ensures
        id@ == generated_id(n as nat),
{
    let mut id = String::from_str("run-");
    append_decimal(&mut id, n);
    id
}

/// An id was asked for that a run of the session already has.
#[derive(Clone, Copy, Debug, PartialEq, Eq)]
pub struct DuplicateRunError {}

/// A session as plain values.
pub struct SessionView {
    pub settings: SettingsView,
    pub limits: Limits,
    /// The ids of the session's runs, in the order of their registration.
    pub active: Seq<Seq<char>>,
    /// The ordinal from which the next generated id is sought.
    pub next_ordinal: nat,
    /// The session's dispatcher was handed out.
    pub dispatcher_issued: bool,
    pub events: Seq<EventView>,
    pub event_capacity: nat,
}

/// What holds of every session: its configuration was accepted, no id is
/// registered twice, and every generated id below the next ordinal is taken.
pub open spec fn valid_session(v: SessionView) -> bool {
    &&& acceptable(v.settings)
    &&& limits_acceptable(v.limits)
    &&& v.active.no_duplicates()
    &&& forall|c: nat| c < v.next_ordinal ==> v.active.contains(#[trigger] generated_id(c))
}

/// The seed of the session's streams.
pub open spec fn session_seed(v: SessionView) -> u64 {
    match v.settings.seed {
        Some(s) => s,
        None => DEFAULT_SEED,
    }
}

/// The seed of the sampling stream of the run registered after `k` others:
/// the session's seed moved on by `k`, wrapping.
pub open spec fn run_seed(v: SessionView, k: nat) -> u64 {
    ((session_seed(v) + k) % 0x1_0000_0000_0000_0000) as u64
}

/// `c` is the first ordinal, from the session's next one on, whose generated
/// id no run has.
pub open spec fn first_free(v: SessionView, c: nat) -> bool {
    &&& v.next_ordinal <= c
    &&& !v.active.contains(generated_id(c))
    &&& forall|b: nat| v.next_ordinal <= b < c ==> v.active.contains(#[trigger] generated_id(b))
}

/// The event that announces a run.
pub open spec fn created_event(v: SessionView, id: Seq<char>) -> EventView {
    EventView::RunCreated {
        id,
        url: match v.settings.base_url {
            Some(base) => Some(run_url(base, id)),
            None => None,
        },
    }
}

/// The session after it registered a run under `id`, having sought a
/// generated id up to the ordinal `next_ordinal`.
pub open spec fn registered(v: SessionView, id: Seq<char>, next_ordinal: nat) -> SessionView {
    SessionView {
        active: v.active.push(id),
        next_ordinal,
        events: offer(v.events, v.event_capacity, created_event(v, id)),
        ..v
    }
}

/// `run` is what the session hands out for a run registered under `id`:
/// created, empty, bounded by the session's limits, and sampling at the
/// session's rate from the seed of its place in the registry.
pub open spec fn fresh_run(v: SessionView, id: Seq<char>, run: RunView) -> bool {
    &&& run == (RunView {
        id,
        state: RunState::Created,
        queue: Seq::<RecordView>::empty(),
        capacity: v.limits.queue_capacity as nat,
        next_sequence: 0,
        in_flight: Seq::<RecordView>::empty(),
        attempts: 0,
        retry_at: 0,
        delivered: 0,
        failed: 0,
        last_acked: None,
        sample_limit: run.sample_limit,
        sample_state: run_seed(v, v.active.len()),
        events: Seq::<EventView>::empty(),
        event_capacity: v.limits.event_capacity as nat,
        enqueue_timeout: v.limits.enqueue_timeout_ms,
        finish_timeout: v.limits.finish_timeout_ms,
    })
    &&& limit_matches(v.settings.sample_rate, run.sample_limit)
}

/// The ids of a list as plain values.
pub open spec fn id_views(s: Seq<String>) -> Seq<Seq<char>> {
    Seq::new(s.len(), |i: int| s[i]@)
}

/// Owner of the configuration and of the registry of runs.
pub struct Session {
    settings: Settings,
    limits: Limits,
    active_runs: Vec<String>,
    next_ordinal: usize,
    dispatcher_issued: bool,
    events: Outbox,
}

impl View for Session {
    type V = SessionView;

    closed spec fn view(&self) -> SessionView {
        SessionView {
            settings: self.settings@,
            limits: self.limits,
            active: id_views(self.active_runs@),
            next_ordinal: self.next_ordinal as nat,
            dispatcher_issued: self.dispatcher_issued,
            events: self.events@,
            event_capacity: self.events.bound(),
        }
    }
}

impl Session {
    /// The session is valid.
    pub closed spec fn wf(&self) -> bool {
        valid_session(self@)
    }

    /// A well-formed session is valid.
    pub proof fn lemma_valid(&self)
        requires
            self.wf(),
        ensures
            valid_session(self@),
    {
    }

    /// A session with the default limits; refused where the settings are
    /// not acceptable.
    pub fn new(settings: Settings) -> (outcome: Result<Session, ConfigError>)
        ensures
            match outcome {
                Ok(session) => acceptable(settings@) && session.wf() && session@ == (SessionView {
                    settings: settings@,
                    limits: crate::limits::default_limits(),
                    active: Seq::empty(),
                    next_ordinal: 0,
                    dispatcher_issued: false,
                    events: Seq::empty(),
                    event_capacity: crate::limits::default_limits().event_capacity as nat,
                }),
                Err(e) => !acceptable(settings@) && e == ConfigError::SampleRateOutOfRange,
            },
    {
        Session::with_limits(settings, Limits::default())
    }

    /// A session with the given limits. The settings are checked first,
    /// then the limits.
    pub fn with_limits(settings: Settings, limits: Limits) -> (outcome: Result<
        Session,
        ConfigError,
    >)
        ensures
            match outcome {
                Ok(session) => acceptable(settings@) && limits_acceptable(limits) && session.wf()
                    && session@ == (SessionView {
                    settings: settings@,
                    limits,
                    active: Seq::empty(),
                    next_ordinal: 0,
                    dispatcher_issued: false,
                    events: Seq::empty(),
                    event_capacity: limits.event_capacity as nat,
                }),
                Err(e) => e == (if !acceptable(settings@) {
                    ConfigError::SampleRateOutOfRange
                } else {
                    ConfigError::InvalidLimits
                }) && !(acceptable(settings@) && limits_acceptable(limits)),
            },
    {
        match settings.validate() {
            Err(e) => {
                return Err(e);
            },
            Ok(_) => {},
        }
        match limits.validate() {
            Err(e) => {
                return Err(e);
            },
            Ok(_) => {},
        }
        let session = Session {
            settings,
            limits,
            active_runs: Vec::new(),
            next_ordinal: 0,
            dispatcher_issued: false,
            events: Outbox::new(limits.event_capacity),
        };
        assert(session@.active =~= Seq::<Seq<char>>::empty());
        Ok(session)
    }

    /// Whether a run of the session has the id.
    pub fn is_active(&self, id: &String) -> (found: bool)
        ensures
            found == self@.active.contains(id@),
    {
        let mut i: usize = 0;
        while i < self.active_runs.len()
            invariant
                i <= self.active_runs@.len(),
                forall|j: int| 0 <= j < i ==> self@.active[j] != id@,
            decreases self.active_runs@.len() - i,
        {
            if self.active_runs[i] == *id {
                assert(self@.active[i as int] == id@);
                return true;
            }
            i += 1;
        }
        false
    }

    /// Registers a run and returns it in state `Created`.
    ///
    /// With an id, the run gets that id, and the call is refused if a run of
    /// the session already has it. Without one, the run gets the first
    /// generated id that no run has, and the call succeeds. A refused call
    /// leaves the session as it was.
    pub fn init_run(&mut self, run_id: Option<String>) -> (outcome: Result<Run, DuplicateRunError>)
        requires
            old(self).wf(),
        ensures
            final(self).wf(),
            outcome is Err <==> (run_id is Some && old(self)@.active.contains(run_id->0@)),
            match outcome {
                Ok(run) => {
                    &&& run.wf()
                    &&& match run_id {
                        Some(id) => run@.id == id@ && final(self)@.next_ordinal == old(
                            self,
                        )@.next_ordinal,
                        None => final(self)@.next_ordinal >= 1 && first_free(
                            old(self)@,
                            (final(self)@.next_ordinal - 1) as nat,
                        ) && run@.id == generated_id((final(self)@.next_ordinal - 1) as nat),
                    }
                    &&& final(self)@ == registered(
                        old(self)@,
                        run@.id,
                        final(self)@.next_ordinal,
                    )
                    &&& fresh_run(old(self)@, run@.id, run@)
                },
                Err(_) => final(self)@ == old(self)@,
            },
    {
        let ghost before = self@;
        let generated: bool = run_id.is_none();
        let mut ordinal: usize = self.next_ordinal;
        let id: String = match run_id {
            Some(id) => {
                if self.is_active(&id) {
                    return Err(DuplicateRunError {  });
                }
                id
            },
            None => {
                let mut candidate: String = make_id(ordinal);
                while self.is_active(&candidate)
                    invariant
                        self@ == before,
                        before.next_ordinal <= ordinal,
                        candidate@ == generated_id(ordinal as nat),
                        forall|c: nat|
                            c < ordinal ==> before.active.contains(#[trigger] generated_id(c)),
                    decreases before.active.len() - ordinal,
                {
                    proof {
                        lemma_ordinals_fit(before.active, (ordinal + 1) as nat);
                        assert(before.active.len() == self.active_runs.len());
                    }
                    ordinal = ordinal + 1;
                    candidate = make_id(ordinal);
                }
                candidate
            },
        };
        proof {
            lemma_ordinals_fit(before.active, ordinal as nat);
            assert(before.active.len() == self.active_runs@.len());
        }
        let seed: u64 = match self.settings.seed() {
            Some(s) => s,
            None => DEFAULT_SEED,
        };
        let sampler = Sampler::new(
            self.settings.sample_rate(),
            Some(seed.wrapping_add(self.active_runs.len() as u64)),
        );
        let url: Option<String> = match self.settings.base_url() {
            Some(base) => {
                let mut url: String = base.clone();
                url.append("/runs/");
                url.append(id.as_str());
                Some(url)
            },
            None => None,
        };
        let run = Run::open(id.clone(), sampler, &self.limits);
        let _ = self.events.emit(Event::RunCreated { id: id.clone(), url });
        self.active_runs.push(id);
        assert(self.active_runs.len() == before.active.len() + 1);
        if generated {
            self.next_ordinal = ordinal + 1;
        }
        proof {
            assert(self@.active =~= before.active.push(id@));
            assert forall|c: nat| c < self@.next_ordinal implies self@.active.contains(
                #[trigger] generated_id(c),
            ) by {
                if before.active.contains(generated_id(c)) {
                    let i = choose|i: int|
                        0 <= i < before.active.len() && before.active[i] == generated_id(c);
                    assert(self@.active[i] == generated_id(c));
                } else {
                    assert(self@.active[before.active.len() as int] == id@);
                }
            }
            assert(self@.active.no_duplicates()) by {
                assert forall|i: int, j: int|
                    0 <= i < self@.active.len() && 0 <= j < self@.active.len() && i
                        != j implies self@.active[i] != self@.active[j] by {
                    if i < before.active.len() && j < before.active.len() {
                        assert(before.active[i] != before.active[j]);
                    } else if i < before.active.len() {
                        assert(before.active.contains(before.active[i]));
                    } else if j < before.active.len() {
                        assert(before.active.contains(before.active[j]));
                    }
                }
            }
        }
        Ok(run)
    }

    /// Hands out the session's dispatcher: once, and never again.
    pub fn dispatcher(&mut self) -> (dispatcher: Option<Dispatcher>)
        requires
            old(self).wf(),
        ensures
            final(self).wf(),
            final(self)@ == (SessionView { dispatcher_issued: true, ..old(self)@ }),
            match dispatcher {
                Some(d) => !old(self)@.dispatcher_issued && d@ == (DispatcherView {
                    batch_size: old(self)@.limits.batch_size,
                    max_retries: old(self)@.limits.max_retries,
                    base_delay: old(self)@.limits.base_delay_ms,
                    max_delay: old(self)@.limits.max_delay_ms,
                    jitter_state: session_seed(old(self)@),
                    cursor: 0,
                    events: Seq::empty(),
                    event_capacity: old(self)@.limits.event_capacity as nat,
                }),
                None => old(self)@.dispatcher_issued,
            },
    {
        if self.dispatcher_issued {
            return None;
        }
        self.dispatcher_issued = true;
        let seed: u64 = match self.settings.seed() {
            Some(s) => s,
            None => DEFAULT_SEED,
        };
        Some(Dispatcher::new(&self.limits, seed))
    }

    /// The configuration.
    pub fn settings(&self) -> (settings: &Settings)
        ensures
            settings@ == self@.settings,
    {
        &self.settings
    }

    /// The limits.
    pub fn limits(&self) -> (limits: Limits)
        ensures
            limits == self@.limits,
    {
        self.limits
    }

    /// The ids of the session's runs, in the order of their registration.
    pub fn active_runs(&self) -> (ids: &Vec<String>)
        ensures
            id_views(ids@) == self@.active,
    {
        &self.active_runs
    }

    /// Hands over the session's waiting events, oldest first.
    pub fn take_events(&mut self) -> (events: Vec<Event>)
        requires
            old(self).wf(),
        ensures
            final(self).wf(),
            event_views(events@) == old(self)@.events,
            final(self)@ == (SessionView { events: Seq::empty(), ..old(self)@ }),
    {
        self.events.take()
    }
}

} // verus!
