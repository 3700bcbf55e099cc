//! Metric readings and the records that carry them.
//!
//! A numeric value travels as the bit pattern of an IEEE-754 binary64 number:
//! the pipeline moves values and never computes with them.

use vstd::prelude::*;

verus! {

/// One named reading.
pub struct Metric {
    pub name: String,
    /// Bit pattern of the binary64 value.
    pub value: u64,
}

/// The mapping that a list of readings stands for: each name to its value,
/// a later reading of a name replacing an earlier one.
pub open spec fn entries_map(s: Seq<Metric>) -> Map<Seq<char>, u64>
    decreases s.len(),
{
    if s.len() == 0 {
        Map::empty()
    } else {
        entries_map(s.drop_last()).insert(s.last().name@, s.last().value)
    }
}

/// No name occurs twice in the list.
pub open spec fn distinct_names(s: Seq<Metric>) -> bool {
    forall|i: int, j: int| 0 <= i < j < s.len() ==> s[i].name@ != s[j].name@
}

/// A name is in the mapping exactly when some reading in the list has it.
pub proof fn lemma_entries_map_dom(s: Seq<Metric>)
    ensures
        entries_map(s).dom().finite(),
        forall|k: Seq<char>|
            entries_map(s).contains_key(k) <==> exists|i: int|
                0 <= i < s.len() && #[trigger] s[i].name@ == k,
    decreases s.len(),
{
    if s.len() > 0 {
        let p = s.drop_last();
        lemma_entries_map_dom(p);
        assert forall|k: Seq<char>|
            entries_map(s).contains_key(k) <==> exists|i: int|
                0 <= i < s.len() && #[trigger] s[i].name@ == k by {
            if entries_map(s).contains_key(k) {
                if k == s.last().name@ {
                    assert(s[s.len() - 1].name@ == k);
                } else {
                    assert(entries_map(p).contains_key(k));
                    let i = choose|i: int| 0 <= i < p.len() && #[trigger] p[i].name@ == k;
                    assert(s[i].name@ == k);
                }
            }
            if exists|i: int| 0 <= i < s.len() && #[trigger] s[i].name@ == k {
                let i = choose|i: int| 0 <= i < s.len() && #[trigger] s[i].name@ == k;
                if i < s.len() - 1 {
                    assert(p[i].name@ == k);
                    assert(entries_map(p).contains_key(k));
                }
            }
        }
    }
}

/// Under distinct names every reading in the list is the mapping's entry for
/// its name, and the mapping has as many entries as the list.
pub proof fn lemma_entries_map_distinct(s: Seq<Metric>)
    requires
        distinct_names(s),
    ensures
        forall|i: int| 0 <= i < s.len() ==> entries_map(s)[#[trigger] s[i].name@] == s[i].value,
        entries_map(s).dom().len() == s.len(),
    decreases s.len(),
{
    if s.len() > 0 {
        let p = s.drop_last();
        assert(distinct_names(p)) by {
            assert forall|i: int, j: int| 0 <= i < j < p.len() implies p[i].name@ != p[j].name@ by {
                assert(s[i].name@ != s[j].name@);
            }
        }
        lemma_entries_map_distinct(p);
        lemma_entries_map_dom(p);
        assert(!entries_map(p).contains_key(s.last().name@)) by {
            if entries_map(p).contains_key(s.last().name@) {
                let i = choose|i: int| 0 <= i < p.len() && #[trigger] p[i].name@ == s.last().name@;
                assert(s[i].name@ != s[s.len() - 1].name@);
            }
        }
        assert forall|i: int| 0 <= i < s.len() implies entries_map(s)[#[trigger] s[i].name@]
            == s[i].value by {
            if i < s.len() - 1 {
                assert(s[i].name@ != s[s.len() - 1].name@);
                assert(p[i].name@ == s[i].name@);
            }
        }
    }
}

/// Replacing the reading that carries a name is an insert into the mapping.
pub proof fn lemma_entries_map_update(s: Seq<Metric>, i: int, m: Metric)
    requires
        distinct_names(s),
        0 <= i < s.len(),
        s[i].name@ == m.name@,
    ensures
        distinct_names(s.update(i, m)),
        entries_map(s.update(i, m)) == entries_map(s).insert(m.name@, m.value),
{
    let t = s.update(i, m);
    assert(distinct_names(t)) by {
        assert forall|a: int, b: int| 0 <= a < b < t.len() implies t[a].name@ != t[b].name@ by {
            assert(s[a].name@ != s[b].name@);
        }
    }
    lemma_entries_map_dom(s);
    lemma_entries_map_dom(t);
    lemma_entries_map_distinct(s);
    lemma_entries_map_distinct(t);
    let lhs = entries_map(t);
    let rhs = entries_map(s).insert(m.name@, m.value);
    assert forall|k: Seq<char>| lhs.contains_key(k) <==> rhs.contains_key(k) by {
        if lhs.contains_key(k) {
            let a = choose|a: int| 0 <= a < t.len() && #[trigger] t[a].name@ == k;
            assert(s[a].name@ == k);
        }
        if rhs.contains_key(k) {
            if k == m.name@ {
                assert(t[i].name@ == k);
            } else {
                let a = choose|a: int| 0 <= a < s.len() && #[trigger] s[a].name@ == k;
                assert(t[a].name@ == k);
            }
        }
    }
    assert forall|k: Seq<char>| lhs.contains_key(k) implies lhs[k] == rhs[k] by {
        let a = choose|a: int| 0 <= a < t.len() && #[trigger] t[a].name@ == k;
        assert(lhs[t[a].name@] == t[a].value);
        if a != i {
            assert(s[a].name@ != s[i].name@);
            assert(entries_map(s)[s[a].name@] == s[a].value);
        }
    }
    assert(lhs =~= rhs);
}

/// A mapping from metric name to value.
pub struct Fields {
    entries: Vec<Metric>,
}

impl View for Fields {
    type V = Map<Seq<char>, u64>;

    closed spec fn view(&self) -> Map<Seq<char>, u64> {
        entries_map(self.entries@)
    }
}

impl Fields {
    /// Each name is held once.
    pub closed spec fn wf(&self) -> bool {
        distinct_names(self.entries@)
    }

    /// A well-formed mapping is finite.
    pub proof fn lemma_finite(&self)
        ensures
            self@.dom().finite(),
    {
        lemma_entries_map_dom(self.entries@);
    }

    /// The empty mapping.
    pub fn new() -> (fields: Fields)
        ensures
            fields.wf(),
            fields@ == Map::<Seq<char>, u64>::empty(),
    {
        Fields { entries: Vec::new() }
    }

    /// Where `name` stands in the list, if it does.
    fn position(&self, name: &String) -> (at: Option<usize>)
        ensures
            match at {
                Some(i) => i < self.entries@.len() && self.entries@[i as int].name@ == name@,
                None => forall|i: int|
                    0 <= i < self.entries@.len() ==> (#[trigger] self.entries@[i]).name@ != name@,
            },
    {
        let mut i: usize = 0;
        while i < self.entries.len()
            invariant
                i <= self.entries@.len(),
                forall|j: int| 0 <= j < i ==> (#[trigger] self.entries@[j]).name@ != name@,
            decreases self.entries@.len() - i,
        {
            if self.entries[i].name == *name {
                return Some(i);
            }
            i += 1;
        }
        None
    }

    /// Sets `name` to `value` and returns the value it had before, if any.
    pub fn insert(&mut self, name: String, value: u64) -> (previous: Option<u64>)
        requires
            old(self).wf(),
        ensures
            final(self).wf(),
            final(self)@ == old(self)@.insert(name@, value),
            previous == (if old(self)@.contains_key(name@) {
                Some(old(self)@[name@])
            } else {
                None
            }),
    {
        proof {
            lemma_entries_map_dom(self.entries@);
            lemma_entries_map_distinct(self.entries@);
        }
        match self.position(&name) {
            Some(i) => {
                let before = self.entries[i].value;
                let m = Metric { name, value };
                proof {
                    lemma_entries_map_update(self.entries@, i as int, m);
                }
                self.entries.set(i, m);
                Some(before)
            },
            None => {
                let ghost prior = self.entries@;
                self.entries.push(Metric { name, value });
                proof {
                    assert(self.entries@.drop_last() =~= prior);
                }
                None
            },
        }
    }

    /// The value of `name`, if it has one.
    pub fn get(&self, name: &String) -> (value: Option<u64>)
        requires
            self.wf(),
        ensures
            value == (if self@.contains_key(name@) {
                Some(self@[name@])
            } else {
                None
            }),
    {
        proof {
            lemma_entries_map_dom(self.entries@);
            lemma_entries_map_distinct(self.entries@);
        }
        match self.position(name) {
            Some(i) => Some(self.entries[i].value),
            None => None,
        }
    }

    /// How many names have a value.
    pub fn len(&self) -> (n: usize)
        requires
            self.wf(),
        ensures
            n == self@.dom().len(),
    {
        proof {
            lemma_entries_map_distinct(self.entries@);
        }
        self.entries.len()
    }

    /// True when no name has a value.
    pub fn is_empty(&self) -> (empty: bool)
        requires
            self.wf(),
        ensures
            empty == (self@ == Map::<Seq<char>, u64>::empty()),
    {
        proof {
            lemma_entries_map_dom(self.entries@);
            lemma_entries_map_distinct(self.entries@);
            if self.entries@.len() > 0 {
                assert(self@.contains_key(self.entries@[0].name@));
            }
        }
        self.entries.len() == 0
    }

    /// The readings, one per name, in the order in which the names were first set.
    pub fn entries(&self) -> (list: &Vec<Metric>)
        requires
            self.wf(),
        ensures
            distinct_names(list@),
            entries_map(list@) == self@,
    {
        &self.entries
    }

    /// An independent copy of the mapping.
    pub fn duplicate(&self) -> (copy: Fields)
        requires
            self.wf(),
        ensures
            copy.wf(),
            copy@ == self@,
    {
        let mut entries: Vec<Metric> = Vec::new();
        let mut i: usize = 0;
        while i < self.entries.len()
            invariant
                i <= self.entries@.len(),
                entries@.len() == i,
                forall|j: int|
                    0 <= j < i ==> (#[trigger] entries@[j]).name@ == self.entries@[j].name@
                        && entries@[j].value == self.entries@[j].value,
            decreases self.entries@.len() - i,
        {
            let m = &self.entries[i];
            entries.push(Metric { name: m.name.clone(), value: m.value });
            i += 1;
        }
        proof {
            lemma_entries_map_same(entries@, self.entries@);
        }
        Fields { entries }
    }
}

/// Lists that agree name by name and value by value stand for one mapping.
pub proof fn lemma_entries_map_same(a: Seq<Metric>, b: Seq<Metric>)
    requires
        a.len() == b.len(),
        forall|j: int|
            0 <= j < a.len() ==> (#[trigger] a[j]).name@ == b[j].name@ && a[j].value == b[j].value,
    ensures
        entries_map(a) == entries_map(b),
        distinct_names(b) ==> distinct_names(a),
    decreases a.len(),
{
    if a.len() > 0 {
        lemma_entries_map_same(a.drop_last(), b.drop_last());
        assert(a.last().name@ == b.last().name@);
    }
    if distinct_names(b) {
        assert forall|i: int, j: int| 0 <= i < j < a.len() implies a[i].name@ != a[j].name@ by {
            assert(b[i].name@ != b[j].name@);
            assert(a[i].name@ == b[i].name@);
            assert(a[j].name@ == b[j].name@);
        }
    }
}

/// What a record says, as plain values.
pub struct RecordView {
    pub run_id: Seq<char>,
    pub sequence: u64,
    pub timestamp: u64,
    pub fields: Map<Seq<char>, u64>,
}

/// One logged set of readings: the run it belongs to, its place in that
/// run's stream, the instant it was logged and the readings themselves.
pub struct MetricRecord {
    run_id: String,
    sequence: u64,
    timestamp: u64,
    fields: Fields,
}

impl View for MetricRecord {
    type V = RecordView;

    closed spec fn view(&self) -> RecordView {
        RecordView {
            run_id: self.run_id@,
            sequence: self.sequence,
            timestamp: self.timestamp,
            fields: self.fields@,
        }
    }
}

impl MetricRecord {
    /// The readings are a well-formed mapping.
    pub closed spec fn wf(&self) -> bool {
        self.fields.wf()
    }

    /// Builds a record from its parts.
    pub fn new(run_id: String, sequence: u64, timestamp: u64, fields: Fields) -> (record:
        MetricRecord)
        requires
            fields.wf(),
        ensures
            record.wf(),
            record@ == (RecordView {
                run_id: run_id@,
                sequence,
                timestamp,
                fields: fields@,
            }),
    {
        MetricRecord { run_id, sequence, timestamp, fields }
    }

    /// The run that logged the record.
    pub fn run_id(&self) -> (id: &String)
        ensures
            id@ == self@.run_id,
    {
        &self.run_id
    }

    /// The record's place in its run's stream, counted from zero.
    pub fn sequence(&self) -> (sequence: u64)
        ensures
            sequence == self@.sequence,
    {
        self.sequence
    }

    /// The instant at which the record was logged.
    pub fn timestamp(&self) -> (timestamp: u64)
        ensures
            timestamp == self@.timestamp,
    {
        self.timestamp
    }

    /// The readings.
    pub fn fields(&self) -> (fields: &Fields)
        requires
            self.wf(),
        ensures
            fields.wf(),
            fields@ == self@.fields,
    {
        &self.fields
    }
}

} // verus!
