//! The metadata store as a deterministic state machine: committed log entries
//! go in, in the order of their indices, and every replica that applies the
//! same entries holds the same records.

use vstd::prelude::*;
use vstd::string::StringExecFns;
use crate::errors::{MetaError, MetaResult};

verus! {

/// One stored key with its value and the log index that last wrote it.
#[derive(Debug, Clone, PartialEq, Eq)]
pub struct Record {
    pub key: String,
    /// The version of the record: the index of the entry that wrote it.
    pub seq: u64,
    pub value: Vec<u8>,
}

/// What a write expects of the record it touches.
#[derive(Debug, Clone, Copy, PartialEq, Eq)]
pub enum Condition {
    /// Nothing: the write always goes through.
    Any,
    /// That the key is not stored.
    Absent,
    /// That the key is stored at exactly this version.
    Version(u64),
}

/// One committed log entry: store `value` under `key`, or remove `key` where
/// `value` is `None`, provided `condition` holds.
#[derive(Debug, Clone, PartialEq, Eq)]
pub struct Entry {
    pub key: String,
    pub condition: Condition,
    pub value: Option<Vec<u8>>,
}

/// What applying one entry did. A conflict is an outcome, not a failure: the
/// entry was applied and left the records as they were.
#[derive(Debug, Clone, Copy, PartialEq, Eq)]
pub enum ApplyOutcome {
    /// The value is stored at `version`.
    Stored { version: u64 },
    /// The key is not stored any more; `existed` says whether it was.
    Removed { existed: bool },
    /// The key was expected to be absent and is stored at `version`.
    AlreadyExists { version: u64 },
    /// The key was expected at another version than `current`.
    VersionMismatch { current: Option<u64> },
}

/// A complete copy of the records as of `last_applied`.
#[derive(Debug, Clone, PartialEq, Eq)]
pub struct Snapshot {
    pub last_applied: u64,
    pub records: Vec<Record>,
}

/// The answer to a read that asks for a log index to be applied first.
#[derive(Debug, Clone, Copy, PartialEq, Eq)]
pub enum ReadOutcome<'a> {
    /// The index is applied: the record, if the key is stored.
    Ready(Option<&'a Record>),
    /// The index is not applied yet: the reader has to wait.
    Wait,
}

/// An entry as a mathematical value.
pub struct EntryModel {
    pub key: Seq<char>,
    pub condition: Condition,
    pub value: Option<Seq<u8>>,
}

/// The state of the machine as a mathematical value: the index of the last
/// entry applied, and for each stored key its version and value.
pub struct StateModel {
    pub last_applied: u64,
    pub data: Map<Seq<char>, (u64, Seq<u8>)>,
}

impl View for Entry {
    type V = EntryModel;

    open spec fn view(&self) -> EntryModel {
        EntryModel {
            key: self.key@,
            condition: self.condition,
            value: match self.value {
                Some(v) => Some(v@),
                None => None,
            },
        }
    }
}

/// The entries of a log as mathematical values.
pub open spec fn entry_models(entries: Seq<Entry>) -> Seq<EntryModel> {
    Seq::new(entries.len(), |i: int| entries[i]@)
}

impl StateModel {
    /// The state before any entry is applied.
    pub open spec fn empty() -> StateModel {
        StateModel { last_applied: 0, data: Map::empty() }
    }

    /// The version at which `key` is stored, if it is.
    pub open spec fn version_of(&self, key: Seq<char>) -> Option<u64> {
        if self.data.contains_key(key) {
            Some(self.data[key].0)
        } else {
            None
        }
    }

    /// Whether `condition` holds of `key` in this state.
    pub open spec fn admits(&self, key: Seq<char>, condition: Condition) -> bool {
        match condition {
            Condition::Any => true,
            Condition::Absent => self.version_of(key) is None,
            Condition::Version(v) => self.version_of(key) == Some(v),
        }
    }

    /// The state after `entry` is applied at `index`: where the condition
    /// holds the key is written at version `index`, or removed; where it does
    /// not, the records stay.
    pub open spec fn step(&self, index: u64, entry: EntryModel) -> StateModel {
        StateModel {
            last_applied: index,
            data: if !self.admits(entry.key, entry.condition) {
                self.data
            } else {
                match entry.value {
                    Some(v) => self.data.insert(entry.key, (index, v)),
                    None => self.data.remove(entry.key),
                }
            },
        }
    }

    /// What applying `entry` at `index` reports.
    pub open spec fn outcome(&self, index: u64, entry: EntryModel) -> ApplyOutcome {
        let current = self.version_of(entry.key);
        if !self.admits(entry.key, entry.condition) {
            match (entry.condition, current) {
                (Condition::Absent, Some(version)) => ApplyOutcome::AlreadyExists { version },
                _ => ApplyOutcome::VersionMismatch { current },
            }
        } else {
            match entry.value {
                Some(_) => ApplyOutcome::Stored { version: index },
                None => ApplyOutcome::Removed { existed: current is Some },
            }
        }
    }

    /// The state after `entries` are applied in order, the first of them at
    /// index `first` and each next one at the next index.
    pub open spec fn replay(&self, first: u64, entries: Seq<EntryModel>) -> StateModel
        decreases entries.len(),
    {
        if entries.len() == 0 {
            *self
        } else {
            self.replay(first, entries.drop_last()).step(
                (first + entries.len() - 1) as u64,
                entries.last(),
            )
        }
    }
}

/// Whether some record of `records` has the key `key`.
pub open spec fn has_key(records: Seq<Record>, key: Seq<char>) -> bool {
    exists|i: int| 0 <= i < records.len() && (#[trigger] records[i]).key@ == key
}

/// The place of a record with the key `key`.
pub open spec fn index_of(records: Seq<Record>, key: Seq<char>) -> int {
    choose|i: int| 0 <= i < records.len() && (#[trigger] records[i]).key@ == key
}

/// Whether no key occurs twice in `records`.
pub open spec fn unique_keys(records: Seq<Record>) -> bool {
    forall|i: int, j: int|
        0 <= i < records.len() && 0 <= j < records.len() && (#[trigger] records[i]).key@ == (
        #[trigger] records[j]).key@ ==> i == j
}

/// Whether no record of `records` is newer than `last_applied`.
pub open spec fn versions_within(records: Seq<Record>, last_applied: u64) -> bool {
    forall|i: int| 0 <= i < records.len() ==> (#[trigger] records[i]).seq <= last_applied
}

/// The records as a map from key to version and value.
pub open spec fn records_map(records: Seq<Record>) -> Map<Seq<char>, (u64, Seq<u8>)> {
    Map::new(
        |key: Seq<char>| has_key(records, key),
        |key: Seq<char>|
            (records[index_of(records, key)].seq, records[index_of(records, key)].value@),
    )
}

proof fn lemma_index_of(records: Seq<Record>, i: int)
    requires
        unique_keys(records),
        0 <= i < records.len(),
    ensures
        has_key(records, records[i].key@),
        index_of(records, records[i].key@) == i,
{
    let key = records[i].key@;
    assert(0 <= i < records.len() && records[i].key@ == key);
    let j = index_of(records, key);
    assert(0 <= j < records.len() && records[j].key@ == key);
}

proof fn lemma_records_map_at(records: Seq<Record>, i: int)
    requires
        unique_keys(records),
        0 <= i < records.len(),
    ensures
        records_map(records).contains_key(records[i].key@),
        records_map(records)[records[i].key@] == (records[i].seq, records[i].value@),
{
    lemma_index_of(records, i);
}

proof fn lemma_push(records: Seq<Record>, record: Record)
    requires
        unique_keys(records),
        !has_key(records, record.key@),
    ensures
        unique_keys(records.push(record)),
        records_map(records.push(record)) == records_map(records).insert(
            record.key@,
            (record.seq, record.value@),
        ),
{
    let after = records.push(record);
    let n = records.len() as int;
    let key = record.key@;
    let goal = records_map(records).insert(key, (record.seq, record.value@));
    assert forall|i: int, j: int|
        0 <= i < after.len() && 0 <= j < after.len() && (#[trigger] after[i]).key@ == (
        #[trigger] after[j]).key@ implies i == j by {
        if i < n && j < n {
            assert(records[i].key@ == records[j].key@);
        } else if i < n {
            assert(records[i].key@ == key);
        } else if j < n {
            assert(records[j].key@ == key);
        }
    }
    assert forall|k: Seq<char>| records_map(after).contains_key(k) == goal.contains_key(k) by {
        if has_key(after, k) {
            let a = index_of(after, k);
            if a < n {
                assert(records[a].key@ == k);
            }
        }
        if has_key(records, k) {
            let b = index_of(records, k);
            assert(after[b].key@ == k);
        }
        if k == key {
            assert(after[n].key@ == k);
        }
    }
    assert forall|k: Seq<char>| records_map(after).contains_key(k) implies records_map(after)[k]
        == goal[k] by {
        let a = index_of(after, k);
        if a < n {
            assert(records[a].key@ == k);
            lemma_records_map_at(records, a);
        }
    }
    assert(records_map(after) =~= goal);
}

proof fn lemma_update(records: Seq<Record>, i: int, record: Record)
    requires
        unique_keys(records),
        0 <= i < records.len(),
        records[i].key@ == record.key@,
    ensures
        unique_keys(records.update(i, record)),
        records_map(records.update(i, record)) == records_map(records).insert(
            record.key@,
            (record.seq, record.value@),
        ),
{
    let after = records.update(i, record);
    let key = record.key@;
    let goal = records_map(records).insert(key, (record.seq, record.value@));
    assert forall|a: int| 0 <= a < after.len() implies (#[trigger] after[a]).key@
        == records[a].key@ by {}
    assert forall|a: int, b: int|
        0 <= a < after.len() && 0 <= b < after.len() && (#[trigger] after[a]).key@ == (
        #[trigger] after[b]).key@ implies a == b by {
        assert(records[a].key@ == records[b].key@);
    }
    assert forall|k: Seq<char>| records_map(after).contains_key(k) == goal.contains_key(k) by {
        if has_key(after, k) {
            let a = index_of(after, k);
            assert(records[a].key@ == k);
        }
        if has_key(records, k) {
            let b = index_of(records, k);
            assert(after[b].key@ == k);
        }
        if k == key {
            assert(after[i].key@ == k);
        }
    }
    assert forall|k: Seq<char>| records_map(after).contains_key(k) implies records_map(after)[k]
        == goal[k] by {
        let a = index_of(after, k);
        assert(records[a].key@ == k);
        if a != i {
            assert(records[i].key@ == key);
            lemma_records_map_at(records, a);
        }
    }
    assert(records_map(after) =~= goal);
}

proof fn lemma_remove(records: Seq<Record>, i: int)
    requires
        unique_keys(records),
        0 <= i < records.len(),
    ensures
        unique_keys(records.remove(i)),
        records_map(records.remove(i)) == records_map(records).remove(records[i].key@),
{
    let after = records.remove(i);
    let key = records[i].key@;
    let goal = records_map(records).remove(key);
    assert forall|a: int| 0 <= a < after.len() implies #[trigger] after[a] == records[if a < i {
        a
    } else {
        a + 1
    }] by {}
    assert forall|a: int, b: int|
        0 <= a < after.len() && 0 <= b < after.len() && (#[trigger] after[a]).key@ == (
        #[trigger] after[b]).key@ implies a == b by {
        let a0 = if a < i { a } else { a + 1 };
        let b0 = if b < i { b } else { b + 1 };
        assert(records[a0].key@ == records[b0].key@);
    }
    assert forall|k: Seq<char>| records_map(after).contains_key(k) == goal.contains_key(k) by {
        if has_key(after, k) {
            let a = index_of(after, k);
            let a0 = if a < i { a } else { a + 1 };
            assert(records[a0].key@ == k);
            assert(records[i].key@ == key);
        }
        if k != key && has_key(records, k) {
            let b = index_of(records, k);
            let b0 = if b < i { b } else { b - 1 };
            assert(after[b0].key@ == k);
        }
    }
    assert forall|k: Seq<char>| records_map(after).contains_key(k) implies records_map(after)[k]
        == goal[k] by {
        let a = index_of(after, k);
        let a0 = if a < i { a } else { a + 1 };
        lemma_index_of(after, a);
        assert(records[a0].key@ == k);
        lemma_records_map_at(records, a0);
    }
    assert(records_map(after) =~= goal);
}

fn copy_bytes(bytes: &Vec<u8>) -> (r: Vec<u8>)
    ensures
        r@ == bytes@,
{
    let r = bytes.clone();
    assert(r@ =~= bytes@);
    r
}

fn copy_record(record: &Record) -> (r: Record)
    ensures
        r.key@ == record.key@,
        r.seq == record.seq,
        r.value@ == record.value@,
{
    Record { key: record.key.clone(), seq: record.seq, value: copy_bytes(&record.value) }
}

impl Snapshot {
    /// Whether the snapshot is one that a machine can have produced: no key
    /// twice, and no record newer than the index it was taken at.
    pub open spec fn intact(&self) -> bool {
        unique_keys(self.records@) && versions_within(self.records@, self.last_applied)
    }

    /// The state that the snapshot holds.
    pub open spec fn model(&self) -> StateModel {
        StateModel { last_applied: self.last_applied, data: records_map(self.records@) }
    }
}

/// What is said of a snapshot that no machine can have produced.
pub open spec fn damaged_snapshot_text() -> Seq<char> {
    "snapshot is damaged: a key twice, or a record newer than its index"@
}

/// The metadata store of one replica.
pub struct StateMachine {
    last_applied: u64,
    records: Vec<Record>,
}

impl View for StateMachine {
    type V = StateModel;

    closed spec fn view(&self) -> StateModel {
        StateModel { last_applied: self.last_applied, data: records_map(self.records@) }
    }
}

impl StateMachine {
    /// The invariant of the store: no key twice, no record newer than the
    /// last entry applied.
    #[verifier::type_invariant]
    spec fn wf(self) -> bool {
        unique_keys(self.records@) && versions_within(self.records@, self.last_applied)
    }

    /// A store to which nothing has been applied.
    pub fn new() -> (r: Self)
        ensures
            r@ == StateModel::empty(),
    {
        let r = StateMachine { last_applied: 0, records: Vec::new() };
        assert(r@.data =~= Map::empty());
        r
    }

    /// The index of the last entry applied, 0 before the first.
    pub fn last_applied(&self) -> (r: u64)
        ensures
            r == self@.last_applied,
    {
        self.last_applied
    }

    fn find(&self, key: &str) -> (r: Option<usize>)
        ensures
            match r {
                Some(i) => i < self.records@.len() && self.records@[i as int].key@ == key@,
                None => !has_key(self.records@, key@),
            },
    {
        let wanted = String::from_str(key);
        let mut i: usize = 0;
        while i < self.records.len()
            invariant
                wanted@ == key@,
                i <= self.records@.len(),
                forall|j: int| 0 <= j < i ==> (#[trigger] self.records@[j]).key@ != key@,
            decreases self.records@.len() - i,
        {
            if self.records[i].key == wanted {
                return Some(i);
            }
            i = i + 1;
        }
        None
    }

    /// The record stored under `key`, as of the last entry applied.
    pub fn get(&self, key: &str) -> (r: Option<&Record>)
        ensures
            match r {
                Some(record) => self@.data.contains_key(key@) && record.key@ == key@
                    && self@.data[key@] == (record.seq, record.value@),
                None => !self@.data.contains_key(key@),
            },
    {
        match self.find(key) {
            Some(i) => {
                proof {
                    use_type_invariant(self);
                    lemma_records_map_at(self.records@, i as int);
                }
                Some(&self.records[i])
            },
            None => None,
        }
    }

    /// A read that must observe the entry at `after`: the record under `key`
    /// once that entry is applied, and the word to wait until then.
    pub fn read(&self, key: &str, after: u64) -> (r: ReadOutcome<'_>)
        ensures
            match r {
                ReadOutcome::Wait => self@.last_applied < after,
                ReadOutcome::Ready(Some(record)) => self@.last_applied >= after
                    && self@.data.contains_key(key@) && record.key@ == key@ && self@.data[key@]
                    == (record.seq, record.value@),
                ReadOutcome::Ready(None) => self@.last_applied >= after
                    && !self@.data.contains_key(key@),
            },
    {
        if self.last_applied < after {
            ReadOutcome::Wait
        } else {
            ReadOutcome::Ready(self.get(key))
        }
    }

    /// Applies the committed entry at `log_index`, which is the next one in
    /// the order of the log.
    pub fn apply(&mut self, log_index: u64, entry: &Entry) -> (r: MetaResult<ApplyOutcome>)
        requires
            log_index > old(self)@.last_applied,
        ensures
            final(self)@ == old(self)@.step(log_index, entry@),
            r == Ok::<ApplyOutcome, MetaError>(old(self)@.outcome(log_index, entry@)),
    {
        proof {
            use_type_invariant(&*self);
        }
        let found = self.find(entry.key.as_str());
        let current: Option<u64> = match found {
            Some(i) => {
                proof {
                    lemma_records_map_at(self.records@, i as int);
                }
                Some(self.records[i].seq)
            },
            None => None,
        };
        assert(current == old(self)@.version_of(entry@.key));
        self.last_applied = log_index;
        let admitted = match entry.condition {
            Condition::Any => true,
            Condition::Absent => current.is_none(),
            Condition::Version(v) => match current {
                Some(c) => c == v,
                None => false,
            },
        };
        if !admitted {
            return Ok(
                match (entry.condition, current) {
                    (Condition::Absent, Some(version)) => ApplyOutcome::AlreadyExists { version },
                    _ => ApplyOutcome::VersionMismatch { current },
                },
            );
        }
        let mut records: Vec<Record> = Vec::new();
        std::mem::swap(&mut records, &mut self.records);
        match &entry.value {
            Some(value) => {
                let record = Record {
                    key: entry.key.clone(),
                    seq: log_index,
                    value: copy_bytes(value),
                };
                match found {
                    Some(i) => {
                        proof {
                            lemma_update(records@, i as int, record);
                        }
                        records.set(i, record);
                    },
                    None => {
                        proof {
                            lemma_push(records@, record);
                        }
                        records.push(record);
                    },
                }
                self.records = records;
                Ok(ApplyOutcome::Stored { version: log_index })
            },
            None => {
                match found {
                    Some(i) => {
                        proof {
                            lemma_remove(records@, i as int);
                        }
                        records.remove(i);
                    },
                    None => {
                        assert(records_map(records@) =~= old(self)@.data.remove(entry@.key));
                    },
                }
                self.records = records;
                Ok(ApplyOutcome::Removed { existed: found.is_some() })
            },
        }
    }

    /// Applies `entries` in order, the first of them at index `first` and
    /// each next one at the next index, and reports what each did.
    pub fn replay(&mut self, first: u64, entries: &Vec<Entry>) -> (r: Vec<ApplyOutcome>)
        requires
            first > old(self)@.last_applied,
            first + entries@.len() <= u64::MAX,
        ensures
            final(self)@ == old(self)@.replay(first, entry_models(entries@)),
            r@.len() == entries@.len(),
            forall|i: int|
                0 <= i < entries@.len() ==> #[trigger] r@[i] == old(self)@.replay(
                    first,
                    entry_models(entries@).take(i),
                ).outcome((first + i) as u64, entries@[i]@),
    {
        let mut outcomes: Vec<ApplyOutcome> = Vec::new();
        let mut i: usize = 0;
        let ghost models = entry_models(entries@);
        proof {
            assert(models.take(0) =~= Seq::empty());
        }
        while i < entries.len()
            invariant
                i <= entries@.len(),
                first + entries@.len() <= u64::MAX,
                first > old(self)@.last_applied,
                models == entry_models(entries@),
                self@ == old(self)@.replay(first, models.take(i as int)),
                i == 0 ==> self@ == old(self)@,
                i > 0 ==> self@.last_applied == first + i - 1,
                outcomes@.len() == i,
                forall|j: int|
                    0 <= j < i ==> #[trigger] outcomes@[j] == old(self)@.replay(
                        first,
                        models.take(j),
                    ).outcome((first + j) as u64, entries@[j]@),
            decreases entries@.len() - i,
        {
            let index: u64 = first + i as u64;
            let ghost before = self@;
            let applied = self.apply(index, &entries[i]);
            proof {
                let next = models.take(i as int + 1);
                assert(next.drop_last() =~= models.take(i as int));
                assert(next.last() == entries@[i as int]@);
            }
            match applied {
                Ok(outcome) => {
                    outcomes.push(outcome);
                },
                Err(_) => {},
            }
            i = i + 1;
        }
        proof {
            assert(models.take(entries@.len() as int) =~= models);
        }
        outcomes
    }

    /// A complete copy of the store as of the last entry applied.
    pub fn snapshot(&self) -> (r: Snapshot)
        ensures
            r.intact(),
            r.model() == self@,
    {
        let mut records: Vec<Record> = Vec::new();
        let mut i: usize = 0;
        while i < self.records.len()
            invariant
                i <= self.records@.len(),
                records@.len() == i,
                forall|j: int|
                    0 <= j < i ==> (#[trigger] records@[j]).key@ == self.records@[j].key@
                        && records@[j].seq == self.records@[j].seq && records@[j].value@
                        == self.records@[j].value@,
            decreases self.records@.len() - i,
        {
            records.push(copy_record(&self.records[i]));
            i = i + 1;
        }
        proof {
            use_type_invariant(self);
            lemma_same_records(self.records@, records@);
            assert forall|j: int| 0 <= j < records@.len() implies (#[trigger] records@[j]).seq
                <= self.last_applied by {
                assert(self.records@[j].seq <= self.last_applied);
            }
        }
        Snapshot { last_applied: self.last_applied, records }
    }

    /// The store that `snapshot` holds. A snapshot that no machine can have
    /// produced is reported as damage and never repaired.
    pub fn restore(snapshot: Snapshot) -> (r: MetaResult<StateMachine>)
        ensures
            match r {
                Ok(machine) => snapshot.intact() && machine@ == snapshot.model(),
                Err(e) => !snapshot.intact() && e is MetaStoreDamaged && e->MetaStoreDamaged_0@
                    == damaged_snapshot_text(),
            },
    {
        let mut i: usize = 0;
        while i < snapshot.records.len()
            invariant
                i <= snapshot.records@.len(),
                forall|a: int| 0 <= a < i ==> (#[trigger] snapshot.records@[a]).seq
                    <= snapshot.last_applied,
                forall|a: int, b: int|
                    0 <= a < i && 0 <= b < a ==> (#[trigger] snapshot.records@[a]).key@ != (
                    #[trigger] snapshot.records@[b]).key@,
            decreases snapshot.records@.len() - i,
        {
            if snapshot.records[i].seq > snapshot.last_applied {
                return Err(
                    MetaError::MetaStoreDamaged(
                        String::from_str("snapshot is damaged: a key twice, or a record newer than its index"),
                    ),
                );
            }
            let mut j: usize = 0;
            while j < i
                invariant
                    j <= i,
                    i < snapshot.records@.len(),
                    forall|b: int| 0 <= b < j ==> (#[trigger] snapshot.records@[b]).key@
                        != snapshot.records@[i as int].key@,
                decreases i - j,
            {
                if snapshot.records[j].key == snapshot.records[i].key {
                    proof {
                        assert(snapshot.records@[j as int].key@
                            == snapshot.records@[i as int].key@);
                    }
                    return Err(
                        MetaError::MetaStoreDamaged(
                            String::from_str("snapshot is damaged: a key twice, or a record newer than its index"),
                        ),
                    );
                }
                j = j + 1;
            }
            i = i + 1;
        }
        proof {
            assert forall|a: int, b: int|
                0 <= a < snapshot.records@.len() && 0 <= b < snapshot.records@.len() && (
                #[trigger] snapshot.records@[a]).key@ == (#[trigger] snapshot.records@[b]).key@
                implies a == b by {
                if b < a {
                    assert(snapshot.records@[a].key@ != snapshot.records@[b].key@);
                } else if a < b {
                    assert(snapshot.records@[b].key@ != snapshot.records@[a].key@);
                }
            }
        }
        Ok(StateMachine { last_applied: snapshot.last_applied, records: snapshot.records })
    }
}

/// Two lists that hold the same keys, versions and values place by place
/// stand for the same map, and the one has no key twice if the other has none.
proof fn lemma_same_records(left: Seq<Record>, right: Seq<Record>)
    requires
        unique_keys(left),
        left.len() == right.len(),
        forall|j: int|
            0 <= j < left.len() ==> (#[trigger] right[j]).key@ == left[j].key@ && right[j].seq
                == left[j].seq && right[j].value@ == left[j].value@,
    ensures
        unique_keys(right),
        records_map(right) == records_map(left),
{
    assert forall|a: int, b: int|
        0 <= a < right.len() && 0 <= b < right.len() && (#[trigger] right[a]).key@ == (
        #[trigger] right[b]).key@ implies a == b by {
        assert(left[a].key@ == left[b].key@);
    }
    assert forall|k: Seq<char>| records_map(right).contains_key(k) == records_map(
        left,
    ).contains_key(k) by {
        if has_key(right, k) {
            let a = index_of(right, k);
            assert(left[a].key@ == k);
        }
        if has_key(left, k) {
            let a = index_of(left, k);
            assert(right[a].key@ == k);
        }
    }
    assert forall|k: Seq<char>| records_map(right).contains_key(k) implies records_map(right)[k]
        == records_map(left)[k] by {
        let a = index_of(right, k);
        assert(left[a].key@ == k);
        lemma_records_map_at(left, a);
    }
    assert(records_map(right) =~= records_map(left));
}

/// Determinism: two replicas in the same state that apply the same entries at
/// the same indices end in the same state and report the same outcomes.
pub proof fn lemma_replay_deterministic(
    one: StateModel,
    other: StateModel,
    first: u64,
    entries: Seq<EntryModel>,
)
    requires
        one == other,
    ensures
        one.replay(first, entries) == other.replay(first, entries),
        forall|index: u64, entry: EntryModel|
            one.replay(first, entries).outcome(index, entry) == other.replay(
                first,
                entries,
            ).outcome(index, entry),
{
}

/// Replaying a log in two parts gives what replaying it in one go gives.
pub proof fn lemma_replay_split(
    state: StateModel,
    first: u64,
    entries: Seq<EntryModel>,
    taken: int,
)
    requires
        0 <= taken <= entries.len(),
        first + entries.len() <= u64::MAX,
    ensures
        state.replay(first, entries.take(taken)).replay(
            (first + taken) as u64,
            entries.skip(taken),
        ) == state.replay(first, entries),
    decreases entries.len(),
{
    if taken == entries.len() {
        assert(entries.take(taken) =~= entries);
        assert(entries.skip(taken) =~= Seq::empty());
    } else {
        let shorter = entries.drop_last();
        lemma_replay_split(state, first, shorter, taken);
        assert(shorter.take(taken) =~= entries.take(taken));
        assert(entries.skip(taken).drop_last() =~= shorter.skip(taken));
        assert(entries.skip(taken).last() == entries.last());
    }
}

/// Snapshot and replay: a state restored from a snapshot taken after the
/// first `taken` entries, with the later entries replayed on it, is the
/// state that applying all the entries gives.
pub proof fn lemma_snapshot_replay(
    state: StateModel,
    first: u64,
    entries: Seq<EntryModel>,
    taken: int,
    snapshot: Snapshot,
)
    requires
        0 <= taken <= entries.len(),
        first + entries.len() <= u64::MAX,
        snapshot.model() == state.replay(first, entries.take(taken)),
    ensures
        snapshot.model().replay((first + taken) as u64, entries.skip(taken)) == state.replay(
            first,
            entries,
        ),
{
    lemma_replay_split(state, first, entries, taken);
}

/// A write that was applied is there for every read that waits for its
/// index, whether or not anybody waited for the write's own answer.
pub proof fn lemma_applied_write_visible(state: StateModel, index: u64, entry: EntryModel)
    requires
        state.admits(entry.key, entry.condition),
        entry.value is Some,
    ensures
        state.step(index, entry).last_applied == index,
        state.step(index, entry).data.contains_key(entry.key),
        state.step(index, entry).data[entry.key] == (index, entry.value->Some_0),
{
}

/// What is stored under a key stays as it is while the entries that follow
/// are about other keys.
pub proof fn lemma_untouched_key_stays(
    state: StateModel,
    first: u64,
    entries: Seq<EntryModel>,
    key: Seq<char>,
)
    requires
        forall|i: int| 0 <= i < entries.len() ==> (#[trigger] entries[i]).key != key,
    ensures
        state.replay(first, entries).data.contains_key(key) == state.data.contains_key(key),
        state.data.contains_key(key) ==> state.replay(first, entries).data[key] == state.data[key],
    decreases entries.len(),
{
    if entries.len() > 0 {
        let shorter = entries.drop_last();
        assert forall|i: int| 0 <= i < shorter.len() implies (#[trigger] shorter[i]).key
            != key by {
            assert(shorter[i] == entries[i]);
        }
        lemma_untouched_key_stays(state, first, shorter, key);
        assert(entries.last() == entries[entries.len() - 1]);
    }
}

} // verus!
