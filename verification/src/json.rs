//! The structured report: every dispatched entry's outcome keyed by its
//! path, beside a count of the entries that could not be read at all.
use vstd::prelude::*;

use vstd::map::*;
use crate::errors::{OsError, ProcessError};
use crate::run::RunOutcome;

verus! {

/// How the aggregated results leave the run: streaming text, or one JSON
/// value, compact or pretty-printed.
#[derive(Clone, Copy, PartialEq, Eq, Structural)]
pub enum Mode {
    Json,
    JsonPretty,
    Standard,
}

/// The reported outcome of one dispatched entry.
pub enum ProcessedEntry {
    /// The invocation was classified as a failure.
    Failure(ProcessedError),
    /// The process ran to completion; its captured output, decoded
    /// lossily to text. A non-zero exit status still lands here.
    Success { stdout: String, stderr: String },
}

/// The reported failure classifications, with what each one carries.
pub enum ProcessedError {
    /// The process could not be spawned.
    Spawn { process: String, code: Option<i32>, description: String },
    /// The process ran, but its output could not be collected.
    Output { process: String, code: Option<i32>, description: String },
    /// The process did not complete within the configured limit.
    Timeout { process: String, duration: String },
}

/// The mathematical shape of a reported failure.
pub enum ProcessedErrorV {
    Spawn { process: Seq<char>, code: Option<i32>, description: Seq<char> },
    Output { process: Seq<char>, code: Option<i32>, description: Seq<char> },
    Timeout { process: Seq<char>, duration: Seq<char> },
}

/// The mathematical shape of one reported outcome.
pub enum ProcessedEntryV {
    Failure(ProcessedErrorV),
    Success { stdout: Seq<char>, stderr: Seq<char> },
}

impl View for ProcessedError {
    type V = ProcessedErrorV;

    open spec fn view(&self) -> ProcessedErrorV {
        match *self {
            ProcessedError::Spawn { process, code, description } => ProcessedErrorV::Spawn {
                process: process@,
                code,
                description: description@,
            },
            ProcessedError::Output { process, code, description } => ProcessedErrorV::Output {
                process: process@,
                code,
                description: description@,
            },
            ProcessedError::Timeout { process, duration } => ProcessedErrorV::Timeout {
                process: process@,
                duration: duration@,
            },
        }
    }
}

impl View for ProcessedEntry {
    type V = ProcessedEntryV;

    open spec fn view(&self) -> ProcessedEntryV {
        match *self {
            ProcessedEntry::Failure(e) => ProcessedEntryV::Failure(e@),
            ProcessedEntry::Success { stdout, stderr } => ProcessedEntryV::Success {
                stdout: stdout@,
                stderr: stderr@,
            },
        }
    }
}

/// The mathematical shape of the whole report: the count of entries that
/// could not be read, and the path-keyed mapping of reported outcomes.
pub struct ReportV {
    pub unknown: nat,
    pub entries: Map<Seq<char>, ProcessedEntryV>,
}

/// The text that a byte sequence is reported as.
/// Relies on String::from_utf8_lossy, whose result depends on the bytes
/// alone.
pub uninterp spec fn lossy_text(bytes: Seq<u8>) -> Seq<char>;

/// Decodes captured output bytes to text, replacing what is not valid
/// UTF-8. Relies on String::from_utf8_lossy: a pure decoding of the bytes,
/// named by `lossy_text`.
#[verifier::external_body]
fn lossy_string(bytes: &Vec<u8>) -> (r: String)
    ensures
        r@ == lossy_text(bytes@),
{
    String::from_utf8_lossy(bytes.as_slice()).into_owned()
}

/// What one outcome contributes to the report: nothing but a bump of the
/// unreadable count, or one keyed entry, its key the entry's path.
pub open spec fn report_update(item: RunOutcome) -> Option<(Seq<char>, ProcessedEntryV)> {
    match item {
        Result::Ok((entry, output)) => Option::Some(
            (
                entry@,
                ProcessedEntryV::Success {
                    stdout: lossy_text(output.stdout@),
                    stderr: lossy_text(output.stderr@),
                },
            ),
        ),
        Result::Err(ProcessError::ModifiedEntry) => Option::None,
        Result::Err(ProcessError::ProcessSpawn { process, entry, origin }) => Option::Some(
            (
                entry@,
                ProcessedEntryV::Failure(
                    ProcessedErrorV::Spawn {
                        process: process@,
                        code: origin.code,
                        description: origin.description@,
                    },
                ),
            ),
        ),
        Result::Err(ProcessError::ProcessOutput { process, entry, origin }) => Option::Some(
            (
                entry@,
                ProcessedEntryV::Failure(
                    ProcessedErrorV::Output {
                        process: process@,
                        code: origin.code,
                        description: origin.description@,
                    },
                ),
            ),
        ),
        Result::Err(ProcessError::Timeout { process, entry, duration }) => Option::Some(
            (
                entry@,
                ProcessedEntryV::Failure(
                    ProcessedErrorV::Timeout { process: process@, duration: duration@ },
                ),
            ),
        ),
    }
}

/// The report after one more outcome: an unreadable entry is counted, any
/// other outcome lands in the mapping under its path, the last write
/// winning on a path collision.
pub open spec fn apply_item(r: ReportV, item: RunOutcome) -> ReportV {
    match report_update(item) {
        Option::None => ReportV { unknown: r.unknown + 1, entries: r.entries },
        Option::Some((key, value)) => ReportV {
            unknown: r.unknown,
            entries: r.entries.insert(key, value),
        },
    }
}

/// The report after a whole sequence of outcomes, applied in order.
pub open spec fn apply_items(r: ReportV, items: Seq<RunOutcome>) -> ReportV
    decreases items.len(),
{
    if items.len() == 0 {
        r
    } else {
        apply_item(apply_items(r, items.drop_last()), items.last())
    }
}

/// How many of the outcomes count as unreadable entries.
pub open spec fn count_modified(items: Seq<RunOutcome>) -> nat
    decreases items.len(),
{
    if items.len() == 0 {
        0
    } else {
        count_modified(items.drop_last()) + if report_update(items.last()) is None {
            1nat
        } else {
            0nat
        }
    }
}

/// The mapping that a sequence of keyed entries stands for, read front to
/// back, the last write winning.
pub open spec fn map_of(s: Seq<(String, ProcessedEntry)>) -> Map<Seq<char>, ProcessedEntryV>
    decreases s.len(),
{
    if s.len() == 0 {
        Map::empty()
    } else {
        map_of(s.drop_last()).insert(s.last().0@, s.last().1@)
    }
}

/// No two entries of the sequence share a key.
pub open spec fn distinct_keys(s: Seq<(String, ProcessedEntry)>) -> bool {
    forall|i: int, j: int| 0 <= i < j < s.len() ==> (#[trigger] s[i]).0@ != (#[trigger] s[j]).0@
}

/// The aggregated report: a count of the entries that could not be read,
/// and one reported outcome per dispatched entry, keyed by path.
pub struct ProcessedEntries {
    unknown: usize,
    processed: Vec<(String, ProcessedEntry)>,
}

impl View for ProcessedEntries {
    type V = ReportV;

    closed spec fn view(&self) -> ReportV {
        ReportV { unknown: self.unknown as nat, entries: map_of(self.processed@) }
    }
}

/// A key's presence in the mapping is its presence among the entries.
proof fn lemma_map_of_contains(s: Seq<(String, ProcessedEntry)>, k: Seq<char>)
    ensures
        map_of(s).contains_key(k) <==> (exists|i: int|
            0 <= i < s.len() && (#[trigger] s[i]).0@ == k),
    decreases s.len(),
{
    if s.len() > 0 {
        lemma_map_of_contains(s.drop_last(), k);
        if s.last().0@ == k {
            assert(s[s.len() - 1].0@ == k);
        } else {
            if exists|i: int| 0 <= i < s.drop_last().len() && (#[trigger] s.drop_last()[i]).0@
                == k {
                let i = choose|i: int|
                    0 <= i < s.drop_last().len() && (#[trigger] s.drop_last()[i]).0@ == k;
                assert(s[i].0@ == k);
            }
            if exists|i: int| 0 <= i < s.len() && (#[trigger] s[i]).0@ == k {
                let i = choose|i: int| 0 <= i < s.len() && (#[trigger] s[i]).0@ == k;
                assert(i < s.len() - 1);
                assert(s.drop_last()[i].0@ == k);
            }
        }
    }
}

/// With distinct keys, each entry is found in the mapping under its key.
proof fn lemma_map_of_lookup(s: Seq<(String, ProcessedEntry)>, i: int)
    requires
        distinct_keys(s),
        0 <= i < s.len(),
    ensures
        map_of(s).contains_key(s[i].0@),
        map_of(s)[s[i].0@] == s[i].1@,
    decreases s.len(),
{
    if i == s.len() - 1 {
    } else {
        assert(distinct_keys(s.drop_last()));
        assert(s.drop_last()[i] == s[i]);
        lemma_map_of_lookup(s.drop_last(), i);
        assert(s[i].0@ != s.last().0@);
    }
}

/// Replacing the one entry that holds a key rewrites the mapping at that
/// key alone.
proof fn lemma_map_of_update(s: Seq<(String, ProcessedEntry)>, i: int, pair: (String, ProcessedEntry))
    requires
        distinct_keys(s),
        0 <= i < s.len(),
        pair.0@ == s[i].0@,
    ensures
        map_of(s.update(i, pair)) == map_of(s).insert(pair.0@, pair.1@),
    decreases s.len(),
{
    let t = s.update(i, pair);
    if i == s.len() - 1 {
        assert(t.drop_last() =~= s.drop_last());
        assert(t.last() == pair);
        assert(map_of(s.drop_last()).insert(s.last().0@, s.last().1@).insert(pair.0@, pair.1@)
            =~= map_of(s.drop_last()).insert(pair.0@, pair.1@));
    } else {
        assert(distinct_keys(s.drop_last()));
        assert(s.drop_last()[i] == s[i]);
        lemma_map_of_update(s.drop_last(), i, pair);
        assert(t.drop_last() =~= s.drop_last().update(i, pair));
        assert(t.last() == s.last());
        assert(s[i].0@ != s.last().0@);
        assert(map_of(s.drop_last()).insert(pair.0@, pair.1@).insert(s.last().0@, s.last().1@)
            =~= map_of(s.drop_last()).insert(s.last().0@, s.last().1@).insert(pair.0@, pair.1@));
    }
}

/// Appending an entry under a fresh key adds exactly that entry.
proof fn lemma_map_of_push(s: Seq<(String, ProcessedEntry)>, pair: (String, ProcessedEntry))
    ensures
        map_of(s.push(pair)) == map_of(s).insert(pair.0@, pair.1@),
{
    assert(s.push(pair).drop_last() =~= s);
    assert(s.push(pair).last() == pair);
}

/// With distinct keys, the mapping has exactly one key per entry.
proof fn lemma_map_of_dom_len(s: Seq<(String, ProcessedEntry)>)
    requires
        distinct_keys(s),
    ensures
        map_of(s).dom().finite(),
        map_of(s).dom().len() == s.len(),
    decreases s.len(),
{
    if s.len() > 0 {
        assert(distinct_keys(s.drop_last()));
        lemma_map_of_dom_len(s.drop_last());
        lemma_map_of_contains(s.drop_last(), s.last().0@);
        assert(forall|i: int|
            0 <= i < s.drop_last().len() ==> (#[trigger] s.drop_last()[i]).0@ != s.last().0@);
        assert(!map_of(s.drop_last()).contains_key(s.last().0@));
        assert(map_of(s).dom() =~= map_of(s.drop_last()).dom().insert(s.last().0@));
    }
}

impl Default for ProcessedEntries {
    /// The empty report.
    fn default() -> (r: ProcessedEntries)
        ensures
            r@ == (ReportV { unknown: 0, entries: Map::empty() }),
    {
        ProcessedEntries::new()
    }
}

/// Finds the one position that holds a key, when one does.
fn find_key(entries: &Vec<(String, ProcessedEntry)>, key: &String) -> (r: Option<usize>)
    ensures
        match r {
            Option::Some(i) => i < entries@.len() && entries@[i as int].0@ == key@,
            Option::None => forall|j: int|
                0 <= j < entries@.len() ==> (#[trigger] entries@[j]).0@ != key@,
        },
{
    let n = entries.len();
    let mut i: usize = 0;
    while i < n
        invariant
            n == entries@.len(),
            i <= n,
            forall|j: int| 0 <= j < i ==> (#[trigger] entries@[j]).0@ != key@,
        decreases n - i,
    {
        if entries[i].0 == *key {
            return Some(i);
        }
        i += 1;
    }
    None
}

impl ProcessedEntries {
    /// No two reported entries share a key.
    #[verifier::type_invariant]
    spec fn wf(self) -> bool {
        distinct_keys(self.processed@)
    }

    /// An empty report: nothing unreadable, nothing reported.
    pub fn new() -> (r: ProcessedEntries)
        ensures
            r@ == (ReportV { unknown: 0, entries: Map::empty() }),
    {
        ProcessedEntries { unknown: 0, processed: Vec::new() }
    }

    /// Stores one reported outcome under its key, the last write winning.
    fn insert_pair(&mut self, key: String, value: ProcessedEntry)
        ensures
            final(self)@ == (ReportV {
                unknown: old(self)@.unknown,
                entries: old(self)@.entries.insert(key@, value@),
            }),
    {
        proof {
            use_type_invariant(&*self);
        }
        let mut entries: Vec<(String, ProcessedEntry)> = Vec::new();
        core::mem::swap(&mut entries, &mut self.processed);
        match find_key(&entries, &key) {
            Option::Some(i) => {
                proof {
                    lemma_map_of_update(entries@, i as int, (key, value));
                    assert forall|x: int, y: int|
                        0 <= x < y < entries@.update(i as int, (key, value)).len() implies (
                    #[trigger] entries@.update(i as int, (key, value))[x]).0@ != (
                    #[trigger] entries@.update(i as int, (key, value))[y]).0@ by {
                        assert(entries@[x].0@ != entries@[y].0@);
                    }
                }
                entries[i] = (key, value);
            },
            Option::None => {
                proof {
                    lemma_map_of_push(entries@, (key, value));
                    assert forall|x: int, y: int|
                        0 <= x < y < entries@.push((key, value)).len() implies (
                    #[trigger] entries@.push((key, value))[x]).0@ != (
                    #[trigger] entries@.push((key, value))[y]).0@ by {
                        if y < entries@.len() {
                            assert(entries@[x].0@ != entries@[y].0@);
                        }
                    }
                }
                entries.push((key, value));
            },
        }
        self.processed = entries;
    }

    /// Merges one outcome into the report: an unreadable entry bumps the
    /// count, every other outcome lands under its path, the last write
    /// winning on a collision.
    pub fn insert(&mut self, processed: RunOutcome)
        requires
            (processed matches Err(e) && e is ModifiedEntry) ==> old(self)@.unknown
                < usize::MAX,
        ensures
            final(self)@ == apply_item(old(self)@, processed),
    {
        match processed {
            Result::Ok((entry, output)) => {
                let stdout = lossy_string(&output.stdout);
                let stderr = lossy_string(&output.stderr);
                self.insert_pair(entry, ProcessedEntry::Success { stdout, stderr });
            },
            Result::Err(ProcessError::ModifiedEntry) => {
                proof {
                    use_type_invariant(&*self);
                }
                self.unknown = self.unknown + 1;
            },
            Result::Err(ProcessError::ProcessSpawn { process, entry, origin }) => {
                let OsError { code, description } = origin;
                self.insert_pair(
                    entry,
                    ProcessedEntry::Failure(ProcessedError::Spawn { process, code, description }),
                );
            },
            Result::Err(ProcessError::ProcessOutput { process, entry, origin }) => {
                let OsError { code, description } = origin;
                self.insert_pair(
                    entry,
                    ProcessedEntry::Failure(ProcessedError::Output { process, code, description }),
                );
            },
            Result::Err(ProcessError::Timeout { process, entry, duration }) => {
                self.insert_pair(
                    entry,
                    ProcessedEntry::Failure(ProcessedError::Timeout { process, duration }),
                );
            },
        }
    }

    /// How many entries could not be read at all.
    pub fn unknown_count(&self) -> (r: usize)
        ensures
            r == self@.unknown,
    {
        self.unknown
    }

    /// How many entries the report holds outcomes for.
    pub fn entry_count(&self) -> (r: usize)
        ensures
            self@.entries.dom().finite(),
            r == self@.entries.dom().len(),
    {
        proof {
            use_type_invariant(&*self);
            lemma_map_of_dom_len(self.processed@);
        }
        self.processed.len()
    }

    /// Looks one entry's reported outcome up by its path.
    pub fn get(&self, key: &String) -> (r: Option<&ProcessedEntry>)
        ensures
            match r {
                Option::Some(v) => self@.entries.contains_key(key@) && v@ == self@.entries[key@],
                Option::None => !self@.entries.contains_key(key@),
            },
    {
        proof {
            use_type_invariant(&*self);
        }
        let n = self.processed.len();
        let mut i: usize = 0;
        while i < n
            invariant
                n == self.processed@.len(),
                i <= n,
                distinct_keys(self.processed@),
                forall|j: int| 0 <= j < i ==> (#[trigger] self.processed@[j]).0@ != key@,
            decreases n - i,
        {
            if self.processed[i].0 == *key {
                proof {
                    lemma_map_of_lookup(self.processed@, i as int);
                }
                return Some(&self.processed[i].1);
            }
            i += 1;
        }
        proof {
            lemma_map_of_contains(self.processed@, key@);
        }
        None
    }

    /// The reported entries themselves, each key carried once.
    pub fn items(&self) -> (r: &Vec<(String, ProcessedEntry)>)
        ensures
            distinct_keys(r@),
            map_of(r@) == self@.entries,
    {
        proof {
            use_type_invariant(&*self);
        }
        &self.processed
    }

    /// Merges a whole sequence of outcomes, in order.
    pub fn extend(&mut self, items: Vec<RunOutcome>)
        requires
            old(self)@.unknown + count_modified(items@) <= usize::MAX,
        ensures
            final(self)@ == apply_items(old(self)@, items@),
    {
        let ghost all = items@;
        let ghost start = self@;
        let mut remaining = items;
        let total = remaining.len();
        let mut i: usize = 0;
        while remaining.len() > 0
            invariant
                all.len() == total,
                i + remaining@.len() == all.len(),
                remaining@ == all.skip(i as int),
                self@ == apply_items(start, all.take(i as int)),
                start.unknown + count_modified(all) <= usize::MAX,
            decreases remaining@.len(),
        {
            proof {
                assert(remaining@[0] == all[i as int]);
                lemma_apply_items_unknown(start, all.take(i as int));
                assert(all.take(i as int + 1).drop_last() =~= all.take(i as int));
                assert(all.take(i as int + 1).last() == all[i as int]);
                lemma_count_modified_monotone(all, i as int + 1);
            }
            let item = remaining.remove(0);
            self.insert(item);
            proof {
                assert(remaining@ =~= all.skip(i as int + 1));
            }
            i += 1;
        }
        proof {
            assert(all.take(i as int) =~= all);
        }
    }
}

/// The unreadable count grows by exactly the unreadable outcomes.
proof fn lemma_apply_items_unknown(r: ReportV, items: Seq<RunOutcome>)
    ensures
        apply_items(r, items).unknown == r.unknown + count_modified(items),
    decreases items.len(),
{
    if items.len() > 0 {
        lemma_apply_items_unknown(r, items.drop_last());
    }
}

/// Whether an outcome lands in the mapping at all.
pub open spec fn keyed(item: RunOutcome) -> bool {
    report_update(item) is Some
}

/// The key a keyed outcome lands under: its entry's path.
pub open spec fn outcome_key(item: RunOutcome) -> Seq<char> {
    report_update(item)->Some_0.0
}

/// The entry a keyed outcome lands as.
pub open spec fn outcome_value(item: RunOutcome) -> ProcessedEntryV {
    report_update(item)->Some_0.1
}

/// No two outcomes of the sequence land under the same key.
pub open spec fn distinct_outcome_keys(items: Seq<RunOutcome>) -> bool {
    forall|i: int, j: int|
        0 <= i < j < items.len() && keyed(#[trigger] items[i]) && keyed(#[trigger] items[j])
            ==> outcome_key(items[i]) != outcome_key(items[j])
}

/// With distinct keys, each keyed outcome is found in the aggregated
/// mapping, under its key, as its entry.
proof fn lemma_apply_items_at(r: ReportV, items: Seq<RunOutcome>, i: int)
    requires
        distinct_outcome_keys(items),
        0 <= i < items.len(),
        keyed(items[i]),
    ensures
        apply_items(r, items).entries.contains_key(outcome_key(items[i])),
        apply_items(r, items).entries[outcome_key(items[i])] == outcome_value(items[i]),
    decreases items.len(),
{
    if i == items.len() - 1 {
    } else {
        assert(distinct_outcome_keys(items.drop_last())) by {
            assert(forall|x: int|
                0 <= x < items.len() - 1 ==> items.drop_last()[x] == (#[trigger] items[x]));
        }
        assert(items.drop_last()[i] == items[i]);
        lemma_apply_items_at(r, items.drop_last(), i);
        if keyed(items.last()) {
            assert(outcome_key(items[items.len() - 1]) != outcome_key(items[i]));
        }
    }
}

/// A key that no outcome of the sequence lands under is left exactly as
/// the starting report had it.
proof fn lemma_apply_items_other(r: ReportV, items: Seq<RunOutcome>, k: Seq<char>)
    requires
        forall|i: int|
            0 <= i < items.len() && keyed(#[trigger] items[i]) ==> outcome_key(items[i]) != k,
    ensures
        apply_items(r, items).entries.contains_key(k) == r.entries.contains_key(k),
        r.entries.contains_key(k) ==> apply_items(r, items).entries[k] == r.entries[k],
    decreases items.len(),
{
    if items.len() > 0 {
        assert(forall|x: int|
            0 <= x < items.len() - 1 ==> items.drop_last()[x] == (#[trigger] items[x]));
        lemma_apply_items_other(r, items.drop_last(), k);
        assert(items[items.len() - 1] == items.last());
    }
}

/// The unreadable outcomes are the copies of one value, so their count is
/// that value's multiplicity.
proof fn lemma_count_modified_multiset(items: Seq<RunOutcome>)
    ensures
        count_modified(items) == items.to_multiset().count(
            Result::Err(ProcessError::ModifiedEntry),
        ),
    decreases items.len(),
{
    broadcast use vstd::seq_lib::group_to_multiset_ensures;

    if items.len() > 0 {
        lemma_count_modified_multiset(items.drop_last());
        assert(items.drop_last().push(items.last()) =~= items);
        assert(items.to_multiset() =~= items.drop_last().to_multiset().insert(items.last()));
        assert(report_update(items.last()) is None <==> items.last() == Result::<
            (String, crate::run::CommandOutput),
            ProcessError,
        >::Err(ProcessError::ModifiedEntry));
    }
}

/// At any one key, aggregation gives both orderings of the same outcomes
/// the same answer.
proof fn lemma_same_at_key(start: ReportV, a: Seq<RunOutcome>, b: Seq<RunOutcome>, k: Seq<char>)
    requires
        a.to_multiset() == b.to_multiset(),
        distinct_outcome_keys(a),
        distinct_outcome_keys(b),
    ensures
        apply_items(start, a).entries.contains_key(k) == apply_items(
            start,
            b,
        ).entries.contains_key(k),
        apply_items(start, a).entries.contains_key(k) ==> apply_items(start, a).entries[k]
            == apply_items(start, b).entries[k],
{
    broadcast use vstd::seq_lib::group_to_multiset_ensures;

    if exists|i: int| 0 <= i < a.len() && keyed(#[trigger] a[i]) && outcome_key(a[i]) == k {
        let i = choose|i: int|
            0 <= i < a.len() && keyed(#[trigger] a[i]) && outcome_key(a[i]) == k;
        assert(a.contains(a[i]));
        assert(b.to_multiset().count(a[i]) > 0);
        assert(b.contains(a[i]));
        let j = choose|j: int| 0 <= j < b.len() && b[j] == a[i];
        lemma_apply_items_at(start, a, i);
        lemma_apply_items_at(start, b, j);
    } else {
        assert forall|j: int|
            0 <= j < b.len() && keyed(#[trigger] b[j]) implies outcome_key(b[j]) != k by {
            assert(b.contains(b[j]));
            assert(a.to_multiset().count(b[j]) > 0);
            assert(a.contains(b[j]));
            let i = choose|i: int| 0 <= i < a.len() && a[i] == b[j];
            assert(keyed(a[i]));
        }
        lemma_apply_items_other(start, a, k);
        lemma_apply_items_other(start, b, k);
    }
}

/// Aggregation does not depend on completion order: two runs that produce
/// the same outcomes, in whatever order, each outcome landing under its
/// own key, aggregate to the same report. Identical directory contents
/// under an idempotent command are such a pair of runs, so their
/// structured reports are identical.
pub proof fn lemma_report_order_independent(
    start: ReportV,
    a: Seq<RunOutcome>,
    b: Seq<RunOutcome>,
)
    requires
        a.to_multiset() == b.to_multiset(),
        distinct_outcome_keys(a),
        distinct_outcome_keys(b),
    ensures
        apply_items(start, a) == apply_items(start, b),
{
    lemma_count_modified_multiset(a);
    lemma_count_modified_multiset(b);
    lemma_apply_items_unknown(start, a);
    lemma_apply_items_unknown(start, b);
    assert_maps_equal!(apply_items(start, a).entries, apply_items(start, b).entries, k => {
        lemma_same_at_key(start, a, b, k);
    });
}

/// A prefix never counts more unreadable outcomes than the whole.
proof fn lemma_count_modified_monotone(items: Seq<RunOutcome>, i: int)
    requires
        0 <= i <= items.len(),
    ensures
        count_modified(items.take(i)) <= count_modified(items),
    decreases items.len() - i,
{
    if i < items.len() {
        lemma_count_modified_monotone(items, i + 1);
        assert(items.take(i + 1).drop_last() =~= items.take(i));
    } else {
        assert(items.take(i) =~= items);
    }
}

} // verus!
