//! The event store: records keyed by topic and identifier, appended at most
//! once per key and never changed afterwards.

use crate::digest::{bytes_equal, sha256, sha256_digest};
use vstd::prelude::*;

verus! {

/// A record as it is stored.
#[derive(Debug, Clone, PartialEq, Eq)]
pub struct StoredEvent {
    pub id: u128,
    pub topic: String,
    pub encoded_payload: Vec<u8>,
    pub payload_hash: Vec<u8>,
    pub created_at: i64,
}

/// Mathematical value of a [`StoredEvent`].
pub struct StoredEventView {
    pub id: u128,
    pub topic: Seq<char>,
    pub encoded_payload: Seq<u8>,
    pub payload_hash: Seq<u8>,
    pub created_at: i64,
}

impl View for StoredEvent {
    type V = StoredEventView;

    open spec fn view(&self) -> StoredEventView {
        StoredEventView {
            id: self.id,
            topic: self.topic@,
            encoded_payload: self.encoded_payload@,
            payload_hash: self.payload_hash@,
            created_at: self.created_at,
        }
    }
}

/// The stored digest is the digest of exactly the bytes stored.
pub open spec fn intact(record: StoredEventView) -> bool {
    record.payload_hash == sha256(record.encoded_payload)
}

/// Every row is intact.
pub open spec fn all_intact(rows: Seq<StoredEventView>) -> bool {
    forall|i: int| 0 <= i < rows.len() ==> intact(#[trigger] rows[i])
}

impl StoredEvent {
    /// Whether the stored digest is the digest of the stored bytes.
    pub fn is_intact(&self) -> (ok: bool)
        ensures
            ok == intact(self@),
    {
        let actual = sha256_digest(self.encoded_payload.as_slice());
        bytes_equal(actual.as_slice(), self.payload_hash.as_slice())
    }
}

/// What an append did.
#[derive(Debug, Clone, Copy, PartialEq, Eq, Structural)]
pub enum Outcome {
    /// A new record was written.
    Inserted,
    /// A record with the same key was there already; nothing was written.
    AlreadyPresent,
}

/// The rows of a store, by their views.
pub open spec fn rows_view(rows: Seq<StoredEvent>) -> Seq<StoredEventView> {
    Seq::new(rows.len(), |i: int| rows[i]@)
}

/// The row has the key `(topic, id)`.
pub open spec fn has_key_at(rows: Seq<StoredEventView>, i: int, topic: Seq<char>, id: u128) -> bool {
    0 <= i < rows.len() && rows[i].topic == topic && rows[i].id == id
}

/// Some row has the key `(topic, id)`.
pub open spec fn has_key(rows: Seq<StoredEventView>, topic: Seq<char>, id: u128) -> bool {
    exists|i: int| has_key_at(rows, i, topic, id)
}

/// No two rows share a key.
pub open spec fn keys_unique(rows: Seq<StoredEventView>) -> bool {
    forall|i: int, j: int|
        0 <= i < j < rows.len() ==> !(rows[i].topic == rows[j].topic && rows[i].id == rows[j].id)
}

/// How many rows have the key `(topic, id)`.
pub open spec fn count_key(rows: Seq<StoredEventView>, topic: Seq<char>, id: u128) -> nat
    decreases rows.len(),
{
    if rows.len() == 0 {
        0
    } else {
        count_key(rows.drop_last(), topic, id) + if rows.last().topic == topic && rows.last().id
            == id {
            1nat
        } else {
            0nat
        }
    }
}

/// How many rows have the topic.
pub open spec fn count_topic(rows: Seq<StoredEventView>, topic: Seq<char>) -> nat
    decreases rows.len(),
{
    if rows.len() == 0 {
        0
    } else {
        count_topic(rows.drop_last(), topic) + if rows.last().topic == topic {
            1nat
        } else {
            0nat
        }
    }
}

/// The rows after an append of `record`.
pub open spec fn rows_after(rows: Seq<StoredEventView>, record: StoredEventView) -> Seq<
    StoredEventView,
> {
    if has_key(rows, record.topic, record.id) {
        rows
    } else {
        rows.push(record)
    }
}

/// What an append of `record` reports.
pub open spec fn outcome_of(rows: Seq<StoredEventView>, record: StoredEventView) -> Outcome {
    if has_key(rows, record.topic, record.id) {
        Outcome::AlreadyPresent
    } else {
        Outcome::Inserted
    }
}

/// The rows after appending each of `records` in turn.
pub open spec fn rows_after_all(rows: Seq<StoredEventView>, records: Seq<StoredEventView>) -> Seq<
    StoredEventView,
>
    decreases records.len(),
{
    if records.len() == 0 {
        rows
    } else {
        rows_after(rows_after_all(rows, records.drop_last()), records.last())
    }
}

/// What the append of `records[i]` reports when `records` are appended in
/// turn.
pub open spec fn outcome_at(rows: Seq<StoredEventView>, records: Seq<StoredEventView>, i: int) -> Outcome {
    outcome_of(rows_after_all(rows, records.take(i)), records[i])
}

/// How many of the appends of `records`, made in turn, report `Inserted` for
/// a record with the key `(topic, id)`.
pub open spec fn inserted_under(
    rows: Seq<StoredEventView>,
    records: Seq<StoredEventView>,
    topic: Seq<char>,
    id: u128,
) -> nat
    decreases records.len(),
{
    if records.len() == 0 {
        0
    } else {
        let last = records.last();
        inserted_under(rows, records.drop_last(), topic, id) + if last.topic == topic && last.id
            == id && outcome_of(rows_after_all(rows, records.drop_last()), last)
            == Outcome::Inserted {
            1nat
        } else {
            0nat
        }
    }
}

/// Rows without the key count none for it.
pub proof fn lemma_absent_counts_zero(rows: Seq<StoredEventView>, topic: Seq<char>, id: u128)
    requires
        !has_key(rows, topic, id),
    ensures
        count_key(rows, topic, id) == 0,
    decreases rows.len(),
{
    if rows.len() > 0 {
        assert(!has_key_at(rows, rows.len() - 1, topic, id));
        assert forall|i: int| !has_key_at(rows.drop_last(), i, topic, id) by {
            assert(!has_key_at(rows, i, topic, id));
        }
        lemma_absent_counts_zero(rows.drop_last(), topic, id);
    }
}

/// An append keeps the keys unique and every earlier row in its place.
pub proof fn lemma_append_keeps_unique(rows: Seq<StoredEventView>, record: StoredEventView)
    requires
        keys_unique(rows),
    ensures
        keys_unique(rows_after(rows, record)),
        rows.is_prefix_of(rows_after(rows, record)),
{
    if !has_key(rows, record.topic, record.id) {
        let after = rows.push(record);
        assert forall|i: int, j: int| 0 <= i < j < after.len() implies !(after[i].topic
            == after[j].topic && after[i].id == after[j].id) by {
            if j == rows.len() {
                assert(!has_key_at(rows, i, record.topic, record.id));
            }
        }
    }
}

/// An append of an intact record to intact rows leaves intact rows.
pub proof fn lemma_append_keeps_intact(rows: Seq<StoredEventView>, record: StoredEventView)
    requires
        all_intact(rows),
        intact(record),
    ensures
        all_intact(rows_after(rows, record)),
{
}

/// Appending records that all have one key, absent before, writes the first
/// of them and nothing else.
pub proof fn lemma_same_key_appends_once(
    rows: Seq<StoredEventView>,
    records: Seq<StoredEventView>,
    topic: Seq<char>,
    id: u128,
)
    requires
        !has_key(rows, topic, id),
        records.len() >= 1,
        forall|i: int| 0 <= i < records.len() ==> records[i].topic == topic && records[i].id == id,
    ensures
        rows_after_all(rows, records) == rows.push(records[0]),
    decreases records.len(),
{
    let first = rows.push(records[0]);
    if records.len() == 1 {
        assert(records.drop_last().len() == 0);
        assert(rows_after_all(rows, records.drop_last()) == rows);
    } else {
        lemma_same_key_appends_once(rows, records.drop_last(), topic, id);
        assert(records.drop_last()[0] == records[0]);
        assert(has_key_at(first, rows.len() as int, topic, id));
    }
}

/// Idempotency: appending `n >= 1` records with one key, absent before,
/// leaves exactly one row with that key, the first record; the first append
/// reports `Inserted` and every later one `AlreadyPresent`.
pub proof fn lemma_append_idempotent(
    rows: Seq<StoredEventView>,
    records: Seq<StoredEventView>,
    topic: Seq<char>,
    id: u128,
)
    requires
        keys_unique(rows),
        !has_key(rows, topic, id),
        records.len() >= 1,
        forall|i: int| 0 <= i < records.len() ==> records[i].topic == topic && records[i].id == id,
    ensures
        rows_after_all(rows, records) == rows.push(records[0]),
        keys_unique(rows_after_all(rows, records)),
        count_key(rows_after_all(rows, records), topic, id) == 1,
        outcome_at(rows, records, 0) == Outcome::Inserted,
        forall|i: int| 1 <= i < records.len() ==> outcome_at(rows, records, i) == Outcome::AlreadyPresent,
{
    let first = rows.push(records[0]);
    lemma_same_key_appends_once(rows, records, topic, id);
    lemma_append_keeps_unique(rows, records[0]);
    lemma_absent_counts_zero(rows, topic, id);
    assert(first.drop_last() =~= rows);
    assert(first.last() == records[0]);
    assert(records.take(0).len() == 0);
    assert(rows_after_all(rows, records.take(0)) == rows);
    assert forall|i: int| 1 <= i < records.len() implies outcome_at(rows, records, i)
        == Outcome::AlreadyPresent by {
        let head = records.take(i);
        assert(head[0] == records[0]);
        lemma_same_key_appends_once(rows, head, topic, id);
        assert(has_key_at(first, rows.len() as int, topic, id));
    }
}

/// Where no two rows share a key, a key counts one row if it is present and
/// none if it is not.
pub proof fn lemma_unique_key_counts(rows: Seq<StoredEventView>, topic: Seq<char>, id: u128)
    requires
        keys_unique(rows),
    ensures
        count_key(rows, topic, id) == (if has_key(rows, topic, id) {
            1nat
        } else {
            0nat
        }),
    decreases rows.len(),
{
    if rows.len() == 0 {
        assert forall|i: int| !has_key_at(rows, i, topic, id) by {}
    } else {
        let head = rows.drop_last();
        let last = rows.len() - 1;
        assert forall|i: int, j: int| 0 <= i < j < head.len() implies !(head[i].topic
            == head[j].topic && head[i].id == head[j].id) by {
            assert(head[i] == rows[i] && head[j] == rows[j]);
        }
        lemma_unique_key_counts(head, topic, id);
        if rows.last().topic == topic && rows.last().id == id {
            assert(has_key_at(rows, last, topic, id));
            assert forall|i: int| !has_key_at(head, i, topic, id) by {
                if 0 <= i < head.len() {
                    assert(head[i] == rows[i]);
                }
            }
        } else if has_key(head, topic, id) {
            let i = choose|i: int| has_key_at(head, i, topic, id);
            assert(has_key_at(rows, i, topic, id));
        } else {
            assert forall|i: int| !has_key_at(rows, i, topic, id) by {
                if 0 <= i < head.len() {
                    assert(!has_key_at(head, i, topic, id));
                }
            }
        }
    }
}

/// Appends in any order keep the keys unique and every earlier row in its
/// place.
pub proof fn lemma_appends_keep_unique(rows: Seq<StoredEventView>, records: Seq<StoredEventView>)
    requires
        keys_unique(rows),
    ensures
        keys_unique(rows_after_all(rows, records)),
        rows.is_prefix_of(rows_after_all(rows, records)),
    decreases records.len(),
{
    if records.len() > 0 {
        lemma_appends_keep_unique(rows, records.drop_last());
        lemma_append_keeps_unique(rows_after_all(rows, records.drop_last()), records.last());
    }
}

/// A key that is present stays present under further appends.
pub proof fn lemma_key_stays(
    rows: Seq<StoredEventView>,
    records: Seq<StoredEventView>,
    topic: Seq<char>,
    id: u128,
)
    requires
        has_key(rows, topic, id),
    ensures
        has_key(rows_after_all(rows, records), topic, id),
    decreases records.len(),
{
    if records.len() > 0 {
        let before = rows_after_all(rows, records.drop_last());
        lemma_key_stays(rows, records.drop_last(), topic, id);
        let i = choose|i: int| has_key_at(before, i, topic, id);
        assert(has_key_at(rows_after(before, records.last()), i, topic, id));
    }
}

/// However appends under one key are mixed with appends under other keys,
/// by however many callers, exactly one row has that key afterwards.
pub proof fn lemma_one_row_per_key(
    rows: Seq<StoredEventView>,
    records: Seq<StoredEventView>,
    k: int,
)
    requires
        keys_unique(rows),
        0 <= k < records.len(),
    ensures
        count_key(rows_after_all(rows, records), records[k].topic, records[k].id) == 1,
{
    let topic = records[k].topic;
    let id = records[k].id;
    let head = records.take(k + 1);
    let tail = records.skip(k + 1);
    let mid = rows_after_all(rows, head);
    let before = rows_after_all(rows, head.drop_last());
    assert(head.last() == records[k]);
    if !has_key(before, topic, id) {
        assert(has_key_at(before.push(records[k]), before.len() as int, topic, id));
    }
    assert(has_key(mid, topic, id));
    lemma_appends_split(rows, records, k + 1);
    lemma_key_stays(mid, tail, topic, id);
    lemma_appends_keep_unique(rows, records);
    lemma_unique_key_counts(rows_after_all(rows, records), topic, id);
}

/// Among appends in any order, a key sees `Inserted` once if it was absent
/// and is present afterwards, and never otherwise.
pub proof fn lemma_inserted_once_per_key(
    rows: Seq<StoredEventView>,
    records: Seq<StoredEventView>,
    topic: Seq<char>,
    id: u128,
)
    ensures
        inserted_under(rows, records, topic, id) == (if !has_key(rows, topic, id) && has_key(
            rows_after_all(rows, records),
            topic,
            id,
        ) {
            1nat
        } else {
            0nat
        }),
    decreases records.len(),
{
    if records.len() > 0 {
        let head = records.drop_last();
        let last = records.last();
        let before = rows_after_all(rows, head);
        let after = rows_after(before, last);
        lemma_inserted_once_per_key(rows, head, topic, id);
        if has_key(rows, topic, id) {
            lemma_key_stays(rows, head, topic, id);
        }
        if has_key(before, topic, id) {
            let i = choose|i: int| has_key_at(before, i, topic, id);
            assert(has_key_at(after, i, topic, id));
        } else if last.topic == topic && last.id == id {
            assert(has_key_at(after, before.len() as int, topic, id));
        } else {
            assert forall|i: int| !has_key_at(after, i, topic, id) by {
                if 0 <= i < before.len() {
                    assert(!has_key_at(before, i, topic, id));
                }
            }
        }
    }
}

/// However many callers append under one key, absent before, and however
/// their appends are mixed with others, exactly one of them is told
/// `Inserted`.
pub proof fn lemma_one_caller_inserts(
    rows: Seq<StoredEventView>,
    records: Seq<StoredEventView>,
    k: int,
)
    requires
        keys_unique(rows),
        0 <= k < records.len(),
        !has_key(rows, records[k].topic, records[k].id),
    ensures
        inserted_under(rows, records, records[k].topic, records[k].id) == 1,
{
    let topic = records[k].topic;
    let id = records[k].id;
    lemma_one_row_per_key(rows, records, k);
    lemma_appends_keep_unique(rows, records);
    lemma_unique_key_counts(rows_after_all(rows, records), topic, id);
    lemma_inserted_once_per_key(rows, records, topic, id);
}

/// Appending all records is appending the first `n`, then the rest.
pub proof fn lemma_appends_split(rows: Seq<StoredEventView>, records: Seq<StoredEventView>, n: int)
    requires
        0 <= n <= records.len(),
    ensures
        rows_after_all(rows, records) == rows_after_all(
            rows_after_all(rows, records.take(n)),
            records.skip(n),
        ),
    decreases records.len() - n,
{
    if n == records.len() {
        assert(records.take(n) =~= records);
        assert(records.skip(n).len() == 0);
    } else {
        let rest = records.skip(n);
        assert(rest.drop_last() =~= records.drop_last().skip(n));
        assert(records.drop_last().take(n) =~= records.take(n));
        assert(rest.last() == records.last());
        lemma_appends_split(rows, records.drop_last(), n);
    }
}

/// After an append of a record, a further append under its key changes
/// nothing and reports `AlreadyPresent`.
pub proof fn lemma_second_append_is_noop(
    rows: Seq<StoredEventView>,
    record: StoredEventView,
    again: StoredEventView,
)
    requires
        again.topic == record.topic,
        again.id == record.id,
    ensures
        rows_after(rows_after(rows, record), again) == rows_after(rows, record),
        outcome_of(rows_after(rows, record), again) == Outcome::AlreadyPresent,
{
    let after = rows_after(rows, record);
    if has_key(rows, record.topic, record.id) {
        assert(after == rows);
    } else {
        assert(has_key_at(after, rows.len() as int, record.topic, record.id));
    }
}

/// An event store held in memory.
pub struct MemoryStore {
    rows: Vec<StoredEvent>,
}

impl View for MemoryStore {
    type V = Seq<StoredEventView>;

    closed spec fn view(&self) -> Seq<StoredEventView> {
        rows_view(self.rows@)
    }
}

impl MemoryStore {
    /// The store's invariant: no two rows share a key.
    pub open spec fn wf(&self) -> bool {
        keys_unique(self@)
    }

    /// A store without rows.
    pub fn new() -> (store: MemoryStore)
        ensures
            store.wf(),
            store@ == Seq::<StoredEventView>::empty(),
    {
        let store = MemoryStore { rows: Vec::new() };
        assert(store@ =~= Seq::<StoredEventView>::empty());
        store
    }

    /// The number of rows.
    pub fn len(&self) -> (n: usize)
        ensures
            n == self@.len(),
    {
        self.rows.len()
    }

    /// Whether a row with the key `(topic, id)` is stored.
    pub fn contains(&self, topic: &str, id: u128) -> (found: bool)
        ensures
            found == has_key(self@, topic@, id),
    {
        let wanted: String = topic.to_owned();
        let mut i: usize = 0;
        while i < self.rows.len()
            invariant
                i <= self.rows@.len(),
                wanted@ == topic@,
                forall|j: int| 0 <= j < i ==> !has_key_at(self@, j, topic@, id),
            decreases self.rows@.len() - i,
        {
            if self.rows[i].id == id && self.rows[i].topic == wanted {
                assert(has_key_at(self@, i as int, topic@, id));
                return true;
            }
            i += 1;
        }
        false
    }

    /// The number of rows with the topic.
    pub fn count_topic(&self, topic: &str) -> (n: usize)
        ensures
            n == count_topic(self@, topic@),
    {
        let wanted: String = topic.to_owned();
        let mut n: usize = 0;
        let mut i: usize = 0;
        while i < self.rows.len()
            invariant
                i <= self.rows@.len(),
                wanted@ == topic@,
                n <= i,
                n == count_topic(self@.take(i as int), topic@),
            decreases self.rows@.len() - i,
        {
            proof {
                assert(self@.take(i + 1).drop_last() =~= self@.take(i as int));
                assert(self@.take(i + 1).last() == self@[i as int]);
            }
            if self.rows[i].topic == wanted {
                n += 1;
            }
            i += 1;
        }
        assert(self@.take(i as int) =~= self@);
        n
    }

    /// The idempotent append: writes `record` unless a row with its key
    /// `(topic, id)` is there, and says which of the two happened. Rows that
    /// were there stay as they were, in their places.
    pub fn append_if_absent(&mut self, record: StoredEvent) -> (outcome: Outcome)
        requires
            old(self).wf(),
        ensures
            final(self).wf(),
            final(self)@ == rows_after(old(self)@, record@),
            outcome == outcome_of(old(self)@, record@),
            old(self)@.is_prefix_of(final(self)@),
    {
        proof {
            lemma_append_keeps_unique(self@, record@);
        }
        if self.contains(record.topic.as_str(), record.id) {
            Outcome::AlreadyPresent
        } else {
            let ghost before = self@;
            self.rows.push(record);
            assert(self@ =~= before.push(record@));
            Outcome::Inserted
        }
    }
}

} // verus!
