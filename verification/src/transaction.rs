//! The steps of one transactional append, as a state machine: the caller
//! does what an action asks of the store and hands back what happened.

use crate::ingest::IngestError;
use crate::store::{has_key, outcome_of, rows_after, MemoryStore, Outcome, StoredEvent, StoredEventView};
use vstd::prelude::*;

verus! {

/// Where an append stands.
#[derive(Debug, Clone, Copy, PartialEq, Eq, Structural)]
pub enum TxState {
    /// Nothing has been asked of the store.
    Idle,
    /// A transaction was asked for.
    Opening,
    /// The insert was sent inside the open transaction.
    Writing,
    /// The insert changed this many rows, and the commit was sent.
    Committing(u64),
    /// The append is over.
    Closed,
}

/// What the caller hands back.
#[derive(Debug, Clone, Copy, PartialEq, Eq, Structural)]
pub enum TxEvent {
    /// The append is to begin.
    Start,
    /// The transaction is open.
    Opened,
    /// The insert ran and changed this many rows.
    Wrote(u64),
    /// The commit was acknowledged.
    Committed,
    /// The store failed at what was asked last.
    Failed,
}

/// What the caller is to do next.
#[derive(Debug, Clone, Copy, PartialEq, Eq, Structural)]
pub enum TxAction {
    /// Open a transaction.
    Begin,
    /// Send the insert that a present key turns into a no-op.
    Insert,
    /// Commit the transaction.
    Commit,
    /// Tell the caller what the committed append did.
    Report(Outcome),
    /// Drop the transaction, so that nothing of it stays, and tell the
    /// caller that the store is unavailable.
    Abandon,
    /// Nothing: the append was over before.
    Stop,
}

/// What a statement that changed `rows_affected` rows did: one row is an
/// insert, none is a key that was there.
pub open spec fn rows_outcome(rows_affected: u64) -> Outcome {
    if rows_affected == 1 {
        Outcome::Inserted
    } else {
        Outcome::AlreadyPresent
    }
}

/// The state that follows `state` on `event`, and the action to take.
pub open spec fn step_spec(state: TxState, event: TxEvent) -> (TxState, TxAction) {
    match (state, event) {
        (TxState::Idle, TxEvent::Start) => (TxState::Opening, TxAction::Begin),
        (TxState::Opening, TxEvent::Opened) => (TxState::Writing, TxAction::Insert),
        (TxState::Writing, TxEvent::Wrote(n)) => (TxState::Committing(n), TxAction::Commit),
        (TxState::Committing(n), TxEvent::Committed) => (
            TxState::Closed,
            TxAction::Report(rows_outcome(n)),
        ),
        (TxState::Closed, _) => (TxState::Closed, TxAction::Stop),
        _ => (TxState::Closed, TxAction::Abandon),
    }
}

/// The state after a run of events from `Idle`.
pub open spec fn state_after(events: Seq<TxEvent>) -> TxState
    decreases events.len(),
{
    if events.len() == 0 {
        TxState::Idle
    } else {
        step_spec(state_after(events.drop_last()), events.last()).0
    }
}

/// The action that the event at `k` of a run from `Idle` leads to.
pub open spec fn action_at(events: Seq<TxEvent>, k: int) -> TxAction {
    step_spec(state_after(events.take(k)), events[k]).1
}

/// What a statement that changed `rows_affected` rows did.
pub fn outcome_of_rows(rows_affected: u64) -> (outcome: Outcome)
    ensures
        outcome == rows_outcome(rows_affected),
{
    if rows_affected == 1 {
        Outcome::Inserted
    } else {
        Outcome::AlreadyPresent
    }
}

/// One step of an append: the next state and the action to take.
///
/// The append goes `Begin`, `Insert`, `Commit`, `Report` as long as the
/// store does what is asked; a failure, or an event that is not due, ends it
/// with `Abandon`, and nothing is asked of the store after that.
pub fn step(state: TxState, event: TxEvent) -> (next: (TxState, TxAction))
    ensures
        next == step_spec(state, event),
{
    match state {
        TxState::Idle => match event {
            TxEvent::Start => (TxState::Opening, TxAction::Begin),
            _ => (TxState::Closed, TxAction::Abandon),
        },
        TxState::Opening => match event {
            TxEvent::Opened => (TxState::Writing, TxAction::Insert),
            _ => (TxState::Closed, TxAction::Abandon),
        },
        TxState::Writing => match event {
            TxEvent::Wrote(n) => (TxState::Committing(n), TxAction::Commit),
            _ => (TxState::Closed, TxAction::Abandon),
        },
        TxState::Committing(n) => match event {
            TxEvent::Committed => (TxState::Closed, TxAction::Report(outcome_of_rows(n))),
            _ => (TxState::Closed, TxAction::Abandon),
        },
        TxState::Closed => (TxState::Closed, TxAction::Stop),
    }
}

/// The events that lead to each state short of `Closed`.
pub proof fn lemma_state_tells_the_run(events: Seq<TxEvent>)
    ensures
        (match state_after(events) {
            TxState::Idle => events.len() == 0,
            TxState::Opening => events == seq![TxEvent::Start],
            TxState::Writing => events == seq![TxEvent::Start, TxEvent::Opened],
            TxState::Committing(n) => events == seq![
                TxEvent::Start,
                TxEvent::Opened,
                TxEvent::Wrote(n),
            ],
            TxState::Closed => events.len() >= 1,
        }),
    decreases events.len(),
{
    if events.len() > 0 {
        let head = events.drop_last();
        lemma_state_tells_the_run(head);
        assert(events =~= head.push(events.last()));
        match state_after(head) {
            TxState::Idle => {
                assert(head =~= Seq::<TxEvent>::empty());
                if events.last() == TxEvent::Start {
                    assert(events =~= seq![TxEvent::Start]);
                }
            },
            TxState::Opening => {
                if events.last() == TxEvent::Opened {
                    assert(events =~= seq![TxEvent::Start, TxEvent::Opened]);
                }
            },
            TxState::Writing => {
                if let TxEvent::Wrote(n) = events.last() {
                    assert(events =~= seq![TxEvent::Start, TxEvent::Opened, TxEvent::Wrote(n)]);
                }
            },
            TxState::Committing(_) => {},
            TxState::Closed => {},
        }
    }
}

/// An outcome is reported only for a committed append: the event before was
/// the acknowledged commit of an insert that ran in an open transaction, and
/// the outcome is that of the rows it changed. An append that is interrupted
/// before its commit reports none.
pub proof fn lemma_report_needs_commit(events: Seq<TxEvent>, k: int, outcome: Outcome)
    requires
        0 <= k < events.len(),
        action_at(events, k) == TxAction::Report(outcome),
    ensures
        k == 3,
        events[0] == TxEvent::Start,
        events[1] == TxEvent::Opened,
        events[3] == TxEvent::Committed,
        exists|n: u64| events[2] == TxEvent::Wrote(n) && outcome == rows_outcome(n),
{
    let head = events.take(k);
    lemma_state_tells_the_run(head);
    match state_after(head) {
        TxState::Committing(n) => {
            assert(head == seq![TxEvent::Start, TxEvent::Opened, TxEvent::Wrote(n)]);
            assert(head.len() == 3);
            assert(head[0] == events[0] && head[1] == events[1] && head[2] == events[2]);
            assert(events[2] == TxEvent::Wrote(n) && outcome == rows_outcome(n));
        },
        _ => {},
    }
}

/// After a failure the store is asked nothing more: every later action is
/// `Stop`.
pub proof fn lemma_nothing_after_failure(events: Seq<TxEvent>, k: int, later: int)
    requires
        0 <= k < later < events.len(),
        events[k] == TxEvent::Failed,
    ensures
        action_at(events, later) == TxAction::Stop,
{
    lemma_closed_stays(events, k + 1, later);
    assert(events.take(k + 1).drop_last() =~= events.take(k));
    assert(events.take(k + 1).last() == events[k]);
}

/// Once closed, an append stays closed.
pub proof fn lemma_closed_stays(events: Seq<TxEvent>, n: int, m: int)
    requires
        0 <= n <= m <= events.len(),
        state_after(events.take(n)) == TxState::Closed,
    ensures
        state_after(events.take(m)) == TxState::Closed,
    decreases m - n,
{
    if n < m {
        lemma_closed_stays(events, n, m - 1);
        assert(events.take(m).drop_last() =~= events.take(m - 1));
    }
}

/// At which step the store fails, if at any.
#[derive(Debug, Clone, Copy, PartialEq, Eq, Structural)]
pub enum Fault {
    /// At none.
    Never,
    /// When the transaction is opened.
    OnBegin,
    /// When the insert is sent.
    OnInsert,
    /// When the commit is sent.
    OnCommit,
}

/// The view of what a transaction has staged.
pub open spec fn staged_view(staged: Option<StoredEvent>) -> Option<StoredEventView> {
    match staged {
        Some(record) => Some(record@),
        None => None,
    }
}

/// The visible rows after an action: only a commit that the store takes
/// changes them, by the staged record.
pub open spec fn rows_applied(
    rows: Seq<StoredEventView>,
    staged: Option<StoredEventView>,
    action: TxAction,
    healthy: bool,
) -> Seq<StoredEventView> {
    match staged {
        Some(record) if healthy && action == TxAction::Commit => rows_after(rows, record),
        _ => rows,
    }
}

/// What is staged after an action: the record, after an insert that the
/// store takes and whose key is absent; nothing after any other action.
pub open spec fn staged_applied(
    rows: Seq<StoredEventView>,
    action: TxAction,
    record: Option<StoredEventView>,
    healthy: bool,
) -> Option<StoredEventView> {
    match record {
        Some(r) if healthy && action == TxAction::Insert && !has_key(rows, r.topic, r.id) => Some(
            r,
        ),
        _ => None,
    }
}

/// What the store hands back for an action: nothing for an action that asks
/// nothing of it, `Failed` where it fails, and else what it did.
pub open spec fn event_applied(
    rows: Seq<StoredEventView>,
    action: TxAction,
    record: Option<StoredEventView>,
    healthy: bool,
) -> Option<TxEvent> {
    match action {
        TxAction::Begin => Some(
            if healthy {
                TxEvent::Opened
            } else {
                TxEvent::Failed
            },
        ),
        TxAction::Insert => Some(
            if !healthy {
                TxEvent::Failed
            } else if staged_applied(rows, action, record, healthy) is Some {
                TxEvent::Wrote(1)
            } else {
                TxEvent::Wrote(0)
            },
        ),
        TxAction::Commit => Some(
            if healthy {
                TxEvent::Committed
            } else {
                TxEvent::Failed
            },
        ),
        _ => None,
    }
}

/// Performs an action on a store held in memory, for a transaction that
/// holds `staged`, and hands back what happened. `record` is what an insert
/// is to write; `healthy` says whether the store takes the action or fails.
///
/// What is staged is visible in no row until a commit that the store takes;
/// every other action leaves the rows as they were.
pub fn perform(
    store: &mut MemoryStore,
    staged: &mut Option<StoredEvent>,
    action: TxAction,
    record: Option<StoredEvent>,
    healthy: bool,
) -> (event: Option<TxEvent>)
    requires
        old(store).wf(),
    ensures
        final(store).wf(),
        final(store)@ == rows_applied(old(store)@, staged_view(*old(staged)), action, healthy),
        staged_view(*final(staged)) == staged_applied(
            old(store)@,
            action,
            staged_view(record),
            healthy,
        ),
        event == event_applied(old(store)@, action, staged_view(record), healthy),
        event != Some(TxEvent::Committed) ==> final(store)@ == old(store)@,
{
    let held = staged.take();
    match action {
        TxAction::Begin => Some(
            if healthy {
                TxEvent::Opened
            } else {
                TxEvent::Failed
            },
        ),
        TxAction::Insert => {
            if !healthy {
                return Some(TxEvent::Failed);
            }
            match record {
                Some(r) => {
                    if store.contains(r.topic.as_str(), r.id) {
                        Some(TxEvent::Wrote(0))
                    } else {
                        *staged = Some(r);
                        Some(TxEvent::Wrote(1))
                    }
                },
                None => Some(TxEvent::Wrote(0)),
            }
        },
        TxAction::Commit => {
            if !healthy {
                return Some(TxEvent::Failed);
            }
            match held {
                Some(r) => {
                    let _ = store.append_if_absent(r);
                },
                None => {},
            }
            Some(TxEvent::Committed)
        },
        _ => None,
    }
}

/// Appends a record to a store held in memory inside one transaction, whose
/// steps [`step`] decides and [`perform`] carries out.
///
/// Where the store fails at no step, the record is written unless its key is
/// present, and the result says whether it was written. Where the store
/// fails at any step, the commit included, no row has changed and the result
/// is `StorageUnavailable`.
pub fn save_event_tx(store: &mut MemoryStore, record: StoredEvent, fault: Fault) -> (r: Result<
    bool,
    IngestError,
>)
    requires
        old(store).wf(),
    ensures
        final(store).wf(),
        fault == Fault::Never ==> final(store)@ == rows_after(old(store)@, record@) && r == Ok::<
            bool,
            IngestError,
        >(outcome_of(old(store)@, record@) == Outcome::Inserted),
        fault != Fault::Never ==> final(store)@ == old(store)@ && r == Err::<bool, IngestError>(
            IngestError::StorageUnavailable,
        ),
{
    let mut staged: Option<StoredEvent> = None;
    let (s1, a1) = step(TxState::Idle, TxEvent::Start);
    let e1 = match perform(store, &mut staged, a1, None, fault != Fault::OnBegin) {
        Some(e) => e,
        None => return Err(IngestError::StorageUnavailable),
    };
    let (s2, a2) = step(s1, e1);
    let e2 = match perform(store, &mut staged, a2, Some(record), fault != Fault::OnInsert) {
        Some(e) => e,
        None => return Err(IngestError::StorageUnavailable),
    };
    let (s3, a3) = step(s2, e2);
    let e3 = match perform(store, &mut staged, a3, None, fault != Fault::OnCommit) {
        Some(e) => e,
        None => return Err(IngestError::StorageUnavailable),
    };
    let (_, a4) = step(s3, e3);
    match a4 {
        TxAction::Report(outcome) => Ok(outcome == Outcome::Inserted),
        _ => Err(IngestError::StorageUnavailable),
    }
}

/// A transaction together with the store it runs on.
pub struct TxWorld {
    /// The visible rows.
    pub rows: Seq<StoredEventView>,
    /// What the transaction has staged.
    pub staged: Option<StoredEventView>,
    /// Where the append stands.
    pub state: TxState,
    /// What was handed back last, or nothing once the append is over.
    pub event: Option<TxEvent>,
}

/// The world before an append to `rows`.
pub open spec fn world_start(rows: Seq<StoredEventView>) -> TxWorld {
    TxWorld { rows, staged: None, state: TxState::Idle, event: Some(TxEvent::Start) }
}

/// One round: the step that is due, performed on the store, which takes it
/// or fails.
pub open spec fn world_step(w: TxWorld, record: StoredEventView, healthy: bool) -> TxWorld {
    match w.event {
        Some(e) => {
            let (next, action) = step_spec(w.state, e);
            TxWorld {
                rows: rows_applied(w.rows, w.staged, action, healthy),
                staged: staged_applied(w.rows, action, Some(record), healthy),
                state: next,
                event: event_applied(w.rows, action, Some(record), healthy),
            }
        },
        None => w,
    }
}

/// The world after as many rounds as `health` is long, the store taking the
/// step of round `i` where `health[i]` and failing where not.
pub open spec fn world_after(rows: Seq<StoredEventView>, record: StoredEventView, health: Seq<bool>) -> TxWorld
    decreases health.len(),
{
    if health.len() == 0 {
        world_start(rows)
    } else {
        world_step(world_after(rows, record, health.drop_last()), record, health.last())
    }
}

/// The append has not come as far as sending its commit.
pub open spec fn commit_not_sent(state: TxState) -> bool {
    state is Idle || state is Opening || state is Writing
}

/// Whether some round of the run ended in an acknowledged commit.
pub open spec fn committed_in(rows: Seq<StoredEventView>, record: StoredEventView, health: Seq<bool>) -> bool
    decreases health.len(),
{
    if health.len() == 0 {
        false
    } else {
        committed_in(rows, record, health.drop_last()) || (world_after(
            rows,
            record,
            health.drop_last(),
        ).event.is_some() && world_after(rows, record, health).event == Some(TxEvent::Committed))
    }
}

/// Atomicity under failure: a run in which no commit is acknowledged,
/// however far it got and wherever the store failed, leaves every row as it
/// was and adds none.
pub proof fn lemma_uncommitted_run_changes_nothing(
    rows: Seq<StoredEventView>,
    record: StoredEventView,
    health: Seq<bool>,
)
    requires
        !committed_in(rows, record, health),
    ensures
        world_after(rows, record, health).rows == rows,
    decreases health.len(),
{
    if health.len() > 0 {
        lemma_uncommitted_run_changes_nothing(rows, record, health.drop_last());
    }
}

/// A run changes the rows by nothing or by the one record: what it leaves
/// is the rows as they were or the rows after an append of the record, and
/// the rows as they were as long as no commit was sent.
pub proof fn lemma_run_is_all_or_nothing(
    rows: Seq<StoredEventView>,
    record: StoredEventView,
    health: Seq<bool>,
)
    ensures
        world_after(rows, record, health).rows == rows || world_after(rows, record, health).rows
            == rows_after(rows, record),
        world_after(rows, record, health).staged matches Some(r) ==> r == record && world_after(
            rows,
            record,
            health,
        ).rows == rows && !has_key(rows, r.topic, r.id),
        commit_not_sent(world_after(rows, record, health).state) ==> world_after(
            rows,
            record,
            health,
        ).rows == rows,
    decreases health.len(),
{
    if health.len() > 0 {
        lemma_run_is_all_or_nothing(rows, record, health.drop_last());
    }
}

} // verus!
