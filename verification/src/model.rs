//! Data model of the reminder core: events, reminder-queue entries, and
//! the store that holds them, together with the specification of when a
//! queue entry is due.

use vstd::prelude::*;
use crate::timecmp::lex_le;

verus! {

/// An event that reminders refer to. `event_time` is kept as a
/// zero-padded ISO-8601-like timestamp string.
pub struct Event {
    pub id: String,
    pub title: String,
    pub event_time: String,
    pub completed: bool,
}

/// One entry of the reminder queue. `fire_at` is the instant, as a
/// timestamp string, at which the reminder becomes due. `fired` starts
/// false and is flipped to true exactly once, by the scheduler.
pub struct QueueEntry {
    pub id: i64,
    pub event_id: String,
    pub fire_at: String,
    pub reminder_type: String,
    pub fired: bool,
}

/// One row of the due-reminder query: a queue entry joined with its
/// owning event's title and time.
pub struct DueReminder {
    pub entry_id: i64,
    pub event_id: String,
    pub fire_at: String,
    pub reminder_type: String,
    pub title: String,
    pub event_time: String,
}

/// The store as the scheduler sees it: the event and queue tables, and
/// an explicit readiness flag. While the store is not yet initialized
/// (`ready == false`) every due check is a no-op with an empty result.
pub struct Store {
    pub ready: bool,
    pub events: Vec<Event>,
    pub queue: Vec<QueueEntry>,
}

/// The first event whose `id` equals `event_id`, if any.
pub open spec fn find_event(events: Seq<Event>, event_id: Seq<char>) -> Option<Event>
    decreases events.len(),
{
    if events.len() == 0 {
        None
    } else if events[0].id@ == event_id {
        Some(events[0])
    } else {
        find_event(events.skip(1), event_id)
    }
}

/// The due invariant: unfired, fire time passed (lexicographically on
/// the timestamp strings), and the owning event exists and is not
/// completed.
pub open spec fn entry_due(events: Seq<Event>, e: QueueEntry, now: Seq<char>) -> bool {
    &&& !e.fired
    &&& lex_le(e.fire_at@, now)
    &&& match find_event(events, e.event_id@) {
        Some(ev) => !ev.completed,
        None => false,
    }
}

/// The joined row that the due query reports for a due entry.
pub open spec fn row_for(events: Seq<Event>, e: QueueEntry) -> DueReminder {
    DueReminder {
        entry_id: e.id,
        event_id: e.event_id,
        fire_at: e.fire_at,
        reminder_type: e.reminder_type,
        title: find_event(events, e.event_id@)->0.title,
        event_time: find_event(events, e.event_id@)->0.event_time,
    }
}

/// The rows of the due query: the due entries of `queue`, in queue
/// order, each joined with its owning event.
pub open spec fn due_rows(events: Seq<Event>, queue: Seq<QueueEntry>, now: Seq<char>) -> Seq<
    DueReminder,
>
    decreases queue.len(),
{
    if queue.len() == 0 {
        Seq::empty()
    } else {
        due_rows(events, queue.drop_last(), now) + if entry_due(events, queue.last(), now) {
            seq![row_for(events, queue.last())]
        } else {
            seq![]
        }
    }
}

/// `e` with its fired flag set.
pub open spec fn with_fired(e: QueueEntry) -> QueueEntry {
    QueueEntry {
        id: e.id,
        event_id: e.event_id,
        fire_at: e.fire_at,
        reminder_type: e.reminder_type,
        fired: true,
    }
}

/// Some row among the first `k` of `rows` reports the entry id `id`.
pub open spec fn id_in_rows(rows: Seq<DueReminder>, k: int, id: i64) -> bool {
    exists|k2: int| 0 <= k2 < k && #[trigger] rows[k2].entry_id == id
}

/// Every row of the due query comes from a due entry of the queue.
pub proof fn lemma_due_rows_sound(
    events: Seq<Event>,
    queue: Seq<QueueEntry>,
    now: Seq<char>,
    k: int,
)
    requires
        0 <= k < due_rows(events, queue, now).len(),
    ensures
        exists|i: int|
            0 <= i < queue.len() && #[trigger] entry_due(events, queue[i], now) && due_rows(
                events,
                queue,
                now,
            )[k] == row_for(events, queue[i]),
    decreases queue.len(),
{
    let rows = due_rows(events, queue, now);
    let prefix = due_rows(events, queue.drop_last(), now);
    if k < prefix.len() {
        lemma_due_rows_sound(events, queue.drop_last(), now, k);
        let i = choose|i: int|
            0 <= i < queue.drop_last().len() && #[trigger] entry_due(
                events,
                queue.drop_last()[i],
                now,
            ) && prefix[k] == row_for(events, queue.drop_last()[i]);
        assert(queue.drop_last()[i] == queue[i]);
        assert(entry_due(events, queue[i], now));
        assert(rows[k] == row_for(events, queue[i]));
    } else {
        assert(entry_due(events, queue.last(), now));
        assert(rows[k] == row_for(events, queue[queue.len() - 1]));
        assert(entry_due(events, queue[queue.len() - 1], now));
    }
}

/// Every due entry of the queue is reported by some row of the due
/// query.
pub proof fn lemma_due_rows_complete(
    events: Seq<Event>,
    queue: Seq<QueueEntry>,
    now: Seq<char>,
    i: int,
)
    requires
        0 <= i < queue.len(),
        entry_due(events, queue[i], now),
    ensures
        exists|k: int|
            0 <= k < due_rows(events, queue, now).len() && #[trigger] due_rows(
                events,
                queue,
                now,
            )[k] == row_for(events, queue[i]),
    decreases queue.len(),
{
    let rows = due_rows(events, queue, now);
    let prefix = due_rows(events, queue.drop_last(), now);
    if i < queue.len() - 1 {
        assert(queue.drop_last()[i] == queue[i]);
        lemma_due_rows_complete(events, queue.drop_last(), now, i);
        let k = choose|k: int|
            0 <= k < prefix.len() && #[trigger] prefix[k] == row_for(events, queue.drop_last()[i]);
        assert(rows[k] == prefix[k]);
        assert(rows[k] == row_for(events, queue[i]));
    } else {
        assert(queue.last() == queue[i]);
        assert(rows[rows.len() - 1] == row_for(events, queue[i]));
    }
}

/// Well-formedness of the store's tables: entry ids and event ids are
/// unique identifiers.
pub open spec fn store_wf(s: Store) -> bool {
    &&& forall|i: int, j: int|
        0 <= i < j < s.queue@.len() ==> s.queue@[i].id != s.queue@[j].id
    &&& forall|i: int, j: int|
        0 <= i < j < s.events@.len() ==> s.events@[i].id@ != s.events@[j].id@
}

} // verus!
