//! One tick of the reminder scheduler: query the due entries, build the
//! notification for each, and record the fired transition.
//!
//! The surrounding process drives the cadence (one call per tick) and
//! performs the effects: it hands the store's tables in, shows the
//! notifications that come back, and persists the flipped fired flags.

use vstd::prelude::*;
use crate::display::resolve_display;
use crate::display::resolved_display_for;
use crate::model::DueReminder;
use crate::model::Event;
use crate::model::QueueEntry;
use crate::model::Store;
use crate::model::due_rows;
use crate::model::entry_due;
use crate::model::find_event;
use crate::model::id_in_rows;
use crate::model::lemma_due_rows_complete;
use crate::model::lemma_due_rows_sound;
use crate::model::row_for;
use crate::model::store_wf;
use crate::model::with_fired;
use crate::timecmp::str_eq;
use crate::timecmp::str_le;

verus! {

/// The content handed to the notification sink: a title and a body.
pub struct Notification {
    pub title: String,
    pub body: String,
}

/// Builds the notification for a due reminder: the owning event's
/// title, and `"Scheduled: "` followed by the resolved display text.
pub fn notification_for(title: &str, display: &str) -> (n: Notification)
    ensures
        n.title@ == title@,
        n.body@ == "Scheduled: "@ + display@,
{
    let mut body = String::from_str("Scheduled: ");
    body.append(display);
    Notification { title: title.to_owned(), body }
}

/// `n` is the notification owed for the due row `row`: the event's
/// title, and a body of `"Scheduled: "` followed by a display text that
/// resolution may produce for the event's timestamp.
pub open spec fn notification_matches(n: Notification, row: DueReminder) -> bool {
    &&& n.title@ == row.title@
    &&& exists|d: Seq<char>|
        n.body@ == "Scheduled: "@ + d && #[trigger] resolved_display_for(d, row.event_time@)
}

/// Index of the first event whose id equals `event_id`, if any.
pub fn find_event_index(events: &Vec<Event>, event_id: &str) -> (r: Option<usize>)
    ensures
        match r {
            Some(j) => j < events@.len() && find_event(events@, event_id@) == Some(
                events@[j as int],
            ),
            None => find_event(events@, event_id@) is None,
        },
{
    let mut i: usize = 0;
    proof {
        assert(events@.skip(0) =~= events@);
    }
    while i < events.len()
        invariant
            i <= events@.len(),
            find_event(events@, event_id@) == find_event(events@.skip(i as int), event_id@),
        decreases events@.len() - i,
    {
        if str_eq(events[i].id.as_str(), event_id) {
            return Some(i);
        }
        proof {
            assert(events@.skip(i as int).skip(1) =~= events@.skip(i + 1));
        }
        i = i + 1;
    }
    None
}

/// The due-reminder query: the entries of `queue` for which the due
/// invariant holds at `now`, in queue order, each joined with its
/// owning event's title and time. Read-only: nothing is mutated.
pub fn query_due(events: &Vec<Event>, queue: &Vec<QueueEntry>, now: &str) -> (rows: Vec<
    DueReminder,
>)
    ensures
        rows@ == due_rows(events@, queue@, now@),
{
    let mut rows: Vec<DueReminder> = Vec::new();
    proof {
        assert(queue@.take(0) =~= Seq::<QueueEntry>::empty());
    }
    let mut i: usize = 0;
    while i < queue.len()
        invariant
            i <= queue@.len(),
            rows@ == due_rows(events@, queue@.take(i as int), now@),
        decreases queue@.len() - i,
    {
        let e = &queue[i];
        match find_event_index(events, e.event_id.as_str()) {
            Some(j) => {
                if !e.fired && !events[j].completed && str_le(e.fire_at.as_str(), now) {
                    let row = DueReminder {
                        entry_id: e.id,
                        event_id: e.event_id.clone(),
                        fire_at: e.fire_at.clone(),
                        reminder_type: e.reminder_type.clone(),
                        title: events[j].title.clone(),
                        event_time: events[j].event_time.clone(),
                    };
                    proof {
                        assert(entry_due(events@, queue@[i as int], now@));
                        assert(row == row_for(events@, queue@[i as int]));
                    }
                    rows.push(row);
                } else {
                    proof {
                        assert(!entry_due(events@, queue@[i as int], now@));
                    }
                }
            },
            None => {
                proof {
                    assert(!entry_due(events@, queue@[i as int], now@));
                }
            },
        }
        proof {
            assert(queue@.take(i + 1).drop_last() =~= queue@.take(i as int));
            assert(queue@.take(i + 1).last() == queue@[i as int]);
            assert(rows@ == due_rows(events@, queue@.take(i + 1), now@));
        }
        i = i + 1;
    }
    proof {
        assert(queue@.take(queue@.len() as int) =~= queue@);
    }
    rows
}

/// Records the fired transition for the entry with id `entry_id`: that
/// entry's fired flag becomes true, every other entry is untouched, and
/// no entry is added or removed.
pub fn mark_fired(queue: &mut Vec<QueueEntry>, entry_id: i64)
    ensures
        final(queue)@.len() == old(queue)@.len(),
        forall|i: int|
            0 <= i < old(queue)@.len() ==> final(queue)@[i] == (if old(queue)@[i].id == entry_id {
                with_fired(old(queue)@[i])
            } else {
                old(queue)@[i]
            }),
{
    let mut i: usize = 0;
    while i < queue.len()
        invariant
            i <= queue@.len(),
            queue@.len() == old(queue)@.len(),
            forall|k: int| i <= k < queue@.len() ==> queue@[k] == old(queue)@[k],
            forall|k: int|
                0 <= k < i ==> queue@[k] == (if old(queue)@[k].id == entry_id {
                    with_fired(old(queue)@[k])
                } else {
                    old(queue)@[k]
                }),
        decreases queue@.len() - i,
    {
        if queue[i].id == entry_id {
            queue[i].fired = true;
        }
        i = i + 1;
    }
}

/// How one tick relates the store before to the store after, and to the
/// notifications it emits. While the store is not ready the tick is a
/// no-op with no notifications. Otherwise: exactly the entries that
/// were due are fired afterwards (a fired flag never reverts), every
/// other entry and the events are untouched, and one notification per
/// due row is emitted, in query order, each with the owed content.
pub open spec fn tick_rel(pre: Store, post: Store, notes: Seq<Notification>, now: Seq<char>) -> bool {
    &&& post.ready == pre.ready
    &&& post.events@ == pre.events@
    &&& post.queue@.len() == pre.queue@.len()
    &&& !pre.ready ==> post.queue@ == pre.queue@ && notes.len() == 0
    &&& pre.ready ==> {
        &&& forall|i: int|
            0 <= i < pre.queue@.len() ==> post.queue@[i] == (if entry_due(
                pre.events@,
                pre.queue@[i],
                now,
            ) {
                with_fired(pre.queue@[i])
            } else {
                pre.queue@[i]
            })
        &&& notes.len() == due_rows(pre.events@, pre.queue@, now).len()
        &&& forall|k: int|
            0 <= k < notes.len() ==> #[trigger] notification_matches(
                notes[k],
                due_rows(pre.events@, pre.queue@, now)[k],
            )
    }
}

/// One tick of the scheduler at the instant `now`: queries the due
/// entries, builds one notification per due row, and records each fired
/// transition, per [`tick_rel`].
#[verifier::loop_isolation(false)]
pub fn run_tick(store: &mut Store, now: &str) -> (notes: Vec<Notification>)
    requires
        store_wf(*old(store)),
    ensures
        tick_rel(*old(store), *final(store), notes@, now@),
{
    let mut notes: Vec<Notification> = Vec::new();
    if !store.ready {
        return notes;
    }
    let rows = query_due(&store.events, &store.queue, now);
    let ghost evs: Seq<Event> = store.events@;
    let ghost q0: Seq<QueueEntry> = store.queue@;
    let mut k: usize = 0;
    while k < rows.len()
        invariant
            store.ready,
            store.events@ == evs,
            store.queue@.len() == q0.len(),
            k <= rows@.len(),
            notes@.len() == k as int,
            forall|k2: int|
                0 <= k2 < k ==> #[trigger] notification_matches(notes@[k2], rows@[k2]),
            forall|i: int|
                0 <= i < q0.len() ==> store.queue@[i] == (if id_in_rows(
                    rows@,
                    k as int,
                    q0[i].id,
                ) {
                    with_fired(q0[i])
                } else {
                    q0[i]
                }),
        decreases rows@.len() - k,
    {
        let row = &rows[k];
        let disp = resolve_display(row.event_time.as_str());
        let n = notification_for(row.title.as_str(), disp.as_str());
        proof {
            assert(resolved_display_for(disp@, rows@[k as int].event_time@));
            assert(notification_matches(n, rows@[k as int]));
        }
        notes.push(n);
        let ghost qa: Seq<QueueEntry> = store.queue@;
        mark_fired(&mut store.queue, row.entry_id);
        proof {
            let rid = rows@[k as int].entry_id;
            assert forall|i: int|
                0 <= i < q0.len() implies store.queue@[i] == (if id_in_rows(
                rows@,
                k + 1,
                q0[i].id,
            ) {
                with_fired(q0[i])
            } else {
                q0[i]
            }) by {
                if q0[i].id == rid {
                    assert(rows@[k as int].entry_id == q0[i].id);
                    assert(id_in_rows(rows@, k + 1, q0[i].id));
                    assert(qa[i].id == q0[i].id);
                    assert(store.queue@[i] == with_fired(qa[i]));
                    assert(with_fired(qa[i]) == with_fired(q0[i]));
                } else {
                    assert(qa[i].id == q0[i].id);
                    assert(store.queue@[i] == qa[i]);
                    if id_in_rows(rows@, k + 1, q0[i].id) {
                        let k2 = choose|k2: int|
                            0 <= k2 < k + 1 && #[trigger] rows@[k2].entry_id == q0[i].id;
                        assert(k2 < k);
                        assert(id_in_rows(rows@, k as int, q0[i].id));
                    }
                    if id_in_rows(rows@, k as int, q0[i].id) {
                        let k2 = choose|k2: int|
                            0 <= k2 < k && #[trigger] rows@[k2].entry_id == q0[i].id;
                        assert(0 <= k2 < k + 1 && rows@[k2].entry_id == q0[i].id);
                        assert(id_in_rows(rows@, k + 1, q0[i].id));
                    }
                }
            };
        }
        k = k + 1;
    }
    proof {
        assert forall|i: int|
            0 <= i < q0.len() implies store.queue@[i] == (if entry_due(evs, q0[i], now@) {
            with_fired(q0[i])
        } else {
            q0[i]
        }) by {
            if entry_due(evs, q0[i], now@) {
                lemma_due_rows_complete(evs, q0, now@, i);
                let kk = choose|kk: int|
                    0 <= kk < due_rows(evs, q0, now@).len() && #[trigger] due_rows(
                        evs,
                        q0,
                        now@,
                    )[kk] == row_for(evs, q0[i]);
                assert(rows@[kk].entry_id == q0[i].id);
                assert(id_in_rows(rows@, rows@.len() as int, q0[i].id));
            } else {
                if id_in_rows(rows@, rows@.len() as int, q0[i].id) {
                    let k2 = choose|k2: int|
                        0 <= k2 < rows@.len() && #[trigger] rows@[k2].entry_id == q0[i].id;
                    lemma_due_rows_sound(evs, q0, now@, k2);
                    let j = choose|j: int|
                        0 <= j < q0.len() && #[trigger] entry_due(evs, q0[j], now@) && due_rows(
                            evs,
                            q0,
                            now@,
                        )[k2] == row_for(evs, q0[j]);
                    assert(row_for(evs, q0[j]).entry_id == q0[j].id);
                    assert(q0[j].id == q0[i].id);
                    assert(j == i);
                    assert(false);
                }
            }
        };
    }
    notes
}

/// Relies on `chrono::Utc::now` (the clock: a different value may come
/// back on every call) rendered with the format `"%Y-%m-%dT%H:%M:%S"`:
/// zero-padded fields with a year of at least four digits, so at least
/// nineteen characters come back.
#[verifier::external_body]
fn current_utc_timestamp() -> (r: String)
    ensures
        r@.len() >= 19,
{
    chrono::Utc::now().format("%Y-%m-%dT%H:%M:%S").to_string()
}

/// One tick of the scheduler at the current UTC instant, formatted with
/// seconds precision to match the stored timestamp strings: there is an
/// instant `now` for which this call is exactly a [`run_tick`].
pub fn tick_now(store: &mut Store) -> (notes: Vec<Notification>)
    requires
        store_wf(*old(store)),
    ensures
        exists|now: Seq<char>| #[trigger] tick_rel(*old(store), *final(store), notes@, now),
{
    let now = current_utc_timestamp();
    let notes = run_tick(store, now.as_str());
    proof {
        assert(tick_rel(*old(store), *store, notes@, now@));
    }
    notes
}

} // verus!
