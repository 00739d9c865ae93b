//! Properties of the due query and of a tick, stated and proved over
//! the model: a due entry is reported exactly once and ends up fired,
//! an excluded entry is never reported, and a second tick at the same
//! instant finds nothing to do.

use vstd::prelude::*;
use crate::model::DueReminder;
use crate::model::Event;
use crate::model::QueueEntry;
use crate::model::Store;
use crate::model::due_rows;
use crate::model::entry_due;
use crate::model::find_event;
use crate::model::row_for;
use crate::model::store_wf;
use crate::scheduler::Notification;
use crate::scheduler::tick_rel;
use crate::timecmp::lex_le;

verus! {

/// How many rows of the due query report the entry id `id`.
pub open spec fn count_id(rows: Seq<DueReminder>, id: i64) -> int
    decreases rows.len(),
{
    if rows.len() == 0 {
        0
    } else {
        count_id(rows.drop_last(), id) + if rows.last().entry_id == id {
            1int
        } else {
            0int
        }
    }
}

/// How many entries of the queue carry the id `id` and are due.
pub open spec fn count_due_with_id(
    events: Seq<Event>,
    queue: Seq<QueueEntry>,
    now: Seq<char>,
    id: i64,
) -> int
    decreases queue.len(),
{
    if queue.len() == 0 {
        0
    } else {
        count_due_with_id(events, queue.drop_last(), now, id) + if entry_due(
            events,
            queue.last(),
            now,
        ) && queue.last().id == id {
            1int
        } else {
            0int
        }
    }
}

/// The due query reports an id as often as the queue holds a due entry
/// with that id.
proof fn lemma_count_matches(events: Seq<Event>, queue: Seq<QueueEntry>, now: Seq<char>, id: i64)
    ensures
        count_id(due_rows(events, queue, now), id) == count_due_with_id(events, queue, now, id),
    decreases queue.len(),
{
    if queue.len() > 0 {
        lemma_count_matches(events, queue.drop_last(), now, id);
        let prefix = due_rows(events, queue.drop_last(), now);
        if entry_due(events, queue.last(), now) {
            let r = row_for(events, queue.last());
            assert(due_rows(events, queue, now) == prefix + seq![r]);
            assert((prefix + seq![r]).drop_last() =~= prefix);
            assert((prefix + seq![r]).last() == r);
        } else {
            assert(due_rows(events, queue, now) =~= prefix);
        }
    }
}

/// A queue that holds no entry with the id `id` contributes no due
/// entry with it either.
proof fn lemma_count_due_absent(events: Seq<Event>, queue: Seq<QueueEntry>, now: Seq<char>, id: i64)
    requires
        forall|j: int| 0 <= j < queue.len() ==> queue[j].id != id,
    ensures
        count_due_with_id(events, queue, now, id) == 0,
    decreases queue.len(),
{
    if queue.len() > 0 {
        assert(queue[queue.len() - 1].id != id);
        lemma_count_due_absent(events, queue.drop_last(), now, id);
    }
}

/// With unique entry ids, the due entries carrying the id of `queue[i]`
/// number one when that entry is due and zero when it is not.
proof fn lemma_count_due_at(events: Seq<Event>, queue: Seq<QueueEntry>, now: Seq<char>, i: int)
    requires
        forall|a: int, b: int| 0 <= a < b < queue.len() ==> queue[a].id != queue[b].id,
        0 <= i < queue.len(),
    ensures
        count_due_with_id(events, queue, now, queue[i].id) == (if entry_due(
            events,
            queue[i],
            now,
        ) {
            1int
        } else {
            0int
        }),
    decreases queue.len(),
{
    let id = queue[i].id;
    if i == queue.len() - 1 {
        assert forall|j: int| 0 <= j < queue.drop_last().len() implies queue.drop_last()[j].id
            != id by {
            assert(queue[j].id != queue[i].id);
        };
        lemma_count_due_absent(events, queue.drop_last(), now, id);
        assert(queue.last() == queue[i]);
    } else {
        assert(queue.drop_last()[i] == queue[i]);
        lemma_count_due_at(events, queue.drop_last(), now, i);
        assert(queue[queue.len() - 1].id != id);
    }
}

/// A due entry is reported by the due query exactly once: with unique
/// entry ids, exactly one row of the query carries its id.
pub proof fn lemma_due_exactly_once(
    events: Seq<Event>,
    queue: Seq<QueueEntry>,
    now: Seq<char>,
    i: int,
)
    requires
        forall|a: int, b: int| 0 <= a < b < queue.len() ==> queue[a].id != queue[b].id,
        0 <= i < queue.len(),
        entry_due(events, queue[i], now),
    ensures
        count_id(due_rows(events, queue, now), queue[i].id) == 1,
{
    lemma_count_matches(events, queue, now, queue[i].id);
    lemma_count_due_at(events, queue, now, i);
}

/// An entry that is already fired, or whose fire time has not passed,
/// or whose owning event is completed or missing, is never reported by
/// the due query: with unique entry ids, no row carries its id.
pub proof fn lemma_excluded_never_due(
    events: Seq<Event>,
    queue: Seq<QueueEntry>,
    now: Seq<char>,
    i: int,
)
    requires
        forall|a: int, b: int| 0 <= a < b < queue.len() ==> queue[a].id != queue[b].id,
        0 <= i < queue.len(),
        queue[i].fired || !lex_le(queue[i].fire_at@, now) || (match find_event(
            events,
            queue[i].event_id@,
        ) {
            Some(ev) => ev.completed,
            None => true,
        }),
    ensures
        count_id(due_rows(events, queue, now), queue[i].id) == 0,
{
    assert(!entry_due(events, queue[i], now));
    lemma_count_matches(events, queue, now, queue[i].id);
    lemma_count_due_at(events, queue, now, i);
}

/// After a successful tick, a due entry's fired flag is set, and the
/// query that fed the tick reported it exactly once.
pub proof fn lemma_due_fired_once(
    pre: Store,
    post: Store,
    notes: Seq<Notification>,
    now: Seq<char>,
    i: int,
)
    requires
        store_wf(pre),
        pre.ready,
        tick_rel(pre, post, notes, now),
        0 <= i < pre.queue@.len(),
        entry_due(pre.events@, pre.queue@[i], now),
    ensures
        count_id(due_rows(pre.events@, pre.queue@, now), pre.queue@[i].id) == 1,
        post.queue@[i].fired,
{
    lemma_due_exactly_once(pre.events@, pre.queue@, now, i);
}

/// A fired flag never reverts: an entry that was fired before a tick
/// is still fired after it, whatever the tick did.
pub proof fn lemma_fired_never_reverts(
    pre: Store,
    post: Store,
    notes: Seq<Notification>,
    now: Seq<char>,
    i: int,
)
    requires
        tick_rel(pre, post, notes, now),
        0 <= i < pre.queue@.len(),
        pre.queue@[i].fired,
    ensures
        post.queue@[i].fired,
{
}

/// A queue with no due entry yields an empty due query.
pub proof fn lemma_no_due_rows(events: Seq<Event>, queue: Seq<QueueEntry>, now: Seq<char>)
    requires
        forall|i: int| 0 <= i < queue.len() ==> !entry_due(events, queue[i], now),
    ensures
        due_rows(events, queue, now).len() == 0,
    decreases queue.len(),
{
    if queue.len() > 0 {
        assert(!entry_due(events, queue[queue.len() - 1], now));
        lemma_no_due_rows(events, queue.drop_last(), now);
    }
}

/// Idempotence of the due check: a second tick at the same instant,
/// with no intervening change, emits no notification and leaves the
/// store as the first tick left it.
pub proof fn lemma_tick_idempotent(
    pre: Store,
    mid: Store,
    post: Store,
    first_notes: Seq<Notification>,
    second_notes: Seq<Notification>,
    now: Seq<char>,
)
    requires
        tick_rel(pre, mid, first_notes, now),
        tick_rel(mid, post, second_notes, now),
    ensures
        second_notes.len() == 0,
        post.queue@ == mid.queue@,
        post.events@ == mid.events@,
{
    if pre.ready {
        assert forall|i: int| 0 <= i < mid.queue@.len() implies !entry_due(
            mid.events@,
            mid.queue@[i],
            now,
        ) by {
            if entry_due(pre.events@, pre.queue@[i], now) {
                assert(mid.queue@[i].fired);
            }
        };
        lemma_no_due_rows(mid.events@, mid.queue@, now);
        assert(post.queue@ =~= mid.queue@);
    }
}

} // verus!
