//! The externally invoked operations: each one first sweeps rows older than
//! the retention window, then reads or allocates. The caller serializes these
//! calls with one exclusive lock so that two concurrent allocations cannot
//! observe the same count.

use vstd::prelude::*;
use vstd::seq_lib::*;
use crate::clock::{days_before, retention_cutoff, Timestamp, RETENTION_DAYS};
use crate::codes::date_chars;
use crate::store::{
    count_matching, day_rows, kept_pred, lemma_allocation_numbers_complete,
    lemma_day_rows_after_sweep, lemma_sweep_preserves_complete, numbers_complete, swept,
    CreateQueueRequest, Queue, QueueCounts, QueueStore,
};

verus! {

/// The table after the retention sweep triggered at time `now`: rows dated
/// strictly before `RETENTION_DAYS` days ago are gone; when the cutoff date
/// cannot be computed or leaves the supported year range the sweep is
/// skipped and the table is unchanged.
pub open spec fn after_sweep(rows: Seq<Queue>, now: Timestamp) -> Seq<Queue> {
    match days_before(now.year as i32, now.month, now.day, RETENTION_DAYS) {
        Some(t) => if 0 <= t.0 <= 9999 {
            swept(rows, date_chars(t.0 as nat, t.1 as nat, t.2 as nat))
        } else {
            rows
        },
        None => rows,
    }
}

/// The sweep triggered at `now` keeps the sequence numbers of every counter
/// and day complete: a swept day loses all its rows, any other day keeps
/// every row.
pub proof fn lemma_sweep_preserves_all_complete(
    rows: Seq<Queue>,
    now: Timestamp,
    loket: Seq<char>,
    day: Seq<char>,
)
    requires
        numbers_complete(rows, loket, day),
    ensures
        numbers_complete(after_sweep(rows, now), loket, day),
{
    match days_before(now.year as i32, now.month, now.day, RETENTION_DAYS) {
        Some(t) => {
            if 0 <= t.0 <= 9999 {
                lemma_sweep_preserves_complete(
                    rows,
                    date_chars(t.0 as nat, t.1 as nat, t.2 as nat),
                    loket,
                    day,
                );
            }
        },
        None => (),
    }
}

/// One allocation request keeps the day's sequence numbers complete for
/// every counter. `table` is the swept table the request inserted into, as
/// the operation's contract gives it: the sweep left the rows of `now`'s own
/// day unchanged, and the new row's number is one more than its counter's
/// count on its day. Requests within one local day, serialized by the
/// caller's lock, therefore yield at each counter exactly the numbers
/// `1..=N` — no duplicates, no gaps — and pairwise distinct codes.
pub proof fn lemma_request_preserves_complete(
    rows: Seq<Queue>,
    table: Seq<Queue>,
    now: Timestamp,
    q: Queue,
    loket: Seq<char>,
)
    requires
        numbers_complete(rows, loket, now.date()),
        table == after_sweep(rows, now),
        day_rows(table, loket, now.date()) == day_rows(rows, loket, now.date()),
        q.queue_number as int == count_matching(table, q.loket_type@, q.date()) + 1,
    ensures
        numbers_complete(table.push(q), loket, now.date()),
        count_matching(table, loket, now.date()) == count_matching(rows, loket, now.date()),
{
    lemma_sweep_preserves_all_complete(rows, now, loket, now.date());
    lemma_allocation_numbers_complete(table, q, loket, now.date());
}

fn sweep_now(store: &mut QueueStore, now: &Timestamp)
    requires
        old(store).wf(),
        now.wf(),
    ensures
        final(store).wf(),
        final(store).rows@ == after_sweep(old(store).rows@, *now),
        final(store).rows@.len() <= old(store).rows@.len(),
        final(store).next_id == old(store).next_id,
        forall|l: Seq<char>|
            #[trigger] day_rows(after_sweep(old(store).rows@, *now), l, now.date()) == day_rows(
                old(store).rows@,
                l,
                now.date(),
            ),
{
    let ghost rows = old(store).rows@;
    match retention_cutoff(now) {
        Some(cutoff) => {
            store.clean_old_queues(&cutoff);
            proof {
                rows.lemma_filter_len(kept_pred(cutoff.chars()));
                assert forall|l: Seq<char>|
                    #[trigger] day_rows(after_sweep(rows, *now), l, now.date()) == day_rows(
                        rows,
                        l,
                        now.date(),
                    ) by {
                    lemma_day_rows_after_sweep(rows, cutoff.chars(), l, now.date());
                }
            }
        },
        None => (),
    }
}

/// Sweeps, then returns today's ticket counts at counters "A" and "B"; the
/// sweep never touches the rows of `now`'s own day, at any counter.
pub fn get_current_queues(store: &mut QueueStore, now: &Timestamp) -> (r: QueueCounts)
    requires
        old(store).wf(),
        now.wf(),
        old(store).rows@.len() < 0x7fff_ffff,
    ensures
        final(store).wf(),
        final(store).rows@ == after_sweep(old(store).rows@, *now),
        final(store).next_id == old(store).next_id,
        r.loket_a as int == count_matching(final(store).rows@, "A"@, now.date()),
        r.loket_b as int == count_matching(final(store).rows@, "B"@, now.date()),
        r.loket_a as int == count_matching(old(store).rows@, "A"@, now.date()),
        r.loket_b as int == count_matching(old(store).rows@, "B"@, now.date()),
        forall|l: Seq<char>|
            #[trigger] day_rows(after_sweep(old(store).rows@, *now), l, now.date()) == day_rows(
                old(store).rows@,
                l,
                now.date(),
            ),
{
    sweep_now(store, now);
    store.get_queue_counts(now)
}

/// Sweeps, then allocates the next ticket at `request.loket_type` for the
/// local day of `now`: its sequence number is one more than the count of
/// that counter's rows on that day — the same count before and after the
/// sweep, which never touches the rows of `now`'s own day.
pub fn create_new_queue(store: &mut QueueStore, request: &CreateQueueRequest, now: &Timestamp) -> (q:
    Queue)
    requires
        old(store).wf(),
        now.wf(),
        old(store).rows@.len() < 0x7fff_ffff,
        old(store).next_id < 0x7fff_ffff_ffff_ffff,
    ensures
        final(store).wf(),
        q.wf(),
        final(store).rows@ == after_sweep(old(store).rows@, *now).push(q),
        final(store).next_id == old(store).next_id + 1,
        q.id == old(store).next_id,
        q.loket_type@ == request.loket_type@,
        q.patient_type@ == request.patient_type@,
        q.status@ == "waiting"@,
        q.queue_number as int == count_matching(
            after_sweep(old(store).rows@, *now),
            request.loket_type@,
            now.date(),
        ) + 1,
        q.queue_number as int == count_matching(old(store).rows@, request.loket_type@, now.date())
            + 1,
        q.queue_code@ == crate::codes::code_chars(request.loket_type@, q.queue_number as nat),
        q.created_at@ == now.chars(),
        q.updated_at@ == now.chars(),
        q.date() == now.date(),
        forall|l: Seq<char>|
            #[trigger] day_rows(after_sweep(old(store).rows@, *now), l, now.date()) == day_rows(
                old(store).rows@,
                l,
                now.date(),
            ),
{
    sweep_now(store, now);
    store.create_queue(request, now)
}

} // verus!
