//! The ticket table and its verified operations: date-scoped sequence
//! allocation (count the rows of a counter on a local day, then insert with
//! the next number), per-counter daily counts, and the retention sweep.

use vstd::prelude::*;
use vstd::seq_lib::*;
use vstd::string::*;
use crate::clock::Timestamp;
use crate::codes::{
    code_chars, lex_lt, date_prefix_eq, date_prefix_lt, make_queue_code, lemma_date_chars_shape,
    lemma_timestamp_chars_shape,
};

verus! {

/// A persisted ticket row.
pub struct Queue {
    pub id: i64,
    pub loket_type: String,
    pub queue_number: i32,
    pub queue_code: String,
    pub patient_type: String,
    pub status: String,
    pub created_at: String,
    pub updated_at: String,
}

/// A request to allocate a ticket at one counter.
pub struct CreateQueueRequest {
    pub loket_type: String,
    pub patient_type: String,
}

/// Today's ticket counts at the two counters.
#[derive(Clone, Copy, Debug, PartialEq, Eq, Structural)]
pub struct QueueCounts {
    pub loket_a: i32,
    pub loket_b: i32,
}

impl Queue {
    /// The local calendar date on which the row was created: the first ten
    /// characters of its creation timestamp.
    pub open spec fn date(&self) -> Seq<char> {
        self.created_at@.subrange(0, 10)
    }

    /// Shape every stored row keeps: an ASCII creation timestamp with at
    /// least a ten-character date prefix, a positive sequence number, and a
    /// code that is exactly the counter identifier plus the padded number.
    pub open spec fn wf(&self) -> bool {
        &&& self.created_at@.len() >= 10
        &&& vstd::utf8::is_ascii_chars(self.created_at@)
        &&& self.queue_number >= 1
        &&& self.queue_code@ == code_chars(self.loket_type@, self.queue_number as nat)
    }
}

/// Whether a row belongs to the given counter and local calendar day.
pub open spec fn row_matches(q: Queue, loket: Seq<char>, day: Seq<char>) -> bool {
    q.loket_type@ == loket && q.date() == day
}

/// The row predicate behind `count_matching`, shared so that callers and
/// lemmas speak of one closure.
pub open spec fn matches_pred(loket: Seq<char>, day: Seq<char>) -> spec_fn(Queue) -> bool {
    |q: Queue| row_matches(q, loket, day)
}

/// The rows of counter `loket` on local day `day`, in insertion order.
pub open spec fn day_rows(rows: Seq<Queue>, loket: Seq<char>, day: Seq<char>) -> Seq<Queue> {
    rows.filter(matches_pred(loket, day))
}

/// How many rows belong to the given counter and local calendar day.
pub open spec fn count_matching(rows: Seq<Queue>, loket: Seq<char>, day: Seq<char>) -> nat {
    day_rows(rows, loket, day).len()
}

/// Whether the sweep keeps a row: its date is not strictly before the cutoff.
pub open spec fn kept_pred(cutoff: Seq<char>) -> spec_fn(Queue) -> bool {
    |q: Queue| !lex_lt(q.date(), cutoff)
}

/// The rows that survive a sweep with the given cutoff date, in their
/// original order.
pub open spec fn swept(rows: Seq<Queue>, cutoff: Seq<char>) -> Seq<Queue> {
    rows.filter(kept_pred(cutoff))
}

/// Row identifiers strictly increase along the table, so an identifier is
/// never reused.
pub open spec fn ids_increasing(rows: Seq<Queue>) -> bool {
    forall|i: int, j: int| 0 <= i < j < rows.len() ==> rows[i].id < rows[j].id
}

/// Filtering a sequence keeps only elements of the original.
pub proof fn lemma_filter_subset<A>(s: Seq<A>, pred: spec_fn(A) -> bool)
    ensures
        forall|x: A| #[trigger] s.filter(pred).contains(x) ==> s.contains(x),
    decreases s.len(),
{
    reveal(Seq::filter);
    if s.len() != 0 {
        let rest = s.drop_last();
        lemma_filter_subset(rest, pred);
        assert forall|x: A| #[trigger] s.filter(pred).contains(x) implies s.contains(x) by {
            if pred(s.last()) {
                assert(s.filter(pred) == rest.filter(pred).push(s.last()));
                if x == s.last() {
                    assert(s[s.len() - 1] == x);
                } else {
                    let k = choose|k: int|
                        0 <= k < s.filter(pred).len() && s.filter(pred)[k] == x;
                    assert(rest.filter(pred)[k] == x);
                    assert(rest.filter(pred).contains(x));
                    let m = choose|m: int| 0 <= m < rest.len() && rest[m] == x;
                    assert(s[m] == x);
                }
            } else {
                assert(s.filter(pred) == rest.filter(pred));
                assert(rest.filter(pred).contains(x));
                let m = choose|m: int| 0 <= m < rest.len() && rest[m] == x;
                assert(s[m] == x);
            }
        }
    }
}

/// What `filter` does to a sequence extended by one element.
pub proof fn lemma_filter_push<A>(s: Seq<A>, x: A, pred: spec_fn(A) -> bool)
    ensures
        s.push(x).filter(pred) == if pred(x) {
            s.filter(pred).push(x)
        } else {
            s.filter(pred)
        },
{
    reveal(Seq::filter);
    assert(s.push(x).drop_last() =~= s);
    assert(s.push(x).last() == x);
}

/// Filtering keeps identifiers strictly increasing.
pub proof fn lemma_filter_ids_increasing(s: Seq<Queue>, pred: spec_fn(Queue) -> bool)
    requires
        ids_increasing(s),
    ensures
        ids_increasing(s.filter(pred)),
    decreases s.len(),
{
    reveal(Seq::filter);
    if s.len() != 0 {
        let rest = s.drop_last();
        assert(ids_increasing(rest)) by {
            assert(forall|i: int| 0 <= i < rest.len() ==> rest[i] == s[i]);
        };
        lemma_filter_ids_increasing(rest, pred);
        if pred(s.last()) {
            let f = s.filter(pred);
            assert(f == rest.filter(pred).push(s.last()));
            lemma_filter_subset(rest, pred);
            assert forall|i: int, j: int| 0 <= i < j < f.len() implies f[i].id < f[j].id by {
                if j == f.len() - 1 {
                    assert(f[j] == s.last());
                    assert(rest.filter(pred)[i] == f[i]);
                    assert(rest.filter(pred).contains(f[i]));
                    assert(rest.contains(f[i]));
                    let m = choose|m: int| 0 <= m < rest.len() && rest[m] == f[i];
                    assert(s[m] == f[i]);
                    assert(s[m].id < s[s.len() - 1].id);
                } else {
                    assert(rest.filter(pred)[i] == f[i] && rest.filter(pred)[j] == f[j]);
                }
            }
        }
    }
}

/// Some row of counter `loket` on day `day` carries sequence number `k`.
pub open spec fn has_number(rows: Seq<Queue>, loket: Seq<char>, day: Seq<char>, k: int) -> bool {
    exists|i: int|
        0 <= i < day_rows(rows, loket, day).len() && (#[trigger] day_rows(
            rows,
            loket,
            day,
        )[i]).queue_number == k
}

/// The sequence numbers at counter `loket` on day `day` are exactly
/// `1..=count`: every number up to the day's count occurs, none lies outside
/// that range, and no two rows of that counter and day share a number.
pub open spec fn numbers_complete(rows: Seq<Queue>, loket: Seq<char>, day: Seq<char>) -> bool {
    let dr = day_rows(rows, loket, day);
    let m = dr.len() as int;
    &&& forall|k: int| 1 <= k <= m ==> #[trigger] has_number(rows, loket, day, k)
    &&& forall|i: int| 0 <= i < m ==> 1 <= (#[trigger] dr[i]).queue_number <= m
    &&& forall|i: int, j: int|
        0 <= i < j < m ==> (#[trigger] dr[i]).queue_number != (#[trigger] dr[j]).queue_number
}

/// An empty table has complete sequence numbers for every counter and day.
pub proof fn lemma_empty_numbers_complete(loket: Seq<char>, day: Seq<char>)
    ensures
        numbers_complete(Seq::<Queue>::empty(), loket, day),
{
    reveal(Seq::filter);
}

/// Allocating preserves complete sequence numbers for every counter and day:
/// a row whose number is one more than the current count of its own counter
/// and day extends `1..=N` to `1..=N+1` there and changes nothing elsewhere,
/// so same-day allocations at one counter never duplicate and never skip a
/// number.
pub proof fn lemma_allocation_numbers_complete(
    rows: Seq<Queue>,
    q: Queue,
    loket: Seq<char>,
    day: Seq<char>,
)
    requires
        numbers_complete(rows, loket, day),
        q.queue_number as int == count_matching(rows, q.loket_type@, q.date()) + 1,
    ensures
        numbers_complete(rows.push(q), loket, day),
{
    let pred = matches_pred(loket, day);
    lemma_filter_push(rows, q, pred);
    let dr = day_rows(rows, loket, day);
    let dr2 = day_rows(rows.push(q), loket, day);
    let m = dr.len() as int;
    if row_matches(q, loket, day) {
        assert(q.loket_type@ == loket && q.date() == day);
        assert(dr2 == dr.push(q));
        assert(q.queue_number == m + 1);
        assert forall|k: int| 1 <= k <= m + 1 implies #[trigger] has_number(
            rows.push(q),
            loket,
            day,
            k,
        ) by {
            if k <= m {
                assert(has_number(rows, loket, day, k));
                let i = choose|i: int| 0 <= i < dr.len() && dr[i].queue_number == k;
                assert(dr2[i] == dr[i]);
                assert(dr2[i].queue_number == k);
            } else {
                assert(dr2[m] == q);
                assert(dr2[m].queue_number == k);
            }
        }
    } else {
        assert(dr2 == dr);
        assert forall|k: int| 1 <= k <= m implies #[trigger] has_number(
            rows.push(q),
            loket,
            day,
            k,
        ) by {
            assert(has_number(rows, loket, day, k));
            let i = choose|i: int| 0 <= i < dr.len() && dr[i].queue_number == k;
            assert(dr2[i].queue_number == k);
        }
    }
}

/// After a sweep, a day strictly before the cutoff has no rows left, and a
/// day at or after the cutoff keeps exactly its rows, in order.
pub proof fn lemma_day_rows_after_sweep(
    rows: Seq<Queue>,
    cutoff: Seq<char>,
    loket: Seq<char>,
    day: Seq<char>,
)
    ensures
        day_rows(swept(rows, cutoff), loket, day) == if lex_lt(day, cutoff) {
            Seq::<Queue>::empty()
        } else {
            day_rows(rows, loket, day)
        },
    decreases rows.len(),
{
    reveal(Seq::filter);
    if rows.len() == 0 {
        assert(swept(rows, cutoff) =~= Seq::<Queue>::empty());
        assert(day_rows(swept(rows, cutoff), loket, day) =~= Seq::<Queue>::empty());
        assert(day_rows(rows, loket, day) =~= Seq::<Queue>::empty());
    } else {
        let rest = rows.drop_last();
        let q = rows.last();
        lemma_day_rows_after_sweep(rest, cutoff, loket, day);
        if kept_pred(cutoff)(q) {
            assert(swept(rows, cutoff) == swept(rest, cutoff).push(q));
            lemma_filter_push(swept(rest, cutoff), q, matches_pred(loket, day));
        } else {
            assert(swept(rows, cutoff) == swept(rest, cutoff));
        }
        if matches_pred(loket, day)(q) {
            assert(day_rows(rows, loket, day) == day_rows(rest, loket, day).push(q));
            assert(q.date() == day);
        } else {
            assert(day_rows(rows, loket, day) == day_rows(rest, loket, day));
        }
    }
}

/// The retention sweep preserves complete sequence numbers for every counter
/// and day: a day strictly older than the cutoff loses all its rows (its
/// numbers become the empty range), and a day at or after the cutoff keeps
/// every row, so `1..=N` still holds everywhere. With the empty-table and
/// allocation lemmas, completeness is an invariant of every table the
/// library's operations can reach.
pub proof fn lemma_sweep_preserves_complete(
    rows: Seq<Queue>,
    cutoff: Seq<char>,
    loket: Seq<char>,
    day: Seq<char>,
)
    requires
        numbers_complete(rows, loket, day),
    ensures
        numbers_complete(swept(rows, cutoff), loket, day),
{
    lemma_day_rows_after_sweep(rows, cutoff, loket, day);
    let dr = day_rows(rows, loket, day);
    let drs = day_rows(swept(rows, cutoff), loket, day);
    if lex_lt(day, cutoff) {
        assert(drs.len() == 0);
    } else {
        assert(drs == dr);
        assert forall|k: int| 1 <= k <= drs.len() as int implies #[trigger] has_number(
            swept(rows, cutoff),
            loket,
            day,
            k,
        ) by {
            assert(has_number(rows, loket, day, k));
            let i = choose|i: int| 0 <= i < dr.len() && dr[i].queue_number == k;
            assert(drs[i].queue_number == k);
        }
    }
}

/// A counter's sequence restarts on a new local day: when no stored row has
/// day `day`, that day's count is zero at every counter, so the next
/// allocation there gets number 1, whatever earlier days or other counters
/// hold.
pub proof fn lemma_new_day_resets(rows: Seq<Queue>, loket: Seq<char>, day: Seq<char>)
    requires
        forall|i: int| 0 <= i < rows.len() ==> (#[trigger] rows[i]).date() != day,
    ensures
        count_matching(rows, loket, day) == 0,
    decreases rows.len(),
{
    reveal(Seq::filter);
    if rows.len() != 0 {
        let rest = rows.drop_last();
        assert(forall|i: int| 0 <= i < rest.len() ==> rest[i] == rows[i]);
        lemma_new_day_resets(rest, loket, day);
        assert(!row_matches(rows.last(), loket, day));
    }
}

/// Filtering twice with one predicate equals filtering once.
pub proof fn lemma_filter_idempotent<A>(s: Seq<A>, pred: spec_fn(A) -> bool)
    ensures
        s.filter(pred).filter(pred) == s.filter(pred),
    decreases s.len(),
{
    reveal(Seq::filter);
    if s.len() == 0 {
        assert(s.filter(pred) =~= Seq::<A>::empty());
    } else {
        let rest = s.drop_last();
        lemma_filter_idempotent(rest, pred);
        if pred(s.last()) {
            assert(s.filter(pred) == rest.filter(pred).push(s.last()));
            lemma_filter_push(rest.filter(pred), s.last(), pred);
        } else {
            assert(s.filter(pred) == rest.filter(pred));
        }
    }
}

/// The sweep is idempotent: run twice in a row with the same cutoff, the
/// second run removes nothing.
pub proof fn lemma_sweep_idempotent(rows: Seq<Queue>, cutoff: Seq<char>)
    ensures
        swept(swept(rows, cutoff), cutoff) == swept(rows, cutoff),
{
    lemma_filter_idempotent(rows, kept_pred(cutoff));
}

/// What the sweep removes and keeps: every surviving row is an original row
/// whose date is not strictly before the cutoff, and every original row
/// whose date is not strictly before the cutoff survives.
pub proof fn lemma_sweep_characterization(rows: Seq<Queue>, cutoff: Seq<char>)
    ensures
        swept(rows, cutoff).len() <= rows.len(),
        forall|i: int|
            0 <= i < swept(rows, cutoff).len() ==> !lex_lt(
                (#[trigger] swept(rows, cutoff)[i]).date(),
                cutoff,
            ) && rows.contains(swept(rows, cutoff)[i]),
        forall|i: int|
            0 <= i < rows.len() && !lex_lt((#[trigger] rows[i]).date(), cutoff) ==> swept(
                rows,
                cutoff,
            ).contains(rows[i]),
{
    let pred = kept_pred(cutoff);
    rows.lemma_filter_len(pred);
    lemma_filter_subset(rows, pred);
    assert forall|i: int| 0 <= i < swept(rows, cutoff).len() implies !lex_lt(
        (#[trigger] swept(rows, cutoff)[i]).date(),
        cutoff,
    ) && rows.contains(swept(rows, cutoff)[i]) by {
        rows.lemma_filter_pred(pred, i);
        assert(swept(rows, cutoff).contains(swept(rows, cutoff)[i]));
    }
    assert forall|i: int|
        0 <= i < rows.len() && !lex_lt((#[trigger] rows[i]).date(), cutoff) implies swept(
        rows,
        cutoff,
    ).contains(rows[i]) by {
        rows.lemma_filter_contains(pred, i);
    }
}

fn clone_queue(q: &Queue) -> (r: Queue)
    ensures
        r == *q,
{
    Queue {
        id: q.id,
        loket_type: q.loket_type.clone(),
        queue_number: q.queue_number,
        queue_code: q.queue_code.clone(),
        patient_type: q.patient_type.clone(),
        status: q.status.clone(),
        created_at: q.created_at.clone(),
        updated_at: q.updated_at.clone(),
    }
}

/// The ticket table: rows in insertion order and the next row identifier.
pub struct QueueStore {
    pub rows: Vec<Queue>,
    pub next_id: i64,
}

impl QueueStore {
    pub open spec fn wf(&self) -> bool {
        &&& forall|i: int| 0 <= i < self.rows@.len() ==> (#[trigger] self.rows@[i]).wf()
        &&& forall|i: int| 0 <= i < self.rows@.len() ==> (#[trigger] self.rows@[i]).id
            < self.next_id
        &&& ids_increasing(self.rows@)
    }

    /// An empty table; the first row will get identifier 1.
    pub fn new() -> (r: QueueStore)
        ensures
            r.wf(),
            r.rows@.len() == 0,
            r.next_id == 1,
    {
        QueueStore { rows: Vec::new(), next_id: 1 }
    }

    /// Counts the rows of counter `loket` created on the local day `day`
    /// (a ten-character `YYYY-MM-DD` string).
    pub fn count_for(&self, loket: &String, day: &String) -> (r: usize)
        requires
            self.wf(),
            day@.len() == 10,
            vstd::utf8::is_ascii_chars(day@),
        ensures
            r as nat == count_matching(self.rows@, loket@, day@),
            r <= self.rows@.len(),
    {
        let ghost pred = matches_pred(loket@, day@);
        proof {
            reveal(Seq::filter);
            assert(self.rows@.take(0) =~= Seq::<Queue>::empty());
        }
        let mut c: usize = 0;
        let mut i: usize = 0;
        while i < self.rows.len()
            invariant
                i <= self.rows@.len(),
                c <= i,
                self.wf(),
                day@.len() == 10,
                vstd::utf8::is_ascii_chars(day@),
                pred == matches_pred(loket@, day@),
                c as nat == self.rows@.take(i as int).filter(pred).len(),
            decreases self.rows@.len() - i,
        {
            let q = &self.rows[i];
            let same_loket = q.loket_type == *loket;
            let same_day = date_prefix_eq(q.created_at.as_str(), day.as_str());
            proof {
                assert(self.rows@.take(i + 1) =~= self.rows@.take(i as int).push(
                    self.rows@[i as int],
                ));
                lemma_filter_push(self.rows@.take(i as int), self.rows@[i as int], pred);
                self.rows@.take(i as int).lemma_filter_len(pred);
                assert(pred(self.rows@[i as int]) == (same_loket && same_day));
            }
            if same_loket && same_day {
                c += 1;
            }
            i += 1;
        }
        proof {
            assert(self.rows@.take(self.rows@.len() as int) =~= self.rows@);
        }
        c
    }

    /// Allocates the next ticket at counter `request.loket_type` for the
    /// local day of `now`: the sequence number is one more than the count of
    /// that counter's rows on that day, and the code is the counter
    /// identifier plus the number zero-padded to three digits.
    ///
    /// The number is computed from the current count, not from a monotonic
    /// per-day counter: deleting a same-day row would let a later allocation
    /// repeat a code. The retention sweep only deletes rows at least
    /// `RETENTION_DAYS` old, which keeps that unreachable today; any shorter
    /// retention would reintroduce it.
    pub fn create_queue(&mut self, request: &CreateQueueRequest, now: &Timestamp) -> (q: Queue)
        requires
            old(self).wf(),
            now.wf(),
            old(self).rows@.len() < 0x7fff_ffff,
            old(self).next_id < 0x7fff_ffff_ffff_ffff,
        ensures
            final(self).wf(),
            q.wf(),
            final(self).rows@ == old(self).rows@.push(q),
            final(self).next_id == old(self).next_id + 1,
            q.id == old(self).next_id,
            q.loket_type@ == request.loket_type@,
            q.patient_type@ == request.patient_type@,
            q.status@ == "waiting"@,
            q.queue_number as int == count_matching(
                old(self).rows@,
                request.loket_type@,
                now.date(),
            ) + 1,
            q.queue_code@ == code_chars(request.loket_type@, q.queue_number as nat),
            q.created_at@ == now.chars(),
            q.updated_at@ == now.chars(),
            q.date() == now.date(),
    {
        proof {
            lemma_date_chars_shape(now.year as nat, now.month as nat, now.day as nat);
            lemma_timestamp_chars_shape(
                now.year as nat,
                now.month as nat,
                now.day as nat,
                now.hour as nat,
                now.minute as nat,
                now.second as nat,
                now.milli as nat,
            );
        }
        let day = now.date_text();
        let count = self.count_for(&request.loket_type, &day);
        let number: i32 = (count as i32) + 1;
        let code = make_queue_code(request.loket_type.as_str(), number as u32);
        let q = Queue {
            id: self.next_id,
            loket_type: request.loket_type.clone(),
            queue_number: number,
            queue_code: code,
            patient_type: request.patient_type.clone(),
            status: String::from_str("waiting"),
            created_at: now.to_text(),
            updated_at: now.to_text(),
        };
        let result = clone_queue(&q);
        self.rows.push(q);
        self.next_id = self.next_id + 1;
        result
    }

    /// Today's counts at counters "A" and "B".
    pub fn get_queue_counts(&self, now: &Timestamp) -> (r: QueueCounts)
        requires
            self.wf(),
            now.wf(),
            self.rows@.len() < 0x7fff_ffff,
        ensures
            r.loket_a as int == count_matching(self.rows@, "A"@, now.date()),
            r.loket_b as int == count_matching(self.rows@, "B"@, now.date()),
    {
        proof {
            lemma_date_chars_shape(now.year as nat, now.month as nat, now.day as nat);
        }
        let day = now.date_text();
        let a = self.count_for(&String::from_str("A"), &day);
        let b = self.count_for(&String::from_str("B"), &day);
        QueueCounts { loket_a: a as i32, loket_b: b as i32 }
    }

    /// Deletes every row whose local calendar date is strictly before
    /// `cutoff`, leaving all other rows untouched and in order.
    pub fn clean_old_queues(&mut self, cutoff: &crate::clock::LocalDate)
        requires
            old(self).wf(),
            cutoff.wf(),
        ensures
            final(self).wf(),
            final(self).rows@ == swept(old(self).rows@, cutoff.chars()),
            final(self).next_id == old(self).next_id,
    {
        proof {
            lemma_date_chars_shape(cutoff.year as nat, cutoff.month as nat, cutoff.day as nat);
        }
        let cut = cutoff.text();
        let ghost pred = kept_pred(cutoff.chars());
        proof {
            reveal(Seq::filter);
            assert(self.rows@.take(0) =~= Seq::<Queue>::empty());
        }
        let mut kept_rows: Vec<Queue> = Vec::new();
        let mut i: usize = 0;
        while i < self.rows.len()
            invariant
                i <= self.rows@.len(),
                self.wf(),
                cut@ == cutoff.chars(),
                cut@.len() == 10,
                vstd::utf8::is_ascii_chars(cut@),
                pred == kept_pred(cutoff.chars()),
                kept_rows@ == self.rows@.take(i as int).filter(pred),
            decreases self.rows@.len() - i,
        {
            let q = &self.rows[i];
            let older = date_prefix_lt(q.created_at.as_str(), cut.as_str());
            proof {
                assert(self.rows@.take(i + 1) =~= self.rows@.take(i as int).push(
                    self.rows@[i as int],
                ));
                lemma_filter_push(self.rows@.take(i as int), self.rows@[i as int], pred);
                assert(pred(self.rows@[i as int]) == !older);
            }
            if !older {
                kept_rows.push(clone_queue(q));
            }
            i += 1;
        }
        proof {
            assert(self.rows@.take(self.rows@.len() as int) =~= self.rows@);
            lemma_filter_subset(self.rows@, pred);
            lemma_filter_ids_increasing(self.rows@, pred);
            assert forall|k: int| 0 <= k < kept_rows@.len() implies (#[trigger] kept_rows@[k]).wf()
                && kept_rows@[k].id < self.next_id by {
                assert(kept_rows@.contains(kept_rows@[k]));
                assert(self.rows@.contains(kept_rows@[k]));
                let m = choose|m: int| 0 <= m < self.rows@.len() && self.rows@[m] == kept_rows@[k];
            }
        }
        self.rows = kept_rows;
    }
}

} // verus!
