//! Bookkeeping around batches of transfers: retry back-off, tallies of
//! outcomes, and how a batch's results enter a transfer state.
use vstd::prelude::*;

use crate::arith::{lemma_pow2n_mono, lemma_pow2n_values, pow2n};
use crate::transfer_state::{
    clone_pairs, completed_after, pairs_view, remove_source, sat_add, same_but_updated, strs_view,
    TransferState, TransferStateView,
};

verus! {

/// The pause before retrying a file after its `attempts`-th failure:
/// 500 ms doubled for each earlier failure.
pub fn backoff_delay_ms(attempts: u32) -> (d: u64)
    requires
        1 <= attempts <= 56,
    ensures
        d == 500 * pow2n((attempts - 1) as nat),
{
    let mut d: u64 = 500;
    let mut i: u32 = 1;
    proof {
        lemma_pow2n_values();
    }
    while i < attempts
        invariant
            1 <= i <= attempts <= 56,
            d == 500 * pow2n((i - 1) as nat),
        decreases attempts - i,
    {
        proof {
            lemma_pow2n_mono(i as nat, 55);
            lemma_pow2n_values();
            assert(pow2n(i as nat) == 2 * pow2n((i - 1) as nat));
        }
        d = d * 2;
        i = i + 1;
    }
    d
}

/// Each further failure of the same file doubles the pause before its retry.
pub proof fn lemma_backoff_doubles(attempts: nat)
    requires
        1 <= attempts,
    ensures
        500 * pow2n(attempts) == 2 * (500 * pow2n((attempts - 1) as nat)),
{
    assert(pow2n(attempts) == 2 * pow2n((attempts - 1) as nat));
}

/// What a file transfer does after one of its attempts failed.
#[derive(Debug, Clone, Copy, PartialEq, Eq, Structural)]
pub enum RetryStep {
    /// Try the file again after pausing this many milliseconds.
    RetryAfter(u64),
    /// Stop: the file has failed for good.
    GiveUp,
}

/// The step after a failed attempt, when `failures` attempts (this one
/// included) have failed and `max_retries` retries are allowed: retry after
/// the back-off while the failures do not exceed the retries, else give up.
pub open spec fn spec_retry_step(failures: u32, max_retries: u32) -> RetryStep {
    if failures <= max_retries {
        RetryStep::RetryAfter((500 * pow2n((failures - 1) as nat)) as u64)
    } else {
        RetryStep::GiveUp
    }
}

/// Decides what a file transfer does after a failed attempt. `failures`
/// counts the failed attempts so far, this one included; a file is tried
/// at most `max_retries + 1` times.
pub fn retry_step(failures: u32, max_retries: u32) -> (r: RetryStep)
    requires
        1 <= failures,
        failures <= max_retries ==> failures <= 56,
    ensures
        r == spec_retry_step(failures, max_retries),
        failures <= max_retries ==> r == RetryStep::RetryAfter((500 * pow2n((failures - 1) as nat)) as u64),
        failures > max_retries ==> r == RetryStep::GiveUp,
{
    if failures <= max_retries {
        RetryStep::RetryAfter(backoff_delay_ms(failures))
    } else {
        RetryStep::GiveUp
    }
}

/// A file is attempted once more than it may be retried: after
/// `max_retries + 1` failures the step is to give up, and before that
/// every failure is followed by a retry.
pub proof fn lemma_attempts_bounded(failures: u32, max_retries: u32)
    requires
        1 <= failures,
    ensures
        spec_retry_step(failures, max_retries) is GiveUp <==> failures > max_retries,
{
}

/// The first retry of a file waits half a second.
pub proof fn lemma_first_retry_pause(max_retries: u32)
    requires
        1 <= max_retries,
    ensures
        spec_retry_step(1, max_retries) == RetryStep::RetryAfter(500),
{
}

/// Each further failure of a file doubles the pause before its next try:
/// when failures `k` and `k + 1` are both retried, the second pause is
/// twice the first.
pub proof fn lemma_retry_pause_doubles(k: u32, max_retries: u32)
    requires
        1 <= k,
        k + 1 <= max_retries,
        k + 1 <= 56,
    ensures
        spec_retry_step(k, max_retries) matches RetryStep::RetryAfter(d) && spec_retry_step(
            (k + 1) as u32,
            max_retries,
        ) == RetryStep::RetryAfter((2 * d) as u64) && 2 * d <= u64::MAX,
{
    lemma_pow2n_values();
    lemma_pow2n_mono((k - 1) as nat, 55);
    lemma_pow2n_mono(k as nat, 55);
    assert(pow2n(k as nat) == 2 * pow2n((k - 1) as nat));
}

/// Number of `true` entries in `s`.
pub open spec fn count_true(s: Seq<bool>) -> nat
    decreases s.len(),
{
    if s.len() == 0 {
        0
    } else {
        count_true(s.drop_last()) + if s.last() {
            1nat
        } else {
            0nat
        }
    }
}

proof fn lemma_count_true_bound(s: Seq<bool>)
    ensures
        count_true(s) <= s.len(),
    decreases s.len(),
{
    if s.len() > 0 {
        lemma_count_true_bound(s.drop_last());
    }
}

/// Successes and failures among the outcomes of a batch.
pub fn count_outcomes(oks: &Vec<bool>) -> (r: (u32, u32))
    requires
        oks@.len() <= u32::MAX,
    ensures
        r.0 == count_true(oks@),
        r.0 + r.1 == oks@.len(),
{
    let mut ok: u32 = 0;
    let mut failed: u32 = 0;
    for i in 0..oks.len()
        invariant
            oks@.len() <= u32::MAX,
            ok == count_true(oks@.subrange(0, i as int)),
            ok + failed == i,
    {
        assert(oks@.subrange(0, i + 1).drop_last() == oks@.subrange(0, i as int));
        if oks[i] {
            ok = ok + 1;
        } else {
            failed = failed + 1;
        }
    }
    assert(oks@.subrange(0, oks@.len() as int) == oks@);
    (ok, failed)
}

/// The pairs of a batch whose transfer failed, order kept.
pub open spec fn failed_pairs(r: Seq<(Seq<char>, Seq<char>, bool)>) -> Seq<(Seq<char>, Seq<char>)>
    decreases r.len(),
{
    if r.len() == 0 {
        Seq::empty()
    } else if r.last().2 {
        failed_pairs(r.drop_last())
    } else {
        failed_pairs(r.drop_last()).push((r.last().0, r.last().1))
    }
}

pub open spec fn results_view(r: Seq<(String, String, bool)>) -> Seq<(Seq<char>, Seq<char>, bool)> {
    r.map_values(|x: (String, String, bool)| (x.0@, x.1@, x.2))
}

/// The success flags of a batch's results.
pub open spec fn flags(r: Seq<(Seq<char>, Seq<char>, bool)>) -> Seq<bool> {
    r.map_values(|x: (Seq<char>, Seq<char>, bool)| x.2)
}

/// The failed tasks of a batch are exactly its failures: there are as many
/// as results that failed (all results but the successes), every failed
/// result's `(source, destination)` is among them, and each of them is a
/// failed result's.
pub proof fn lemma_failed_pairs(r: Seq<(Seq<char>, Seq<char>, bool)>)
    ensures
        failed_pairs(r).len() + count_true(flags(r)) == r.len(),
        forall|i: int| 0 <= i < r.len() && !(#[trigger] r[i]).2 ==> failed_pairs(r).contains((r[i].0, r[i].1)),
        forall|k: int| #![trigger failed_pairs(r)[k]] 0 <= k < failed_pairs(r).len() ==> exists|i: int|
            0 <= i < r.len() && !(#[trigger] r[i]).2 && (r[i].0, r[i].1) == failed_pairs(r)[k],
    decreases r.len(),
{
    if r.len() > 0 {
        let p = r.drop_last();
        lemma_failed_pairs(p);
        assert(flags(r).drop_last() =~= flags(p));
        let fp = failed_pairs(p);
        let fr = failed_pairs(r);
        assert forall|i: int| 0 <= i < r.len() && !(#[trigger] r[i]).2 implies fr.contains((r[i].0, r[i].1)) by {
            if i < r.len() - 1 {
                assert(p[i] == r[i]);
                let k = choose|k: int| 0 <= k < fp.len() && fp[k] == (p[i].0, p[i].1);
                assert(fr[k] == fp[k]);
            } else {
                assert(fr[fr.len() - 1] == (r[i].0, r[i].1));
            }
        }
        assert forall|k: int| #![trigger fr[k]] 0 <= k < fr.len() implies exists|i: int|
            0 <= i < r.len() && !(#[trigger] r[i]).2 && (r[i].0, r[i].1) == fr[k] by {
            if k < fp.len() {
                assert(fr[k] == fp[k]);
                let i = choose|i: int| 0 <= i < p.len() && !(#[trigger] p[i]).2 && (p[i].0, p[i].1) == fp[k];
                assert(r[i] == p[i]);
            } else {
                assert(!r[r.len() - 1].2);
            }
        }
    }
}

/// Successes, failures, and the failed `(source, destination)` pairs of a
/// batch of transfers with retries.
pub fn split_outcomes(results: Vec<(String, String, bool)>) -> (r: (u32, u32, Vec<(String, String)>))
    requires
        results@.len() <= u32::MAX,
    ensures
        r.0 + r.1 == results@.len(),
        r.1 == r.2@.len(),
        pairs_view(r.2@) == failed_pairs(results_view(results@)),
        r.0 == count_true(flags(results_view(results@))),
        forall|i: int| 0 <= i < results@.len() && !(#[trigger] results@[i]).2 ==> pairs_view(r.2@).contains(
            (results@[i].0@, results@[i].1@),
        ),
{
    let mut ok: u32 = 0;
    let mut failed: u32 = 0;
    let mut failed_tasks: Vec<(String, String)> = Vec::new();
    for i in 0..results.len()
        invariant
            results@.len() <= u32::MAX,
            ok + failed == i,
            failed == failed_tasks@.len(),
            pairs_view(failed_tasks@) == failed_pairs(results_view(results@).subrange(0, i as int)),
    {
        assert(results_view(results@).subrange(0, i + 1).drop_last() == results_view(
            results@,
        ).subrange(0, i as int));
        if results[i].2 {
            ok = ok + 1;
        } else {
            failed = failed + 1;
            failed_tasks.push((results[i].0.clone(), results[i].1.clone()));
            assert(pairs_view(failed_tasks@) == pairs_view(failed_tasks@).drop_last().push(
                pairs_view(failed_tasks@).last(),
            ));
        }
    }
    assert(results_view(results@).subrange(0, results@.len() as int) == results_view(results@));
    proof {
        let rv = results_view(results@);
        lemma_failed_pairs(rv);
        assert forall|i: int| 0 <= i < results@.len() && !(#[trigger] results@[i]).2 implies pairs_view(
            failed_tasks@,
        ).contains((results@[i].0@, results@[i].1@)) by {
            assert(rv[i] == (results@[i].0@, results@[i].1@, results@[i].2));
        }
    }
    (ok, failed, failed_tasks)
}

/// Sum of `s`.
pub open spec fn sum_u64(s: Seq<u64>) -> nat
    decreases s.len(),
{
    if s.len() == 0 {
        0
    } else {
        sum_u64(s.drop_last()) + (s.last() as nat)
    }
}

/// The total size of a batch of files.
pub fn total_size(sizes: &Vec<u64>) -> (t: u64)
    requires
        sum_u64(sizes@) <= u64::MAX,
    ensures
        t == sum_u64(sizes@),
{
    let mut t: u64 = 0;
    for i in 0..sizes.len()
        invariant
            sum_u64(sizes@) <= u64::MAX,
            t == sum_u64(sizes@.subrange(0, i as int)),
    {
        assert(sizes@.subrange(0, i + 1).drop_last() == sizes@.subrange(0, i as int));
        proof {
            lemma_sum_prefix_le(sizes@, i + 1);
        }
        t = t + sizes[i];
    }
    assert(sizes@.subrange(0, sizes@.len() as int) == sizes@);
    t
}

proof fn lemma_sum_prefix_le(s: Seq<u64>, n: int)
    requires
        0 <= n <= s.len(),
    ensures
        sum_u64(s.subrange(0, n)) <= sum_u64(s),
    decreases s.len(),
{
    if n < s.len() {
        assert(s.drop_last().subrange(0, n) == s.subrange(0, n));
        lemma_sum_prefix_le(s.drop_last(), n);
    } else {
        assert(s.subrange(0, n) == s);
    }
}

/// The state after recording one outcome: completed with its size, or failed.
pub open spec fn record_one(v: TransferStateView, path: Seq<char>, size: u64, ok: bool) -> TransferStateView {
    if ok {
        TransferStateView {
            pending: remove_source(v.pending, path),
            completed: completed_after(v.completed, path),
            transferred_bytes: if v.completed.contains(path) {
                v.transferred_bytes
            } else {
                sat_add(v.transferred_bytes, size)
            },
            ..v
        }
    } else {
        TransferStateView {
            pending: remove_source(v.pending, path),
            failed: completed_after(v.failed, path),
            ..v
        }
    }
}

/// The state after recording a batch of outcomes in order (the last-update
/// time aside).
pub open spec fn record_all(v: TransferStateView, r: Seq<(Seq<char>, u64, bool)>) -> TransferStateView
    decreases r.len(),
{
    if r.len() == 0 {
        v
    } else {
        let w = record_all(v, r.drop_last());
        record_one(w, r.last().0, r.last().1, r.last().2)
    }
}

pub open spec fn outcomes_view(r: Seq<(String, u64, bool)>) -> Seq<(Seq<char>, u64, bool)> {
    r.map_values(|x: (String, u64, bool)| (x.0@, x.1, x.2))
}

pub open spec fn outcome_oks(r: Seq<(String, u64, bool)>) -> Seq<bool> {
    r.map_values(|x: (String, u64, bool)| x.2)
}

impl TransferState {
    /// Records the outcomes of a batch, `(path, size, ok)` each, in order:
    /// a success marks the file completed with its size, a failure marks it
    /// failed. Returns how many succeeded and how many failed.
    pub fn record_outcomes(&mut self, results: &Vec<(String, u64, bool)>) -> (r: (u32, u32))
        requires
            results@.len() <= u32::MAX,
        ensures
            same_but_updated(record_all(old(self)@, outcomes_view(results@)), final(self)@),
            r.0 == count_true(outcome_oks(results@)),
            r.0 + r.1 == results@.len(),
    {
        let mut ok: u32 = 0;
        let mut failed: u32 = 0;
        let ghost v0 = self@;
        for i in 0..results.len()
            invariant
                results@.len() <= u32::MAX,
                same_but_updated(
                    record_all(v0, outcomes_view(results@).subrange(0, i as int)),
                    self@,
                ),
                ok == count_true(outcome_oks(results@).subrange(0, i as int)),
                ok + failed == i,
        {
            assert(outcomes_view(results@).subrange(0, i + 1).drop_last() == outcomes_view(
                results@,
            ).subrange(0, i as int));
            assert(outcome_oks(results@).subrange(0, i + 1).drop_last() == outcome_oks(
                results@,
            ).subrange(0, i as int));
            if results[i].2 {
                self.mark_completed(results[i].0.as_str(), results[i].1);
                ok = ok + 1;
            } else {
                self.mark_failed(results[i].0.as_str());
                failed = failed + 1;
            }
        }
        assert(outcomes_view(results@).subrange(0, results@.len() as int) == outcomes_view(
            results@,
        ));
        assert(outcome_oks(results@).subrange(0, results@.len() as int) == outcome_oks(results@));
        (ok, failed)
    }

    /// Merges the state of a resumed run into this one: its completed and
    /// failed files join (each once), its pending list replaces this one, and
    /// its transferred bytes add up.
    pub fn merge_resumed(&mut self, resumed: &TransferState)
        requires
            old(self).transferred_bytes + resumed.transferred_bytes <= u64::MAX,
        ensures
            final(self)@ == (TransferStateView {
                completed: union_in_order(old(self)@.completed, resumed@.completed),
                failed: union_in_order(old(self)@.failed, resumed@.failed),
                pending: resumed@.pending,
                transferred_bytes: (old(self)@.transferred_bytes + resumed@.transferred_bytes) as u64,
                ..old(self)@
            }),
    {
        let ghost v0 = self@;
        let ghost c0 = self@.completed;
        for i in 0..resumed.completed_files.len()
            invariant
                v0.transferred_bytes + resumed.transferred_bytes <= u64::MAX,
                self@ == (TransferStateView { completed: self@.completed, ..v0 }),
                strs_view(self.completed_files@) == union_in_order(
                    c0,
                    strs_view(resumed.completed_files@).subrange(0, i as int),
                ),
        {
            assert(strs_view(resumed.completed_files@).subrange(0, i + 1).drop_last() == strs_view(
                resumed.completed_files@,
            ).subrange(0, i as int));
            let f = resumed.completed_files[i].clone();
            if !contains_string(&self.completed_files, &f) {
                self.completed_files.push(f);
                assert(strs_view(self.completed_files@) == strs_view(self.completed_files@).drop_last().push(
                    resumed.completed_files@[i as int]@,
                ));
            }
        }
        assert(strs_view(resumed.completed_files@).subrange(0, resumed.completed_files@.len() as int)
            == strs_view(resumed.completed_files@));
        let ghost f0 = self@.failed;
        let ghost v1 = self@;
        for i in 0..resumed.failed_files.len()
            invariant
                v0.transferred_bytes + resumed.transferred_bytes <= u64::MAX,
                v1.transferred_bytes == v0.transferred_bytes,
                self@ == (TransferStateView { failed: self@.failed, ..v1 }),
                strs_view(self.failed_files@) == union_in_order(
                    f0,
                    strs_view(resumed.failed_files@).subrange(0, i as int),
                ),
        {
            assert(strs_view(resumed.failed_files@).subrange(0, i + 1).drop_last() == strs_view(
                resumed.failed_files@,
            ).subrange(0, i as int));
            let f = resumed.failed_files[i].clone();
            if !contains_string(&self.failed_files, &f) {
                self.failed_files.push(f);
                assert(strs_view(self.failed_files@) == strs_view(self.failed_files@).drop_last().push(
                    resumed.failed_files@[i as int]@,
                ));
            }
        }
        assert(strs_view(resumed.failed_files@).subrange(0, resumed.failed_files@.len() as int)
            == strs_view(resumed.failed_files@));
        self.pending_files = clone_pairs(&resumed.pending_files);
        self.transferred_bytes = self.transferred_bytes + resumed.transferred_bytes;
    }
}

/// `a` followed by the elements of `b` not yet present, each added once, in order.
pub open spec fn union_in_order(a: Seq<Seq<char>>, b: Seq<Seq<char>>) -> Seq<Seq<char>>
    decreases b.len(),
{
    if b.len() == 0 {
        a
    } else {
        let u = union_in_order(a, b.drop_last());
        completed_after(u, b.last())
    }
}

fn contains_string(v: &Vec<String>, s: &String) -> (b: bool)
    ensures
        b == strs_view(v@).contains(s@),
{
    for i in 0..v.len()
        invariant
            forall|j: int| 0 <= j < i ==> strs_view(v@)[j] != s@,
    {
        if v[i] == *s {
            assert(strs_view(v@)[i as int] == s@);
            return true;
        }
    }
    false
}

} // verus!
