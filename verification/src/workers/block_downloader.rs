//! The block download scheduler. One tick samples peers, settles on the
//! statistical mode of their reported cumulative difficulties, keeps the
//! peers that reported it, and drives an ordered queue of batch
//! downloads whose results leave strictly in ascending start height.

use vstd::prelude::*;

use crate::models::p2p::CumulativeDifficulty;
use crate::models::p2p::PeerAddress;

verus! {

/// Most outstanding download jobs within one tick.
pub const MAX_INFLIGHT: usize = 8;

/// Blocks per download batch.
pub const DOWNLOAD_BATCH_BLOCKS: u32 = 10;

/// Peers sampled for the consensus phase.
pub const CONSENSUS_SAMPLE_SIZE: u32 = 15;

/// A job is given up after this many retries.
pub const DOWNLOAD_RETRY_LIMIT: u32 = 3;

/// One peer's reported cumulative difficulty.
#[derive(Debug)]
pub struct CumulativeDifficultyObservation {
    pub peer: PeerAddress,
    pub value: CumulativeDifficulty,
}

/// Number of times the digit string `v` occurs in `s`.
pub open spec fn value_occurrences(s: Seq<Seq<u8>>, v: Seq<u8>) -> nat
    decreases s.len(),
{
    if s.len() == 0 {
        0
    } else {
        (if s.last() == v {
            1nat
        } else {
            0nat
        }) + value_occurrences(s.drop_last(), v)
    }
}

/// `v` occurs strictly more often in `s` than every other value.
pub open spec fn is_unique_value_mode(s: Seq<Seq<u8>>, v: Seq<u8>) -> bool {
    s.contains(v) && forall|w: Seq<u8>|
        w != v ==> value_occurrences(s, w) < value_occurrences(s, v)
}

/// The reported difficulty values, in sample order.
pub open spec fn observed_values(obs: Seq<CumulativeDifficultyObservation>) -> Seq<Seq<u8>> {
    Seq::new(obs.len(), |i: int| obs[i].value.digits@)
}

proof fn lemma_value_occurrences_pos_iff_contains(s: Seq<Seq<u8>>, v: Seq<u8>)
    ensures
        value_occurrences(s, v) > 0 <==> s.contains(v),
    decreases s.len(),
{
    if s.len() > 0 {
        lemma_value_occurrences_pos_iff_contains(s.drop_last(), v);
        if s.last() == v {
            assert(s[s.len() - 1] == v);
        } else {
            if s.contains(v) {
                let i = choose|i: int| 0 <= i < s.len() && s[i] == v;
                assert(s.drop_last()[i] == v);
            }
            if s.drop_last().contains(v) {
                let i = choose|i: int| 0 <= i < s.drop_last().len() && s.drop_last()[i] == v;
                assert(s[i] == v);
            }
        }
    }
}

fn count_value_matches(obs: &Vec<CumulativeDifficultyObservation>, v: &CumulativeDifficulty) -> (c:
    usize)
    ensures
        c == value_occurrences(observed_values(obs@), v.digits@),
{
    let ghost vals = observed_values(obs@);
    let mut c: usize = 0;
    let n: usize = obs.len();
    let mut i: usize = 0;
    while i < n
        invariant
            n == obs@.len(),
            i <= n,
            vals == observed_values(obs@),
            vals.len() == n,
            forall|j: int| 0 <= j < n ==> vals[j] == (#[trigger] obs@[j]).value.digits@,
            c == value_occurrences(vals.subrange(0, i as int), v.digits@),
            c <= i,
        decreases n - i,
    {
        proof {
            assert(vals.subrange(0, i + 1).drop_last() =~= vals.subrange(0, i as int));
            assert(vals.subrange(0, i + 1).last() == vals[i as int]);
        }
        if obs[i].value == *v {
            c = c + 1;
        }
        i = i + 1;
    }
    proof {
        assert(vals.subrange(0, n as int) =~= vals);
    }
    c
}

/// The strictly most frequent reported difficulty, or `None` when the
/// sample is empty or two values tie for the highest frequency — the
/// tick then ends without downloading.
pub fn consensus_target(observations: &Vec<CumulativeDifficultyObservation>) -> (r: Option<
    CumulativeDifficulty,
>)
    ensures
        match r {
            Some(cd) => is_unique_value_mode(observed_values(observations@), cd.digits@),
            None => forall|v: Seq<u8>| !is_unique_value_mode(observed_values(observations@), v),
        },
{
    let ghost vals = observed_values(observations@);
    let n: usize = observations.len();
    if n == 0 {
        proof {
            assert forall|v: Seq<u8>| !is_unique_value_mode(vals, v) by {
                if vals.contains(v) {
                    let i = choose|i: int| 0 <= i < vals.len() && vals[i] == v;
                }
            }
        }
        return None;
    }
    let mut best: usize = 0;
    let mut best_c: usize = count_value_matches(observations, &observations[0].value);
    let mut i: usize = 1;
    while i < n
        invariant
            n == observations@.len(),
            n >= 1,
            vals == observed_values(observations@),
            vals.len() == n,
            forall|j: int| 0 <= j < n ==> vals[j] == (#[trigger] observations@[j]).value.digits@,
            best < n,
            best_c == value_occurrences(vals, vals[best as int]),
            forall|j: int| 0 <= j < i ==> value_occurrences(vals, #[trigger] vals[j]) <= best_c,
        decreases n - i,
    {
        let c = count_value_matches(observations, &observations[i].value);
        if c > best_c {
            best = i;
            best_c = c;
        }
        i = i + 1;
    }
    proof {
        assert forall|w: Seq<u8>| #[trigger] value_occurrences(vals, w) <= best_c by {
            lemma_value_occurrences_pos_iff_contains(vals, w);
            if value_occurrences(vals, w) > 0 {
                let j = choose|j: int| 0 <= j < vals.len() && vals[j] == w;
                assert(value_occurrences(vals, vals[j]) <= best_c);
            }
        }
    }
    let ghost best_v = vals[best as int];
    let mut tie = false;
    let mut k: usize = 0;
    while k < n
        invariant
            n == observations@.len(),
            vals == observed_values(observations@),
            vals.len() == n,
            forall|j: int| 0 <= j < n ==> vals[j] == (#[trigger] observations@[j]).value.digits@,
            best < n,
            best_v == vals[best as int],
            best_c == value_occurrences(vals, best_v),
            forall|w: Seq<u8>| #[trigger] value_occurrences(vals, w) <= best_c,
            tie <==> exists|j: int|
                0 <= j < k && vals[j] != best_v && value_occurrences(vals, #[trigger] vals[j])
                    == best_c,
        decreases n - k,
    {
        if !(observations[k].value == observations[best].value) {
            let c = count_value_matches(observations, &observations[k].value);
            if c == best_c {
                tie = true;
            }
        }
        k = k + 1;
    }
    if tie {
        proof {
            let j = choose|j: int|
                0 <= j < vals.len() && vals[j] != best_v && value_occurrences(
                    vals,
                    #[trigger] vals[j],
                ) == best_c;
            assert forall|v: Seq<u8>| !is_unique_value_mode(vals, v) by {
                if is_unique_value_mode(vals, v) {
                    if v == best_v {
                        assert(value_occurrences(vals, vals[j]) < value_occurrences(vals, v));
                    } else {
                        assert(value_occurrences(vals, best_v) < value_occurrences(vals, v));
                        assert(value_occurrences(vals, v) <= best_c);
                    }
                }
            }
        }
        None
    } else {
        proof {
            assert(vals.contains(best_v));
            lemma_value_occurrences_pos_iff_contains(vals, best_v);
            assert forall|w: Seq<u8>| w != best_v implies value_occurrences(vals, w)
                < value_occurrences(vals, best_v) by {
                lemma_value_occurrences_pos_iff_contains(vals, w);
                if value_occurrences(vals, w) == best_c {
                    let j = choose|j: int| 0 <= j < vals.len() && vals[j] == w;
                    assert(vals[j] != best_v && value_occurrences(vals, vals[j]) == best_c);
                }
            }
        }
        Some(observations[best].value.clone())
    }
}

/// `a` is the peer of some observation that reported exactly `target`.
pub open spec fn reported_target(
    obs: Seq<CumulativeDifficultyObservation>,
    a: PeerAddress,
    target: Seq<u8>,
) -> bool {
    exists|i: int|
        #![trigger obs[i]]
        0 <= i < obs.len() && obs[i].value.digits@ == target && a == obs[i].peer
}

/// The peers that reported exactly `target`, in sample order.
pub open spec fn spec_reporters(
    obs: Seq<CumulativeDifficultyObservation>,
    target: Seq<u8>,
) -> Seq<PeerAddress>
    decreases obs.len(),
{
    if obs.len() == 0 {
        Seq::empty()
    } else {
        let pre = spec_reporters(obs.drop_last(), target);
        if obs.last().value.digits@ == target {
            pre.push(obs.last().peer)
        } else {
            pre
        }
    }
}

/// The peers whose reported difficulty equals `target`, in sample order —
/// the download candidates of this tick.
pub fn download_candidates(
    observations: &Vec<CumulativeDifficultyObservation>,
    target: &CumulativeDifficulty,
) -> (r: Vec<PeerAddress>)
    ensures
        r@ == spec_reporters(observations@, target.digits@),
        r@.len() == value_occurrences(observed_values(observations@), target.digits@),
        forall|k: int|
            0 <= k < r@.len() ==> reported_target(observations@, #[trigger] r@[k], target.digits@),
        forall|i: int|
            0 <= i < observations@.len() && (#[trigger] observations@[i]).value.digits@
                == target.digits@ ==> exists|k: int|
                0 <= k < r@.len() && r@[k] == observations@[i].peer,
{
    let ghost vals = observed_values(observations@);
    let mut out: Vec<PeerAddress> = Vec::new();
    let n: usize = observations.len();
    let mut i: usize = 0;
    while i < n
        invariant
            n == observations@.len(),
            i <= n,
            vals == observed_values(observations@),
            vals.len() == n,
            forall|j: int| 0 <= j < n ==> vals[j] == (#[trigger] observations@[j]).value.digits@,
            out@ == spec_reporters(observations@.subrange(0, i as int), target.digits@),
            out@.len() == value_occurrences(vals.subrange(0, i as int), target.digits@),
            forall|k: int|
                0 <= k < out@.len() ==> reported_target(
                    observations@,
                    #[trigger] out@[k],
                    target.digits@,
                ),
            forall|x: int|
                0 <= x < i && (#[trigger] observations@[x]).value.digits@ == target.digits@
                    ==> exists|k: int| 0 <= k < out@.len() && out@[k] == observations@[x].peer,
        decreases n - i,
    {
        proof {
            assert(vals.subrange(0, i + 1).drop_last() =~= vals.subrange(0, i as int));
            assert(vals.subrange(0, i + 1).last() == vals[i as int]);
            assert(observations@.subrange(0, i + 1).drop_last() =~= observations@.subrange(
                0,
                i as int,
            ));
            assert(observations@.subrange(0, i + 1).last() == observations@[i as int]);
        }
        if observations[i].value == *target {
            let ghost old_out = out@;
            out.push(observations[i].peer.clone());
            proof {
                assert(out@[old_out.len() as int] == observations@[i as int].peer);
                assert(forall|k: int| 0 <= k < old_out.len() ==> out@[k] == old_out[k]);
                assert(out@ =~= old_out.push(observations@[i as int].peer));
            }
        }
        i = i + 1;
    }
    proof {
        assert(vals.subrange(0, n as int) =~= vals);
        assert(observations@.subrange(0, n as int) =~= observations@);
        assert forall|k: int| 0 <= k < out@.len() implies reported_target(
            observations@,
            #[trigger] out@[k],
            target.digits@,
        ) by {
            let ghost picked = out@[k];
        }
    }
    out
}

/// One batch download to run against one peer.
#[derive(Debug)]
pub struct DownloadJob {
    pub peer: PeerAddress,
    pub start_height: u64,
    pub number_of_blocks: u32,
    pub retries: u32,
}

/// The job again after one more failed attempt.
pub open spec fn retried_job(j: DownloadJob) -> DownloadJob {
    DownloadJob { retries: (j.retries + 1) as u32, ..j }
}

/// Plans this tick's jobs: one batch per candidate peer, at most
/// `MAX_INFLIGHT`, at consecutive batch-sized start heights.
pub fn plan_download_jobs(candidates: &Vec<PeerAddress>, start_height: u64, number_of_blocks: u32)
    -> (jobs: Vec<DownloadJob>)
    requires
        number_of_blocks >= 1,
        start_height <= u64::MAX - (MAX_INFLIGHT as u64) * (number_of_blocks as u64),
    ensures
        jobs@.len() == (if candidates@.len() <= MAX_INFLIGHT as int {
            candidates@.len() as int
        } else {
            MAX_INFLIGHT as int
        }),
        forall|k: int|
            #![trigger jobs@[k]]
            0 <= k < jobs@.len() ==> {
                &&& jobs@[k].peer == candidates@[k]
                &&& jobs@[k].start_height == start_height + k * number_of_blocks
                &&& jobs@[k].number_of_blocks == number_of_blocks
                &&& jobs@[k].retries == 0
            },
        forall|k1: int, k2: int|
            0 <= k1 < k2 < jobs@.len() ==> jobs@[k1].start_height < jobs@[k2].start_height,
{
    let n: usize = candidates.len();
    let take: usize = if n < MAX_INFLIGHT {
        n
    } else {
        MAX_INFLIGHT
    };
    let mut jobs: Vec<DownloadJob> = Vec::new();
    let mut k: usize = 0;
    while k < take
        invariant
            take <= MAX_INFLIGHT,
            take <= candidates@.len(),
            k <= take,
            number_of_blocks >= 1,
            start_height <= u64::MAX - (MAX_INFLIGHT as u64) * (number_of_blocks as u64),
            jobs@.len() == k,
            forall|j: int|
                #![trigger jobs@[j]]
                0 <= j < k ==> {
                    &&& jobs@[j].peer == candidates@[j]
                    &&& jobs@[j].start_height == start_height + j * number_of_blocks
                    &&& jobs@[j].number_of_blocks == number_of_blocks
                    &&& jobs@[j].retries == 0
                },
        decreases take - k,
    {
        proof {
            assert((k as u64) * (number_of_blocks as u64) <= (MAX_INFLIGHT as u64) * (
            number_of_blocks as u64)) by (nonlinear_arith)
                requires
                    k <= MAX_INFLIGHT,
            ;
        }
        let height: u64 = start_height + (k as u64) * (number_of_blocks as u64);
        jobs.push(
            DownloadJob {
                peer: candidates[k].clone(),
                start_height: height,
                number_of_blocks,
                retries: 0,
            },
        );
        k = k + 1;
    }
    proof {
        assert forall|k1: int, k2: int|
            0 <= k1 < k2 < jobs@.len() implies jobs@[k1].start_height
            < jobs@[k2].start_height by {
            assert((k1 * number_of_blocks) < (k2 * number_of_blocks)) by (nonlinear_arith)
                requires
                    k1 < k2,
                    number_of_blocks >= 1,
            ;
        }
    }
    jobs
}

/// The ordered work queue of one tick: the front job is awaited first,
/// and start heights grow strictly towards the back.
#[derive(Debug)]
pub struct DownloadQueue {
    pub jobs: Vec<DownloadJob>,
}

/// What one queue step decides.
#[derive(Debug)]
pub enum DownloadStep {
    /// The front job finished; hand its batch to the ingestor.
    Delivered(DownloadJob),
    /// The front job failed and went back to the front for another try.
    Requeued,
    /// The front job ran out of retries; the tick is abandoned.
    Aborted,
}

impl DownloadQueue {
    /// Start heights grow strictly from front to back.
    pub open spec fn wf(&self) -> bool {
        forall|i: int, j: int|
            0 <= i < j < self.jobs@.len() ==> (#[trigger] self.jobs@[i]).start_height < (
            #[trigger] self.jobs@[j]).start_height
    }

    pub fn new(jobs: Vec<DownloadJob>) -> (r: DownloadQueue)
        requires
            forall|i: int, j: int|
                0 <= i < j < jobs@.len() ==> (#[trigger] jobs@[i]).start_height < (
                #[trigger] jobs@[j]).start_height,
        ensures
            r.jobs@ == jobs@,
            r.wf(),
    {
        DownloadQueue { jobs }
    }

    pub fn len(&self) -> (r: usize)
        ensures
            r == self.jobs@.len(),
    {
        self.jobs.len()
    }

    /// The job to await next, if any.
    pub fn front(&self) -> (r: Option<&DownloadJob>)
        ensures
            match r {
                Some(j) => self.jobs@.len() > 0 && *j == self.jobs@[0],
                None => self.jobs@.len() == 0,
            },
    {
        if self.jobs.len() == 0 {
            None
        } else {
            Some(&self.jobs[0])
        }
    }

    /// Settles the front job after its await: a finished job leaves the
    /// queue for delivery — with a start height below everything still
    /// queued —, a failed one retries at the front until its retries
    /// exceed the limit, which abandons the whole tick.
    pub fn step(&mut self, front_succeeded: bool) -> (action: DownloadStep)
        requires
            old(self).wf(),
            old(self).jobs@.len() > 0,
        ensures
            final(self).wf(),
            front_succeeded ==> (action matches DownloadStep::Delivered(j) && j == old(
                self,
            ).jobs@[0] && final(self).jobs@ == old(self).jobs@.drop_first() && forall|m: int|
                0 <= m < final(self).jobs@.len() ==> j.start_height < (
                #[trigger] final(self).jobs@[m]).start_height),
            !front_succeeded && old(self).jobs@[0].retries >= DOWNLOAD_RETRY_LIMIT ==> action is
                Aborted && final(self).jobs@.len() == 0,
            !front_succeeded && old(self).jobs@[0].retries < DOWNLOAD_RETRY_LIMIT ==> action is
                Requeued && final(self).jobs@ == old(self).jobs@.update(
                0,
                retried_job(old(self).jobs@[0]),
            ),
    {
        if front_succeeded {
            let j = self.jobs.remove(0);
            proof {
                assert(self.jobs@ =~= old(self).jobs@.drop_first());
                assert forall|m: int| 0 <= m < self.jobs@.len() implies j.start_height < (
                #[trigger] self.jobs@[m]).start_height by {
                    assert(self.jobs@[m] == old(self).jobs@[m + 1]);
                }
            }
            DownloadStep::Delivered(j)
        } else {
            let r = self.jobs[0].retries;
            if r >= DOWNLOAD_RETRY_LIMIT {
                self.jobs.clear();
                DownloadStep::Aborted
            } else {
                self.jobs[0].retries = r + 1;
                proof {
                    assert(self.jobs@ =~= old(self).jobs@.update(
                        0,
                        retried_job(old(self).jobs@[0]),
                    ));
                }
                DownloadStep::Requeued
            }
        }
    }
}

/// `j` runs one of the batches planned in `q`: same peer, same start
/// height, same batch size.
pub open spec fn job_planned_in(q: Seq<DownloadJob>, j: DownloadJob) -> bool {
    exists|m: int|
        #![trigger q[m]]
        0 <= m < q.len() && q[m].peer == j.peer && q[m].start_height == j.start_height
            && q[m].number_of_blocks == j.number_of_blocks
}

/// The fold of the queue's step discipline over an outcome script, front
/// to back: a success delivers the front job, a failure below the retry
/// limit retries it in place, one at the limit aborts with the rest
/// discarded, and the run stops when the queue or the script is spent.
/// Yields the delivered jobs, what is left queued, and the abort flag.
pub open spec fn spec_queue_run(jobs: Seq<DownloadJob>, outcomes: Seq<bool>) -> (
    Seq<DownloadJob>,
    Seq<DownloadJob>,
    bool,
)
    decreases outcomes.len(),
{
    if outcomes.len() == 0 || jobs.len() == 0 {
        (Seq::empty(), jobs, false)
    } else if outcomes[0] {
        let rest = spec_queue_run(jobs.drop_first(), outcomes.drop_first());
        (seq![jobs[0]] + rest.0, rest.1, rest.2)
    } else if jobs[0].retries >= DOWNLOAD_RETRY_LIMIT {
        (Seq::empty(), Seq::empty(), true)
    } else {
        spec_queue_run(jobs.update(0, retried_job(jobs[0])), outcomes.drop_first())
    }
}

/// Drives one tick's queue over a script of front-job outcomes, in
/// order: the result is exactly the fold `spec_queue_run` of the step
/// discipline, so delivered batches leave strictly ascending in start
/// height — jobs behind a failing front job wait — and a job that runs
/// out of retries abandons the tick and discards what was still queued.
pub fn process_download_queue(queue: &mut DownloadQueue, outcomes: &Vec<bool>) -> (r: (
    Vec<DownloadJob>,
    bool,
))
    requires
        old(queue).wf(),
    ensures
        final(queue).wf(),
        r.0@ == spec_queue_run(old(queue).jobs@, outcomes@).0,
        final(queue).jobs@ == spec_queue_run(old(queue).jobs@, outcomes@).1,
        r.1 == spec_queue_run(old(queue).jobs@, outcomes@).2,
        forall|k1: int, k2: int|
            0 <= k1 < k2 < r.0@.len() ==> (#[trigger] r.0@[k1]).start_height < (
            #[trigger] r.0@[k2]).start_height,
        forall|k: int|
            0 <= k < r.0@.len() ==> job_planned_in(old(queue).jobs@, #[trigger] r.0@[k]),
        r.1 ==> final(queue).jobs@.len() == 0 && r.0@.len() < old(queue).jobs@.len(),
        !r.1 ==> r.0@.len() + final(queue).jobs@.len() == old(queue).jobs@.len(),
{
    let mut delivered: Vec<DownloadJob> = Vec::new();
    let n: usize = outcomes.len();
    let mut i: usize = 0;
    proof {
        assert(outcomes@.subrange(0, n as int) =~= outcomes@);
    }
    while i < n
        invariant
            n == outcomes@.len(),
            i <= n,
            queue.wf(),
            ({
                let rest = spec_queue_run(queue.jobs@, outcomes@.subrange(i as int, n as int));
                &&& spec_queue_run(old(queue).jobs@, outcomes@).0 == delivered@ + rest.0
                &&& spec_queue_run(old(queue).jobs@, outcomes@).1 == rest.1
                &&& spec_queue_run(old(queue).jobs@, outcomes@).2 == rest.2
            }),
            delivered@.len() + queue.jobs@.len() == old(queue).jobs@.len(),
            forall|k: int|
                0 <= k < delivered@.len() ==> job_planned_in(
                    old(queue).jobs@,
                    #[trigger] delivered@[k],
                ),
            forall|m: int|
                0 <= m < queue.jobs@.len() ==> job_planned_in(
                    old(queue).jobs@,
                    #[trigger] queue.jobs@[m],
                ),
            forall|k1: int, k2: int|
                0 <= k1 < k2 < delivered@.len() ==> (#[trigger] delivered@[k1]).start_height < (
                #[trigger] delivered@[k2]).start_height,
            forall|k: int, m: int|
                0 <= k < delivered@.len() && 0 <= m < queue.jobs@.len() ==> (
                #[trigger] delivered@[k]).start_height < (
                #[trigger] queue.jobs@[m]).start_height,
        decreases n - i,
    {
        let ghost tail = outcomes@.subrange(i as int, n as int);
        if queue.len() == 0 {
            proof {
                assert(spec_queue_run(queue.jobs@, tail) == (
                    Seq::<DownloadJob>::empty(),
                    queue.jobs@,
                    false,
                ));
                assert(delivered@ + Seq::<DownloadJob>::empty() =~= delivered@);
            }
            return (delivered, false);
        }
        proof {
            assert(tail.len() == n - i);
            assert(tail[0] == outcomes@[i as int]);
            assert(tail.drop_first() =~= outcomes@.subrange(i + 1, n as int));
        }
        let ghost pre = *queue;
        let action = queue.step(outcomes[i]);
        match action {
            DownloadStep::Delivered(j) => {
                proof {
                    assert(j == pre.jobs@[0]);
                    assert(queue.jobs@ == pre.jobs@.drop_first());
                    let rest = spec_queue_run(queue.jobs@, tail.drop_first());
                    assert(spec_queue_run(pre.jobs@, tail) == (
                        seq![pre.jobs@[0]] + rest.0,
                        rest.1,
                        rest.2,
                    ));
                    assert(delivered@.push(j) + rest.0 =~= delivered@ + (seq![j] + rest.0));
                    assert(job_planned_in(old(queue).jobs@, j));
                    assert forall|m: int| 0 <= m < queue.jobs@.len() implies job_planned_in(
                        old(queue).jobs@,
                        #[trigger] queue.jobs@[m],
                    ) by {
                        assert(queue.jobs@[m] == pre.jobs@[m + 1]);
                    }
                    assert forall|k: int| 0 <= k < delivered@.len() implies (
                    #[trigger] delivered@[k]).start_height < j.start_height by {
                        assert(delivered@[k].start_height < pre.jobs@[0].start_height);
                    }
                }
                delivered.push(j);
            },
            DownloadStep::Requeued => {
                proof {
                    assert(pre.jobs@[0].retries < DOWNLOAD_RETRY_LIMIT);
                    assert(queue.jobs@ == pre.jobs@.update(0, retried_job(pre.jobs@[0])));
                    assert(spec_queue_run(pre.jobs@, tail) == spec_queue_run(
                        queue.jobs@,
                        tail.drop_first(),
                    ));
                    assert forall|m: int| 0 <= m < queue.jobs@.len() implies job_planned_in(
                        old(queue).jobs@,
                        #[trigger] queue.jobs@[m],
                    ) by {
                        if m == 0 {
                            assert(queue.jobs@[0] == retried_job(pre.jobs@[0]));
                            assert(job_planned_in(old(queue).jobs@, pre.jobs@[0]));
                        } else {
                            assert(queue.jobs@[m] == pre.jobs@[m]);
                        }
                    }
                }
            },
            DownloadStep::Aborted => {
                proof {
                    assert(pre.jobs@.len() >= 1);
                    assert(pre.jobs@[0].retries >= DOWNLOAD_RETRY_LIMIT);
                    assert(spec_queue_run(pre.jobs@, tail) == (
                        Seq::<DownloadJob>::empty(),
                        Seq::<DownloadJob>::empty(),
                        true,
                    ));
                    assert(delivered@ + Seq::<DownloadJob>::empty() =~= delivered@);
                }
                return (delivered, true);
            },
        }
        i = i + 1;
    }
    proof {
        assert(outcomes@.subrange(n as int, n as int) =~= Seq::<bool>::empty());
        assert(spec_queue_run(queue.jobs@, outcomes@.subrange(n as int, n as int)) == (
            Seq::<DownloadJob>::empty(),
            queue.jobs@,
            false,
        ));
        assert(delivered@ + Seq::<DownloadJob>::empty() =~= delivered@);
    }
    (delivered, false)
}
/// One tick's full scheduling decision: the statistical mode of the
/// sampled difficulties picks the target, the peers that reported it
/// become the download candidates, and each candidate gets one batch job
/// at consecutive heights. `None` exactly when the sample has no unique
/// mode — the tick then downloads nothing.
pub fn block_downloader(
    observations: &Vec<CumulativeDifficultyObservation>,
    start_height: u64,
) -> (r: Option<DownloadQueue>)
    requires
        start_height <= u64::MAX - (MAX_INFLIGHT as u64) * (DOWNLOAD_BATCH_BLOCKS as u64),
    ensures
        (r is Some) == exists|v: Seq<u8>|
            is_unique_value_mode(observed_values(observations@), v),
        r matches Some(q) ==> {
            &&& q.wf()
            &&& q.jobs@.len() <= MAX_INFLIGHT
            &&& exists|v: Seq<u8>|
                #![trigger is_unique_value_mode(observed_values(observations@), v)]
                {
                    &&& is_unique_value_mode(observed_values(observations@), v)
                    &&& q.jobs@.len() == (if value_occurrences(observed_values(observations@), v)
                        <= MAX_INFLIGHT as int {
                        value_occurrences(observed_values(observations@), v) as int
                    } else {
                        MAX_INFLIGHT as int
                    })
                    &&& forall|k: int|
                        0 <= k < q.jobs@.len() ==> (#[trigger] q.jobs@[k]).peer == spec_reporters(
                            observations@,
                            v,
                        )[k]
                    &&& forall|k: int|
                        0 <= k < q.jobs@.len() ==> reported_target(
                            observations@,
                            (#[trigger] q.jobs@[k]).peer,
                            v,
                        )
                }
            &&& forall|k: int|
                #![trigger q.jobs@[k]]
                0 <= k < q.jobs@.len() ==> {
                    &&& q.jobs@[k].start_height == start_height + k * DOWNLOAD_BATCH_BLOCKS
                    &&& q.jobs@[k].number_of_blocks == DOWNLOAD_BATCH_BLOCKS
                    &&& q.jobs@[k].retries == 0
                }
        },
{
    match consensus_target(observations) {
        None => None,
        Some(target) => {
            let candidates = download_candidates(observations, &target);
            let jobs = plan_download_jobs(&candidates, start_height, DOWNLOAD_BATCH_BLOCKS);
            let q = DownloadQueue::new(jobs);
            proof {
                assert(is_unique_value_mode(observed_values(observations@), target.digits@));
                assert forall|k: int| 0 <= k < q.jobs@.len() implies (
                #[trigger] q.jobs@[k]).peer == spec_reporters(observations@, target.digits@)[k]
                    && reported_target(observations@, q.jobs@[k].peer, target.digits@) by {
                    assert(q.jobs@[k].peer == candidates@[k]);
                    assert(candidates@[k] == spec_reporters(observations@, target.digits@)[k]);
                }
            }
            Some(q)
        },
    }
}

} // verus!
