//! Duration statistics over past runs of a workflow.

use vstd::prelude::*;
use vstd::multiset::Multiset;
use vstd::relations::{sorted_by, total_ordering};

use crate::model::{ConclusionView, Phase, Conclusion, PhaseView, Timestamp, WorkflowRun, WorkflowRunView};

verus! {

/// The median duration of past runs and how many runs it rests on.
#[derive(Debug, Clone, PartialEq)]
pub struct WorkflowStats {
    median_duration_secs: Option<i64>,
    samples: usize,
}

/// What a `WorkflowStats` holds.
pub struct WorkflowStatsView {
    pub median: Option<i64>,
    pub samples: nat,
}

impl View for WorkflowStats {
    type V = WorkflowStatsView;

    closed spec fn view(&self) -> WorkflowStatsView {
        WorkflowStatsView { median: self.median_duration_secs, samples: self.samples as nat }
    }
}

/// A timestamp that `jiff` can hold: years -9999 to 9999, and a sub-second part.
pub open spec fn timestamp_in_range(t: Timestamp) -> bool {
    -377_705_116_800 <= t.second <= 253_402_207_199 && -999_999_999 <= t.nanosecond
        <= 999_999_999
}

/// Every timestamp of the run is one `jiff` can hold.
pub open spec fn run_times_in_range(run: WorkflowRunView) -> bool {
    &&& timestamp_in_range(run.created_at)
    &&& timestamp_in_range(run.updated_at)
    &&& (run.run_started_at matches Some(t) ==> timestamp_in_range(t))
}

/// Whole seconds from `start` to `end`, or 0 where `end` is not later.
pub open spec fn elapsed_secs(start: Timestamp, end: Timestamp) -> int {
    let d = end.total_nanos() - start.total_nanos();
    if d <= 0 {
        0
    } else {
        d / 1_000_000_000
    }
}

/// How long a run took, for runs that ran to success, failure or timeout: from its start
/// (its creation where it has no start) to its last update.
pub open spec fn run_duration(run: WorkflowRunView) -> Option<int> {
    match run.phase {
        PhaseView::Done(c) => if c == ConclusionView::Success || c == ConclusionView::Failure || c
            == ConclusionView::TimedOut {
            let start = match run.run_started_at {
                Some(t) => t,
                None => run.created_at,
            };
            Some(elapsed_secs(start, run.updated_at))
        } else {
            None
        },
        _ => None,
    }
}

/// The durations of the runs that have one, in order.
pub open spec fn durations(runs: Seq<WorkflowRunView>) -> Seq<i64>
    decreases runs.len(),
{
    if runs.len() == 0 {
        seq![]
    } else {
        let rest = durations(runs.drop_last());
        match run_duration(runs.last()) {
            Some(d) => rest.push(d as i64),
            None => rest,
        }
    }
}

/// `<=` on `i64`.
pub open spec fn i64_leq() -> spec_fn(i64, i64) -> bool {
    |a: i64, b: i64| a <= b
}

/// The middle of a sorted sequence: the middle item, or the mean of the two middle items
/// rounded up; none for an empty one.
pub open spec fn median_of(s: Seq<i64>) -> Option<int> {
    let n = s.len();
    if n == 0 {
        None
    } else if n % 2 == 1 {
        Some(s[(n / 2) as int] as int)
    } else {
        Some((s[n / 2 - 1] + s[(n / 2) as int] + 1) / 2)
    }
}

/// The statistics of a history of runs: the median duration, over the sorted durations.
pub open spec fn stats_of(runs: Seq<WorkflowRunView>) -> WorkflowStatsView {
    let sorted = durations(runs).sort_by(i64_leq());
    WorkflowStatsView {
        median: match median_of(sorted) {
            Some(m) => Some(m as i64),
            None => None,
        },
        samples: durations(runs).len(),
    }
}

/// `slice::sort_unstable` on durations: the same items, in ascending order.
#[verifier::external_body]
fn sort_ascending(v: &mut Vec<i64>)
    ensures
        final(v)@.to_multiset() == old(v)@.to_multiset(),
        sorted_by(final(v)@, i64_leq()),
{
    v.sort_unstable();
}

proof fn lemma_leq_total()
    ensures
        total_ordering(i64_leq()),
{
}

/// The duration of one run.
fn duration_secs(run: &WorkflowRun) -> (d: Option<i64>)
    requires
        run_times_in_range(run@),
    ensures
        match run_duration(run@) {
            Some(x) => d == Some(x as i64) && 0 <= x <= 700_000_000_000,
            None => d is None,
        },
{
    let done = match &run.phase {
        Phase::Done(c) => match c {
            Conclusion::Success | Conclusion::Failure | Conclusion::TimedOut => true,
            _ => false,
        },
        _ => false,
    };
    if !done {
        return None;
    }
    let start = match run.run_started_at {
        Some(t) => t,
        None => run.created_at,
    };
    let end = run.updated_at;
    let d: i128 = (end.second as i128 - start.second as i128) * 1_000_000_000 + (end.nanosecond
        as i128 - start.nanosecond as i128);
    assert(d == end.total_nanos() - start.total_nanos());
    if d <= 0 {
        Some(0)
    } else {
        assert(d / 1_000_000_000 <= 700_000_000_000);
        Some((d / 1_000_000_000) as i64)
    }
}

impl WorkflowStats {
    /// The statistics of a history of runs.
    pub fn from_runs(runs: &[WorkflowRun]) -> (s: WorkflowStats)
        requires
            forall|i: int| 0 <= i < runs@.len() ==> run_times_in_range(#[trigger] runs@[i]@),
        ensures
            s@ == stats_of(runs@.map_values(|r: WorkflowRun| r@)),
    {
        let ghost all = runs@.map_values(|r: WorkflowRun| r@);
        let mut v: Vec<i64> = Vec::new();
        let mut i: usize = 0;
        assert(all.take(0) =~= Seq::<WorkflowRunView>::empty());
        while i < runs.len()
            invariant
                i <= runs@.len() == all.len(),
                all == runs@.map_values(|r: WorkflowRun| r@),
                forall|k: int| 0 <= k < runs@.len() ==> run_times_in_range(#[trigger] runs@[k]@),
                v@ == durations(all.take(i as int)),
                forall|k: int| 0 <= k < v@.len() ==> 0 <= #[trigger] v@[k] <= 700_000_000_000,
            decreases runs@.len() - i,
        {
            let d = duration_secs(&runs[i]);
            assert(all.take(i + 1).drop_last() =~= all.take(i as int));
            assert(all.take(i + 1).last() == runs@[i as int]@);
            if let Some(x) = d {
                v.push(x);
            }
            i = i + 1;
        }
        assert(all.take(all.len() as int) =~= all);
        let ghost unsorted = v@;
        sort_ascending(&mut v);
        proof {
            lemma_leq_total();
            unsorted.lemma_sort_by_ensures(i64_leq());
            vstd::seq_lib::lemma_sorted_unique(v@, unsorted.sort_by(i64_leq()), i64_leq());
            assert forall|k: int| 0 <= k < v@.len() implies 0 <= #[trigger] v@[k] <= 700_000_000_000 by {
                broadcast use vstd::seq_lib::group_to_multiset_ensures;
                assert(v@.contains(v@[k]));
                assert(unsorted.contains(v@[k]));
                let j = choose|j: int| 0 <= j < unsorted.len() && unsorted[j] == v@[k];
                assert(0 <= unsorted[j] <= 700_000_000_000);
            }
        }
        let n = v.len();
        proof {
            broadcast use vstd::seq_lib::group_to_multiset_ensures;
            assert(v@ == durations(all).sort_by(i64_leq()));
            assert(v@.len() == unsorted.to_multiset().len());
            assert(n == durations(all).len());
        }
        let median = if n == 0 {
            None
        } else if n % 2 == 1 {
            Some(v[n / 2])
        } else {
            let a = v[n / 2 - 1];
            let b = v[n / 2];
            Some((a + b + 1) / 2)
        };
        WorkflowStats { median_duration_secs: median, samples: n }
    }

    /// The median duration in seconds, if any run counted.
    pub fn median_duration_secs(&self) -> (m: Option<i64>)
        ensures
            m == self@.median,
    {
        self.median_duration_secs
    }

    /// A copy of the statistics.
    pub fn duplicate(&self) -> (s: WorkflowStats)
        ensures
            s@ == self@,
    {
        WorkflowStats { median_duration_secs: self.median_duration_secs, samples: self.samples }
    }

    /// How many runs the statistics rest on.
    pub fn samples(&self) -> (n: usize)
        ensures
            n == self@.samples,
    {
        self.samples
    }

    /// Seconds left of a run that has run `elapsed_secs`: none without a median or once the
    /// median has passed.
    pub fn remaining_secs(&self, elapsed_secs: i64) -> (r: Option<i64>)
        requires
            self@.median matches Some(m) ==> i64::MIN <= m - elapsed_secs <= i64::MAX,
        ensures
            r == match self@.median {
                Some(m) => if m - elapsed_secs < 0 {
                    None
                } else {
                    Some((m - elapsed_secs) as i64)
                },
                None => None,
            },
    {
        let median = match self.median_duration_secs {
            Some(m) => m,
            None => return None,
        };
        let remaining = median - elapsed_secs;
        if remaining < 0 {
            None
        } else {
            Some(remaining)
        }
    }
}

/// The median lies within the recorded durations: at least the shortest and at most the
/// longest of them.
pub proof fn lemma_median_within_range(runs: Seq<WorkflowRunView>)
    requires
        durations(runs).len() > 0,
    ensures
        stats_of(runs).median matches Some(m) && (exists|i: int|
            0 <= i < durations(runs).len() && #[trigger] durations(runs)[i] <= m) && (exists|j: int|
            0 <= j < durations(runs).len() && m <= #[trigger] durations(runs)[j]),
{
    broadcast use vstd::seq_lib::group_to_multiset_ensures;
    let d = durations(runs);
    let s = d.sort_by(i64_leq());
    lemma_leq_total();
    d.lemma_sort_by_ensures(i64_leq());
    let n = s.len();
    assert(n == d.len()) by {
        assert(s.to_multiset().len() == d.to_multiset().len());
    }
    let lo: int = if n % 2 == 1 { (n / 2) as int } else { n / 2 - 1 };
    let hi: int = (n / 2) as int;
    assert(sorted_by(s, i64_leq()));
    assert((i64_leq())(s[lo], s[hi]));
    assert(s[lo] <= s[hi]);
    let m = median_of(s)->0;
    assert(s[lo] <= m <= s[hi]);
    assert(s.contains(s[lo]) && s.contains(s[hi]));
    assert(d.contains(s[lo]) && d.contains(s[hi]));
    let i = choose|i: int| 0 <= i < d.len() && d[i] == s[lo];
    let j = choose|j: int| 0 <= j < d.len() && d[j] == s[hi];
    assert(d[i] <= (m as i64));
    assert((m as i64) <= d[j]);
}

/// What one run adds to the durations: its duration, or nothing.
pub open spec fn duration_bag(r: WorkflowRunView) -> Multiset<i64> {
    match run_duration(r) {
        Some(d) => Multiset::singleton(d as i64),
        None => Multiset::empty(),
    }
}

proof fn lemma_durations_last(s: Seq<WorkflowRunView>)
    requires
        s.len() > 0,
    ensures
        durations(s).to_multiset() =~= durations(s.drop_last()).to_multiset().add(
            duration_bag(s.last()),
        ),
{
    broadcast use vstd::seq_lib::group_to_multiset_ensures;
    broadcast use vstd::multiset::group_multiset_axioms;

    let rest = durations(s.drop_last());
    match run_duration(s.last()) {
        Some(d) => {
            assert(durations(s) == rest.push(d as i64));
            assert(rest.push(d as i64).to_multiset() =~= rest.to_multiset().insert(d as i64));
        },
        None => {
            assert(durations(s) == rest);
        },
    }
}

proof fn lemma_durations_remove(s: Seq<WorkflowRunView>, j: int)
    requires
        0 <= j < s.len(),
    ensures
        durations(s).to_multiset() =~= durations(s.remove(j)).to_multiset().add(duration_bag(s[j])),
    decreases s.len(),
{
    broadcast use vstd::multiset::group_multiset_axioms;

    lemma_durations_last(s);
    if j == s.len() - 1 {
        assert(s.remove(j) =~= s.drop_last());
    } else {
        let t = s.remove(j);
        assert(t.drop_last() =~= s.drop_last().remove(j));
        assert(t.last() == s.last());
        assert(s.drop_last()[j] == s[j]);
        lemma_durations_remove(s.drop_last(), j);
        lemma_durations_last(t);
    }
}

proof fn lemma_durations_follow_runs(a: Seq<WorkflowRunView>, b: Seq<WorkflowRunView>)
    requires
        a.to_multiset() == b.to_multiset(),
    ensures
        durations(a).to_multiset() == durations(b).to_multiset(),
    decreases a.len(),
{
    broadcast use vstd::seq_lib::group_to_multiset_ensures;
    broadcast use vstd::multiset::group_multiset_axioms;

    if a.len() == 0 {
        assert(a.to_multiset().len() == a.len());
        assert(b.to_multiset().len() == b.len());
        assert(b.len() == 0);
        assert(a =~= b);
    } else {
        let x = a.last();
        assert(a =~= a.drop_last().push(x));
        assert(a.to_multiset() =~= a.drop_last().to_multiset().insert(x));
        assert(b.to_multiset().count(x) > 0);
        assert(b.contains(x));
        let j = choose|j: int| 0 <= j < b.len() && b[j] == x;
        let rest = b.remove(j);
        assert(rest.to_multiset() =~= b.to_multiset().remove(x));
        assert(rest.to_multiset() =~= a.drop_last().to_multiset());
        lemma_durations_follow_runs(a.drop_last(), rest);
        lemma_durations_last(a);
        lemma_durations_remove(b, j);
        assert(durations(a).to_multiset() =~= durations(b).to_multiset());
    }
}

/// The statistics do not depend on the order of the runs: any reordering gives the same
/// median and sample count.
pub proof fn lemma_stats_ignore_order(a: Seq<WorkflowRunView>, b: Seq<WorkflowRunView>)
    requires
        a.to_multiset() == b.to_multiset(),
    ensures
        stats_of(a) == stats_of(b),
{
    broadcast use vstd::seq_lib::group_to_multiset_ensures;

    lemma_durations_follow_runs(a, b);
    let da = durations(a);
    let db = durations(b);
    lemma_leq_total();
    da.lemma_sort_by_ensures(i64_leq());
    db.lemma_sort_by_ensures(i64_leq());
    vstd::seq_lib::lemma_sorted_unique(da.sort_by(i64_leq()), db.sort_by(i64_leq()), i64_leq());
    assert(da.len() == da.to_multiset().len());
    assert(db.len() == db.to_multiset().len());
}

/// A finished run that succeeded, failed or timed out lasted from its start to its last
/// update, in whole seconds, and no less than zero; its creation time counts only where it
/// has no start. A history of that one run has it as its median.
pub proof fn lemma_duration_runs_from_the_start(r: WorkflowRunView)
    requires
        r.phase == PhaseView::Done(ConclusionView::Success) || r.phase == PhaseView::Done(
            ConclusionView::Failure,
        ) || r.phase == PhaseView::Done(ConclusionView::TimedOut),
        run_times_in_range(r),
    ensures
        ({
            let start = match r.run_started_at {
                Some(s) => s,
                None => r.created_at,
            };
            let nanos = (r.updated_at.second * 1_000_000_000 + r.updated_at.nanosecond) - (
            start.second * 1_000_000_000 + start.nanosecond);
            let secs = if nanos <= 0 {
                0
            } else {
                nanos / 1_000_000_000
            };
            &&& run_duration(r) == Some(secs)
            &&& stats_of(seq![r]).samples == 1
            &&& stats_of(seq![r]).median == Some(secs as i64)
        }),
{
    let d = run_duration(r)->0;
    assert(run_duration(r) is Some);
    assert(seq![r].drop_last() =~= Seq::<WorkflowRunView>::empty());
    assert(seq![r].last() == r);
    assert(durations(Seq::<WorkflowRunView>::empty()) == Seq::<i64>::empty());
    assert(durations(seq![r]) == durations(seq![r].drop_last()).push(d as i64));
    assert(durations(seq![r]) =~= seq![d as i64]);
    lemma_leq_total();
    let one = seq![d as i64];
    one.lemma_sort_by_ensures(i64_leq());
    vstd::seq_lib::lemma_sorted_unique(one.sort_by(i64_leq()), one, i64_leq());
    assert(sorted_by(one, i64_leq()));
}

} // verus!
