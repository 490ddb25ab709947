//! The decisions of the watch, commit-watch and dashboard loops. The loops themselves wait
//! on providers, renderers and push sources; each turn hands its result to these functions.

use vstd::prelude::*;
use vstd::std_specs::hash::group_hash_axioms;
use std::collections::HashMap;

use crate::diff::{diff_events, diff_worlds};
use crate::event::DomainEvent;
use crate::logtail::{append_log, appended, display_lines, shown_lines, utf8_lossy, LogCursor, LogCursorView};
use crate::model::{
    run_ref_of, Conclusion, ConclusionView, Job, JobView, Outcome, Phase, PhaseView, RepoRef,
    RunsPage, RunsQuery, WorkflowRun, WorkflowRunView, World,
};
use crate::ports::{LogChunk, ProviderError};
use crate::stats::{run_times_in_range, stats_of, WorkflowStats, WorkflowStatsView};
use crate::time::Duration;

verus! {

broadcast use group_hash_axioms;

/// Why a watch or dashboard stopped with an error.
#[derive(Debug, Clone, PartialEq)]
pub enum EngineError {
    /// The provider failed.
    Provider(crate::ports::ProviderError),
    /// The renderer failed.
    Render(crate::ports::RenderError),
}

/// A push source that never pushes: the loops then only poll.
#[derive(Debug, Clone, Copy, PartialEq, Eq)]
pub struct NoopPushSource;

/// How a watch ended.
#[derive(Debug, Clone, PartialEq, Eq)]
pub enum WatchOutcome {
    Completed(Conclusion),
    Interrupted,
}

impl WatchOutcome {
    /// The exit code: the run's conclusion's, or 130 when interrupted.
    pub fn exit_code(&self) -> (code: i32)
        ensures
            code == match self {
                WatchOutcome::Completed(c) => c@.exit_code(),
                WatchOutcome::Interrupted => 130,
            },
    {
        match self {
            WatchOutcome::Completed(conclusion) => conclusion.exit_code(),
            WatchOutcome::Interrupted => 130,
        }
    }
}

/// How often to poll, and how much of each job's log to show.
#[derive(Debug, Clone)]
pub struct WatchConfig {
    /// The wait between polls while a run is found.
    pub active_interval: Duration,
    /// The wait between polls while no run is found yet.
    pub idle_interval: Duration,
    /// How many log lines to show per running or failed job; none shows no logs.
    pub log_tail: Option<usize>,
}

impl WatchConfig {
    /// Polls every 3 s while a run is found, every 20 s before, and shows no logs.
    pub fn default_config() -> (c: WatchConfig)
        ensures
            c.active_interval.total() == 3_000_000_000,
            c.idle_interval.total() == 20_000_000_000,
            c.log_tail is None,
    {
        WatchConfig {
            active_interval: Duration::from_secs(3),
            idle_interval: Duration::from_secs(20),
            log_tail: None,
        }
    }
}

impl Default for WatchConfig {
    fn default() -> (c: WatchConfig)
        ensures
            c.active_interval.total() == 3_000_000_000,
            c.idle_interval.total() == 20_000_000_000,
            c.log_tail is None,
    {
        WatchConfig::default_config()
    }
}

/// Which run to watch: one by id, or the latest that a query finds.
#[derive(Debug, Clone)]
pub enum WatchTarget {
    Run(u64),
    Latest(RunsQuery),
}

/// How often the dashboard refreshes.
#[derive(Debug, Clone)]
pub struct DashConfig {
    pub interval: Duration,
}

impl DashConfig {
    /// Refreshes every 5 s.
    pub fn default_config() -> (c: DashConfig)
        ensures
            c.interval.total() == 5_000_000_000,
    {
        DashConfig { interval: Duration::from_secs(5) }
    }
}

impl Default for DashConfig {
    fn default() -> (c: DashConfig)
        ensures
            c.interval.total() == 5_000_000_000,
    {
        DashConfig::default_config()
    }
}

/// How a dashboard ended: only by interruption.
#[derive(Debug, Clone, PartialEq, Eq)]
pub enum DashOutcome {
    Interrupted,
}

impl DashOutcome {
    /// The exit code: 130.
    pub fn exit_code(&self) -> (code: i32)
        ensures
            code == 130,
    {
        match self {
            DashOutcome::Interrupted => 130,
        }
    }
}

/// The run failed or failed to start.
pub open spec fn failed_hard(p: PhaseView) -> bool {
    p == PhaseView::Done(ConclusionView::Failure) || p == PhaseView::Done(
        ConclusionView::StartupFailure,
    )
}

/// The run timed out or was cancelled.
pub open spec fn cut_short(p: PhaseView) -> bool {
    p == PhaseView::Done(ConclusionView::TimedOut) || p == PhaseView::Done(
        ConclusionView::Cancelled,
    )
}

/// The conclusion of several runs together: failure where any failed, else cancelled where
/// any was cut short, else success.
pub open spec fn aggregate_of(runs: Seq<WorkflowRunView>) -> ConclusionView {
    if exists|i: int| 0 <= i < runs.len() && failed_hard(#[trigger] runs[i].phase) {
        ConclusionView::Failure
    } else if exists|i: int| 0 <= i < runs.len() && cut_short(#[trigger] runs[i].phase) {
        ConclusionView::Cancelled
    } else {
        ConclusionView::Success
    }
}

/// The conclusion of several runs together: the worst of them.
pub fn aggregate_conclusion(runs: &[WorkflowRun]) -> (c: Conclusion)
    ensures
        c@ == aggregate_of(runs@.map_values(|r: WorkflowRun| r@)),
{
    let ghost all = runs@.map_values(|r: WorkflowRun| r@);
    let mut any_failed = false;
    let mut any_cut = false;
    let mut i: usize = 0;
    while i < runs.len()
        invariant
            i <= runs@.len() == all.len(),
            all == runs@.map_values(|r: WorkflowRun| r@),
            any_failed == exists|k: int| 0 <= k < i && failed_hard(#[trigger] all[k].phase),
            any_cut == exists|k: int| 0 <= k < i && cut_short(#[trigger] all[k].phase),
        decreases runs@.len() - i,
    {
        let phase = &runs[i].phase;
        assert(all[i as int].phase == phase@);
        let f = match phase {
            Phase::Done(Conclusion::Failure) | Phase::Done(Conclusion::StartupFailure) => true,
            _ => false,
        };
        let c = match phase {
            Phase::Done(Conclusion::TimedOut) | Phase::Done(Conclusion::Cancelled) => true,
            _ => false,
        };
        any_failed = any_failed || f;
        any_cut = any_cut || c;
        i = i + 1;
    }
    if any_failed {
        Conclusion::Failure
    } else if any_cut {
        Conclusion::Cancelled
    } else {
        Conclusion::Success
    }
}

/// The joint conclusion of several runs does not depend on the order they are listed in.
pub proof fn lemma_aggregate_ignores_order(a: Seq<WorkflowRunView>, b: Seq<WorkflowRunView>)
    requires
        a.to_multiset() == b.to_multiset(),
    ensures
        aggregate_of(a) == aggregate_of(b),
{
    broadcast use vstd::seq_lib::group_to_multiset_ensures;

    assert forall|x: WorkflowRunView| a.contains(x) <==> b.contains(x) by {
        assert(a.contains(x) <==> a.to_multiset().count(x) > 0);
        assert(b.contains(x) <==> b.to_multiset().count(x) > 0);
    }
    if exists|i: int| 0 <= i < a.len() && failed_hard(#[trigger] a[i].phase) {
        let i = choose|i: int| 0 <= i < a.len() && failed_hard(#[trigger] a[i].phase);
        assert(a.contains(a[i]));
        let j = choose|j: int| 0 <= j < b.len() && b[j] == a[i];
        assert(failed_hard(b[j].phase));
    }
    if exists|i: int| 0 <= i < b.len() && failed_hard(#[trigger] b[i].phase) {
        let i = choose|i: int| 0 <= i < b.len() && failed_hard(#[trigger] b[i].phase);
        assert(b.contains(b[i]));
        let j = choose|j: int| 0 <= j < a.len() && a[j] == b[i];
        assert(failed_hard(a[j].phase));
    }
    if exists|i: int| 0 <= i < a.len() && cut_short(#[trigger] a[i].phase) {
        let i = choose|i: int| 0 <= i < a.len() && cut_short(#[trigger] a[i].phase);
        assert(a.contains(a[i]));
        let j = choose|j: int| 0 <= j < b.len() && b[j] == a[i];
        assert(cut_short(b[j].phase));
    }
    if exists|i: int| 0 <= i < b.len() && cut_short(#[trigger] b[i].phase) {
        let i = choose|i: int| 0 <= i < b.len() && cut_short(#[trigger] b[i].phase);
        assert(b.contains(b[i]));
        let j = choose|j: int| 0 <= j < a.len() && a[j] == b[i];
        assert(cut_short(a[j].phase));
    }
}

/// The joint conclusion of a commit's runs: failure where any run failed or failed to start,
/// even beside runs that timed out or were cancelled; else cancelled where any run timed out
/// or was cancelled; else success.
pub proof fn lemma_aggregate_is_the_worst(runs: Seq<WorkflowRunView>)
    ensures
        (exists|i: int|
            0 <= i < runs.len() && (#[trigger] runs[i].phase == PhaseView::Done(ConclusionView::Failure)
                || runs[i].phase == PhaseView::Done(ConclusionView::StartupFailure)))
            ==> aggregate_of(runs) == ConclusionView::Failure,
        (forall|i: int|
            0 <= i < runs.len() ==> #[trigger] runs[i].phase != PhaseView::Done(ConclusionView::Failure)
                && runs[i].phase != PhaseView::Done(ConclusionView::StartupFailure))
            && (exists|i: int|
            0 <= i < runs.len() && (#[trigger] runs[i].phase == PhaseView::Done(ConclusionView::TimedOut)
                || runs[i].phase == PhaseView::Done(ConclusionView::Cancelled)))
            ==> aggregate_of(runs) == ConclusionView::Cancelled,
        (forall|i: int|
            0 <= i < runs.len() ==> #[trigger] runs[i].phase != PhaseView::Done(ConclusionView::Failure)
                && runs[i].phase != PhaseView::Done(ConclusionView::StartupFailure)
                && runs[i].phase != PhaseView::Done(ConclusionView::TimedOut)
                && runs[i].phase != PhaseView::Done(ConclusionView::Cancelled))
            ==> aggregate_of(runs) == ConclusionView::Success,
{
    if exists|i: int|
        0 <= i < runs.len() && (#[trigger] runs[i].phase == PhaseView::Done(ConclusionView::Failure)
            || runs[i].phase == PhaseView::Done(ConclusionView::StartupFailure)) {
        let i = choose|i: int|
            0 <= i < runs.len() && (#[trigger] runs[i].phase == PhaseView::Done(ConclusionView::Failure)
                || runs[i].phase == PhaseView::Done(ConclusionView::StartupFailure));
        assert(failed_hard(runs[i].phase));
    }
    if exists|i: int|
        0 <= i < runs.len() && (#[trigger] runs[i].phase == PhaseView::Done(ConclusionView::TimedOut)
            || runs[i].phase == PhaseView::Done(ConclusionView::Cancelled)) {
        let i = choose|i: int|
            0 <= i < runs.len() && (#[trigger] runs[i].phase == PhaseView::Done(ConclusionView::TimedOut)
                || runs[i].phase == PhaseView::Done(ConclusionView::Cancelled));
        assert(cut_short(runs[i].phase));
    }
}

/// What a commit watch does after a page of runs: finish with their joint conclusion, or
/// wait this long before the next poll.
#[derive(Debug, Clone)]
pub enum CommitStep {
    Finish(Conclusion),
    Wait(Duration),
}

/// Every run of the page is final, and there is at least one.
pub open spec fn page_settled(runs: Seq<WorkflowRunView>) -> bool {
    runs.len() > 0 && forall|i: int| 0 <= i < runs.len() ==> (#[trigger] runs[i]).phase.is_terminal()
}

/// The step after a page: finish once every listed run is final; else poll again after the
/// idle interval while nothing is listed, after the active one otherwise.
pub fn commit_step(page: &RunsPage, config: &WatchConfig) -> (step: CommitStep)
    ensures
        page_settled(page.runs@.map_values(|r: WorkflowRun| r@)) ==> (step matches CommitStep::Finish(c)
            && c@ == aggregate_of(page.runs@.map_values(|r: WorkflowRun| r@))),
        !page_settled(page.runs@.map_values(|r: WorkflowRun| r@)) ==> (step matches CommitStep::Wait(d)
            && d == if page.runs@.len() == 0 {
            config.idle_interval
        } else {
            config.active_interval
        }),
{
    let ghost all = page.runs@.map_values(|r: WorkflowRun| r@);
    let mut all_terminal = true;
    let mut i: usize = 0;
    while i < page.runs.len()
        invariant
            i <= page.runs@.len() == all.len(),
            all == page.runs@.map_values(|r: WorkflowRun| r@),
            all_terminal == forall|k: int| 0 <= k < i ==> (#[trigger] all[k]).phase.is_terminal(),
        decreases page.runs@.len() - i,
    {
        assert(all[i as int].phase == page.runs@[i as int].phase@);
        all_terminal = all_terminal && page.runs[i].phase.is_terminal();
        i = i + 1;
    }
    if page.runs.len() > 0 && all_terminal {
        return CommitStep::Finish(aggregate_conclusion(page.runs.as_slice()));
    }
    if page.runs.len() == 0 {
        CommitStep::Wait(config.idle_interval)
    } else {
        CommitStep::Wait(config.active_interval)
    }
}

/// What a commit watch does after a failed page request: a transport failure (the request
/// or its answer did not get through) is waited out for the active interval, and the watch
/// polls again; any other failure ends the watch with it.
pub fn commit_step_after_failure(error: ProviderError, config: &WatchConfig) -> (r: Result<
    CommitStep,
    ProviderError,
>)
    ensures
        error is Transport ==> (r matches Ok(CommitStep::Wait(d)) && d == config.active_interval),
        !(error is Transport) ==> r == Err::<CommitStep, ProviderError>(error),
{
    match error {
        ProviderError::Transport(_) => Ok(CommitStep::Wait(config.active_interval)),
        other => Err(other),
    }
}

/// The wait before a watch polls again: the idle interval while no run is found yet, the
/// active one once a run is followed.
pub fn watch_wait(run_found: bool, config: &WatchConfig) -> (d: Duration)
    ensures
        d == if run_found {
            config.active_interval
        } else {
            config.idle_interval
        },
{
    if run_found {
        config.active_interval
    } else {
        config.idle_interval
    }
}

/// The statistics a new frame starts from: those of the previous frame, where it had some;
/// none means the workflow's history is to be asked for.
pub fn reused_stats(previous: Option<&World>) -> (s: Option<WorkflowStats>)
    ensures
        match previous {
            Some(w) => match w.stats {
                Some(x) => s matches Some(y) && y@ == x@,
                None => s is None,
            },
            None => s is None,
        },
{
    match previous {
        Some(w) => match &w.stats {
            Some(x) => Some(x.duplicate()),
            None => None,
        },
        None => None,
    }
}

/// One frame of a watch: the events since the previous snapshot, and the outcome where the
/// run has ended.
#[derive(Debug, Clone)]
pub struct Frame {
    pub events: Vec<DomainEvent>,
    pub outcome: Option<Outcome>,
}

/// The frame for `world` after `previous`.
pub fn watch_frame(previous: Option<&World>, world: &World) -> (f: Frame)
    ensures
        f.events.deep_view() == diff_events(previous.deep_view(), world@),
        match world@.run.phase {
            PhaseView::Done(c) => f.outcome matches Some(o) && o.run@ == run_ref_of(world@.run)
                && o.conclusion@ == c,
            _ => f.outcome is None,
        },
{
    let events = diff_worlds(previous, world);
    let outcome = match &world.run.phase {
        Phase::Done(conclusion) => Some(
            Outcome { run: world.run.ref_of(), conclusion: conclusion.duplicate() },
        ),
        _ => None,
    };
    Frame { events, outcome }
}

/// The query for a run's history: the same repository (and branch, for a latest-run
/// watch), the last 20 runs.
pub fn history_query(repo: &RepoRef, target: &WatchTarget) -> (q: RunsQuery)
    ensures
        q.repo@ == repo@,
        q.branch.deep_view() == match target {
            WatchTarget::Latest(query) => query.branch.deep_view(),
            WatchTarget::Run(_) => None,
        },
        q.head_sha is None,
        q.event is None,
        q.limit == 20,
{
    let branch = match target {
        WatchTarget::Latest(query) => match &query.branch {
            Some(b) => Some(b.clone()),
            None => None,
        },
        WatchTarget::Run(_) => None,
    };
    RunsQuery {
        repo: RepoRef { owner: repo.owner.clone(), name: repo.name.clone() },
        branch,
        head_sha: None,
        event: None,
        limit: 20,
    }
}

/// The runs of the named workflow, in order.
pub open spec fn same_workflow(runs: Seq<WorkflowRunView>, name: Seq<char>) -> Seq<WorkflowRunView>
    decreases runs.len(),
{
    if runs.len() == 0 {
        seq![]
    } else {
        let rest = same_workflow(runs.drop_last(), name);
        if runs.last().name == name {
            rest.push(runs.last())
        } else {
            rest
        }
    }
}

/// The statistics of the named workflow's past runs; none where no run counts.
pub fn stats_from_history(history: Vec<WorkflowRun>, name: &str) -> (s: Option<WorkflowStats>)
    requires
        forall|i: int| 0 <= i < history@.len() ==> run_times_in_range(#[trigger] history@[i]@),
    ensures
        ({
            let st = stats_of(same_workflow(history@.map_values(|r: WorkflowRun| r@), name@));
            if st.samples == 0 {
                s is None
            } else {
                s matches Some(x) && x@ == st
            }
        }),
{
    let ghost all = history@.map_values(|r: WorkflowRun| r@);
    let mut kept: Vec<WorkflowRun> = Vec::new();
    let mut i: usize = 0;
    assert(all.take(0) =~= Seq::<WorkflowRunView>::empty());
    while i < history.len()
        invariant
            i <= history@.len() == all.len(),
            all == history@.map_values(|r: WorkflowRun| r@),
            forall|k: int| 0 <= k < history@.len() ==> run_times_in_range(#[trigger] history@[k]@),
            kept@.map_values(|r: WorkflowRun| r@) == same_workflow(all.take(i as int), name@),
            forall|k: int| 0 <= k < kept@.len() ==> run_times_in_range(#[trigger] kept@[k]@),
        decreases history@.len() - i,
    {
        assert(all.take(i + 1).drop_last() =~= all.take(i as int));
        assert(all.take(i + 1).last() == history@[i as int]@);
        if crate::text::str_eq(history[i].name.as_str(), name) {
            let ghost before = kept@.map_values(|r: WorkflowRun| r@);
            kept.push(history[i].clone_run());
            assert(kept@.map_values(|r: WorkflowRun| r@) =~= before.push(history@[i as int]@));
        }
        i = i + 1;
    }
    assert(all.take(all.len() as int) =~= all);
    let stats = WorkflowStats::from_runs(kept.as_slice());
    if stats.samples() == 0 {
        None
    } else {
        Some(stats)
    }
}

/// Whether a job's log is tailed: it is running or has failed.
pub fn wants_log_tail(job: &Job) -> (r: bool)
    ensures
        r == (job@.phase == PhaseView::InProgress || job@.phase.is_failed()),
{
    matches!(job.phase, Phase::InProgress) || job.phase.is_failed()
}

/// The last lines of one job's log.
#[derive(Debug, Clone, PartialEq, Eq)]
pub struct JobLog {
    pub job_id: u64,
    pub lines: Vec<String>,
}

/// A log cursor per job.
pub struct LogTails {
    cursors: HashMap<u64, LogCursor>,
}

/// The cursor of a job that has none yet.
pub open spec fn fresh_cursor() -> LogCursorView {
    LogCursorView { offset: 0, pending: Seq::empty(), lines: Seq::empty() }
}

impl LogTails {
    /// Each job's cursor, by job id.
    pub closed spec fn view(&self) -> Map<u64, LogCursorView> {
        self.cursors@.map_values(|c: LogCursor| c@)
    }

    /// No cursor yet.
    pub fn new() -> (t: LogTails)
        ensures
            t.view() == Map::<u64, LogCursorView>::empty(),
    {
        let t = LogTails { cursors: HashMap::new() };
        assert(t.view() =~= Map::<u64, LogCursorView>::empty());
        t
    }

    /// Where to read a job's log from: its cursor's offset, or 0.
    pub fn offset_for(&self, job_id: u64) -> (o: u64)
        ensures
            o == if self.view().contains_key(job_id) {
                self.view()[job_id].offset
            } else {
                0
            },
    {
        match self.cursors.get(&job_id) {
            Some(cursor) => cursor.offset,
            None => 0,
        }
    }

    /// Forgets what was read of a job's log, which was replaced; its cursor, if any, starts over.
    pub fn restart(&mut self, job_id: u64)
        ensures
            final(self).view() == if old(self).view().contains_key(job_id) {
                old(self).view().insert(job_id, fresh_cursor())
            } else {
                old(self).view()
            },
    {
        if let Some(mut cursor) = self.cursors.remove(&job_id) {
            cursor.lines.clear();
            cursor.pending = String::new();
            cursor.offset = 0;
            let ghost c = cursor@;
            self.cursors.insert(job_id, cursor);
            assert(c == fresh_cursor()) by {
                assert(c.lines =~= Seq::<Seq<char>>::empty());
            }
            assert(self.view() =~= old(self).view().insert(job_id, fresh_cursor()));
        } else {
            assert(self.view() =~= old(self).view());
        }
    }

    /// Reads a chunk of a job's log into its cursor (a fresh one where it has none) and
    /// gives the lines to show.
    pub fn absorb(&mut self, job_id: u64, chunk: &LogChunk, limit: usize) -> (lines: Vec<String>)
        ensures
            ({
                let before = if old(self).view().contains_key(job_id) {
                    old(self).view()[job_id]
                } else {
                    fresh_cursor()
                };
                let after = appended(before, utf8_lossy(chunk.bytes@), chunk.next_offset, limit as nat);
                &&& final(self).view() == old(self).view().insert(job_id, after)
                &&& lines.deep_view() == shown_lines(after, limit as nat)
            }),
    {
        let mut cursor = match self.cursors.remove(&job_id) {
            Some(c) => c,
            None => {
                let c = LogCursor { offset: 0, pending: String::new(), lines: Vec::new() };
                assert(c@ == fresh_cursor()) by {
                    assert(c@.lines =~= Seq::<Seq<char>>::empty());
                }
                c
            },
        };
        append_log(&mut cursor, chunk, limit);
        let lines = display_lines(&cursor, limit);
        let ghost c = cursor@;
        self.cursors.insert(job_id, cursor);
        assert(self.view() =~= old(self).view().insert(job_id, c));
        lines
    }

    /// Whether a job's log was replaced since the last read: the chunk ends before the
    /// offset that was asked from. Its log is then read again from the start.
    pub fn was_replaced(&self, job_id: u64, chunk: &LogChunk) -> (r: bool)
        ensures
            r == (chunk.next_offset < if self.view().contains_key(job_id) {
                self.view()[job_id].offset
            } else {
                0
            }),
    {
        chunk.next_offset < self.offset_for(job_id)
    }

    /// The lines shown last for a job, where it has a cursor.
    pub fn previous_tail(&self, job_id: u64, limit: usize) -> (lines: Option<Vec<String>>)
        ensures
            match lines {
                Some(l) => self.view().contains_key(job_id) && l.deep_view() == shown_lines(
                    self.view()[job_id],
                    limit as nat,
                ),
                None => !self.view().contains_key(job_id),
            },
    {
        match self.cursors.get(&job_id) {
            Some(cursor) => Some(display_lines(cursor, limit)),
            None => None,
        }
    }
}

/// The log entry for a job, where there are lines to show.
pub fn job_log(job_id: u64, lines: Vec<String>) -> (r: Option<JobLog>)
    ensures
        lines@.len() == 0 ==> r is None,
        lines@.len() > 0 ==> (r matches Some(l) && l.job_id == job_id && l.lines@ == lines@),
{
    if lines.len() == 0 {
        None
    } else {
        Some(JobLog { job_id, lines })
    }
}

} // verus!
