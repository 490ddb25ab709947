//! The events that lead from one snapshot of a run to the next.

use vstd::prelude::*;

use crate::event::{DomainEvent, DomainEventView};
use crate::model::{
    job_ref_of, run_ref_of, step_ref_of, ConclusionView, Job, JobRefView, JobView, Phase, PhaseView, Step, StepView,
    WorkflowRunView, World, WorldView,
};

verus! {

/// The events for a job seen for the first time: it appeared, and started if it runs.
pub open spec fn appear_events(job: JobView) -> Seq<DomainEventView> {
    let r = job_ref_of(job);
    if job.phase == PhaseView::InProgress {
        seq![DomainEventView::JobAppeared { job: r }, DomainEventView::JobStarted { job: r }]
    } else {
        seq![DomainEventView::JobAppeared { job: r }]
    }
}

/// The appearance events of `jobs`, in order.
pub open spec fn all_appear_events(jobs: Seq<JobView>) -> Seq<DomainEventView>
    decreases jobs.len(),
{
    if jobs.len() == 0 {
        seq![]
    } else {
        all_appear_events(jobs.drop_last()) + appear_events(jobs.last())
    }
}

/// The events of a first snapshot: the run started or completed, then every job appeared.
pub open spec fn first_snapshot_events(next: WorldView) -> Seq<DomainEventView> {
    let run = run_ref_of(next.run);
    let head = match next.run.phase {
        PhaseView::Done(c) => DomainEventView::RunCompleted { run, conclusion: c },
        _ => DomainEventView::RunStarted { run },
    };
    seq![head] + all_appear_events(next.jobs)
}

/// The first job in `jobs` with this id.
pub open spec fn first_job_with_id(jobs: Seq<JobView>, id: u64) -> Option<JobView>
    decreases jobs.len(),
{
    if jobs.len() == 0 {
        None
    } else if jobs[0].id == id {
        Some(jobs[0])
    } else {
        first_job_with_id(jobs.drop_first(), id)
    }
}

/// The first step in `steps` with this number.
pub open spec fn first_step_with_number(steps: Seq<StepView>, number: u64) -> Option<StepView>
    decreases steps.len(),
{
    if steps.len() == 0 {
        None
    } else if steps[0].number == number {
        Some(steps[0])
    } else {
        first_step_with_number(steps.drop_first(), number)
    }
}

/// The event for a step of `job` whose phase went from `prev`'s to `next`'s.
pub open spec fn step_change_events(prev: StepView, next: StepView, job: JobView) -> Seq<
    DomainEventView,
> {
    if prev.phase == next.phase {
        seq![]
    } else {
        match next.phase {
            PhaseView::Done(c) => seq![
                DomainEventView::StepFinished {
                    job: job_ref_of(job),
                    step: step_ref_of(next, job.id),
                    conclusion: c,
                },
            ],
            PhaseView::InProgress => seq![
                DomainEventView::StepStarted { job: job_ref_of(job), step: step_ref_of(next, job.id) },
            ],
            _ => seq![],
        }
    }
}

/// The step events of `job` for `steps` against the earlier `prev_steps`; new steps say nothing.
pub open spec fn steps_change_events(
    prev_steps: Seq<StepView>,
    steps: Seq<StepView>,
    job: JobView,
) -> Seq<DomainEventView>
    decreases steps.len(),
{
    if steps.len() == 0 {
        seq![]
    } else {
        steps_change_events(prev_steps, steps.drop_last(), job) + match first_step_with_number(
            prev_steps,
            steps.last().number,
        ) {
            Some(p) => step_change_events(p, steps.last(), job),
            None => seq![],
        }
    }
}

/// The event for a job whose phase went from `prev` to `next`'s.
pub open spec fn job_phase_events(prev: PhaseView, next: JobView) -> Seq<DomainEventView> {
    if prev == next.phase {
        seq![]
    } else {
        match next.phase {
            PhaseView::Done(c) => seq![
                DomainEventView::JobCompleted { job: job_ref_of(next), conclusion: c },
            ],
            PhaseView::InProgress => seq![DomainEventView::JobStarted { job: job_ref_of(next) }],
            _ => if prev.is_terminal() {
                seq![DomainEventView::JobRequeued { job: job_ref_of(next) }]
            } else {
                seq![]
            },
        }
    }
}

/// The events of a job seen before as `prev`: its steps first, then the job itself.
pub open spec fn job_change_events(prev: JobView, next: JobView) -> Seq<DomainEventView> {
    steps_change_events(prev.steps, next.steps, next) + job_phase_events(prev.phase, next)
}

/// The events of `job` against the earlier jobs.
pub open spec fn job_events(prev_jobs: Seq<JobView>, job: JobView) -> Seq<DomainEventView> {
    match first_job_with_id(prev_jobs, job.id) {
        None => appear_events(job),
        Some(p) => job_change_events(p, job),
    }
}

/// The events of `jobs` against the earlier jobs, in order; jobs that went away say nothing.
pub open spec fn jobs_events(prev_jobs: Seq<JobView>, jobs: Seq<JobView>) -> Seq<DomainEventView>
    decreases jobs.len(),
{
    if jobs.len() == 0 {
        seq![]
    } else {
        jobs_events(prev_jobs, jobs.drop_last()) + job_events(prev_jobs, jobs.last())
    }
}

/// The event for a run whose phase went from `prev` to `next`'s.
pub open spec fn run_change_events(prev: PhaseView, next: WorkflowRunView) -> Seq<DomainEventView> {
    if prev == next.phase {
        seq![]
    } else {
        match next.phase {
            PhaseView::Done(c) => seq![
                DomainEventView::RunCompleted { run: run_ref_of(next), conclusion: c },
            ],
            _ => if prev.is_terminal() {
                seq![DomainEventView::RunRequeued { run: run_ref_of(next) }]
            } else {
                seq![]
            },
        }
    }
}

/// The events from `prev` (none: a first snapshot) to `next`: job events, then the run's.
pub open spec fn diff_events(prev: Option<WorldView>, next: WorldView) -> Seq<DomainEventView> {
    match prev {
        None => first_snapshot_events(next),
        Some(p) => jobs_events(p.jobs, next.jobs) + run_change_events(p.run.phase, next.run),
    }
}

/// Jobs that share an id are the same job.
pub open spec fn job_keys_consistent(jobs: Seq<JobView>) -> bool {
    forall|i: int, j: int|
        0 <= i < jobs.len() && 0 <= j < jobs.len() && #[trigger] jobs[i].id == #[trigger] jobs[j].id
            ==> jobs[i] == jobs[j]
}

/// Steps that share a number are the same step.
pub open spec fn step_keys_consistent(steps: Seq<StepView>) -> bool {
    forall|i: int, j: int|
        0 <= i < steps.len() && 0 <= j < steps.len() && #[trigger] steps[i].number
            == #[trigger] steps[j].number ==> steps[i] == steps[j]
}

/// No two differing jobs share an id, and no two differing steps of a job share a number.
pub open spec fn world_keys_consistent(w: WorldView) -> bool {
    &&& job_keys_consistent(w.jobs)
    &&& forall|k: int| 0 <= k < w.jobs.len() ==> step_keys_consistent(#[trigger] w.jobs[k].steps)
}

proof fn lemma_job_found_by_own_id(jobs: Seq<JobView>, k: int)
    requires
        job_keys_consistent(jobs),
        0 <= k < jobs.len(),
    ensures
        first_job_with_id(jobs, jobs[k].id) == Some(jobs[k]),
    decreases jobs.len(),
{
    if jobs[0].id == jobs[k].id {
        assert(jobs[0] == jobs[k]);
    } else {
        let rest = jobs.drop_first();
        assert(rest[k - 1] == jobs[k]);
        assert forall|i: int, j: int|
            0 <= i < rest.len() && 0 <= j < rest.len() && #[trigger] rest[i].id
                == #[trigger] rest[j].id implies rest[i] == rest[j] by {
            assert(rest[i] == jobs[i + 1] && rest[j] == jobs[j + 1]);
        }
        lemma_job_found_by_own_id(rest, k - 1);
    }
}

proof fn lemma_step_found_by_own_number(steps: Seq<StepView>, k: int)
    requires
        step_keys_consistent(steps),
        0 <= k < steps.len(),
    ensures
        first_step_with_number(steps, steps[k].number) == Some(steps[k]),
    decreases steps.len(),
{
    if steps[0].number == steps[k].number {
        assert(steps[0] == steps[k]);
    } else {
        let rest = steps.drop_first();
        assert(rest[k - 1] == steps[k]);
        assert forall|i: int, j: int|
            0 <= i < rest.len() && 0 <= j < rest.len() && #[trigger] rest[i].number
                == #[trigger] rest[j].number implies rest[i] == rest[j] by {
            assert(rest[i] == steps[i + 1] && rest[j] == steps[j + 1]);
        }
        lemma_step_found_by_own_number(rest, k - 1);
    }
}

proof fn lemma_unchanged_steps(steps: Seq<StepView>, n: int, job: JobView)
    requires
        step_keys_consistent(steps),
        0 <= n <= steps.len(),
    ensures
        steps_change_events(steps, steps.take(n), job) == Seq::<DomainEventView>::empty(),
    decreases n,
{
    if n > 0 {
        let pre = steps.take(n);
        assert(pre.drop_last() =~= steps.take(n - 1));
        lemma_unchanged_steps(steps, n - 1, job);
        lemma_step_found_by_own_number(steps, n - 1);
        assert(pre.last() == steps[n - 1]);
        assert(steps_change_events(steps, pre, job) =~= Seq::<DomainEventView>::empty());
    }
}

proof fn lemma_unchanged_jobs(w: WorldView, n: int)
    requires
        world_keys_consistent(w),
        0 <= n <= w.jobs.len(),
    ensures
        jobs_events(w.jobs, w.jobs.take(n)) == Seq::<DomainEventView>::empty(),
    decreases n,
{
    if n > 0 {
        let pre = w.jobs.take(n);
        assert(pre.drop_last() =~= w.jobs.take(n - 1));
        lemma_unchanged_jobs(w, n - 1);
        let job = w.jobs[n - 1];
        lemma_job_found_by_own_id(w.jobs, n - 1);
        assert(step_keys_consistent(w.jobs[n - 1].steps));
        lemma_unchanged_steps(job.steps, job.steps.len() as int, job);
        assert(job.steps.take(job.steps.len() as int) =~= job.steps);
        assert(pre.last() == job);
        assert(jobs_events(w.jobs, pre) =~= Seq::<DomainEventView>::empty());
    }
}

/// A snapshot diffed against itself yields no events, unless two differing jobs share an id
/// or two differing steps of a job share a number.
pub proof fn lemma_unchanged_world_emits_nothing(w: WorldView)
    requires
        world_keys_consistent(w),
    ensures
        diff_events(Some(w), w) == Seq::<DomainEventView>::empty(),
{
    lemma_unchanged_jobs(w, w.jobs.len() as int);
    assert(w.jobs.take(w.jobs.len() as int) =~= w.jobs);
    assert(diff_events(Some(w), w) =~= Seq::<DomainEventView>::empty());
}

proof fn lemma_job_events_reach_diff(pj: Seq<JobView>, jobs: Seq<JobView>, k: int, e: DomainEventView)
    requires
        0 <= k < jobs.len(),
        job_events(pj, jobs[k]).contains(e),
    ensures
        jobs_events(pj, jobs).contains(e),
    decreases jobs.len(),
{
    let front = jobs_events(pj, jobs.drop_last());
    let back = job_events(pj, jobs.last());
    assert(jobs_events(pj, jobs) == front + back);
    if k == jobs.len() - 1 {
        let m = choose|m: int| 0 <= m < back.len() && back[m] == e;
        assert((front + back)[front.len() + m] == e);
    } else {
        assert(jobs.drop_last()[k] == jobs[k]);
        lemma_job_events_reach_diff(pj, jobs.drop_last(), k, e);
        let m = choose|m: int| 0 <= m < front.len() && front[m] == e;
        assert((front + back)[m] == e);
    }
}

/// A job seen before that has now finished is reported complete with its conclusion, whatever
/// phase it was in before (a job that was queued at one poll and done at the next included),
/// as long as jobs that share an id in the earlier snapshot are the same job.
pub proof fn lemma_finished_job_is_reported(prev: WorldView, next: WorldView, i: int, k: int, c: ConclusionView)
    requires
        job_keys_consistent(prev.jobs),
        0 <= i < prev.jobs.len(),
        0 <= k < next.jobs.len(),
        prev.jobs[i].id == next.jobs[k].id,
        prev.jobs[i].phase != PhaseView::Done(c),
        next.jobs[k].phase == PhaseView::Done(c),
    ensures
        diff_events(Some(prev), next).contains(
            DomainEventView::JobCompleted {
                job: JobRefView { id: next.jobs[k].id, run_id: next.jobs[k].run_id, name: next.jobs[k].name },
                conclusion: c,
            },
        ),
{
    let job = next.jobs[k];
    let e = DomainEventView::JobCompleted {
        job: JobRefView { id: job.id, run_id: job.run_id, name: job.name },
        conclusion: c,
    };
    lemma_job_found_by_own_id(prev.jobs, i);
    let p = prev.jobs[i];
    let steps = steps_change_events(p.steps, job.steps, job);
    let ev = job_events(prev.jobs, job);
    assert(ev == steps + seq![e]);
    assert(ev[steps.len() as int] == e);
    lemma_job_events_reach_diff(prev.jobs, next.jobs, k, e);
    let all = jobs_events(prev.jobs, next.jobs);
    let m = choose|m: int| 0 <= m < all.len() && all[m] == e;
    let d = diff_events(Some(prev), next);
    assert(d == all + run_change_events(prev.run.phase, next.run));
    assert(d[m] == e);
}

/// A first snapshot names the run once, first, then each job once more if it is running.
pub proof fn lemma_first_snapshot_shape(next: WorldView)
    ensures
        diff_events(None, next).len() >= 1 + next.jobs.len(),
        diff_events(None, next)[0] is RunStarted || diff_events(None, next)[0] is RunCompleted,
        (diff_events(None, next)[0] is RunCompleted) <==> next.run.phase.is_terminal(),
{
    lemma_appear_len(next.jobs);
}

proof fn lemma_appear_len(jobs: Seq<JobView>)
    ensures
        all_appear_events(jobs).len() >= jobs.len(),
    decreases jobs.len(),
{
    if jobs.len() > 0 {
        lemma_appear_len(jobs.drop_last());
    }
}

/// Appends one event.
fn push_event(events: &mut Vec<DomainEvent>, e: DomainEvent)
    ensures
        final(events).deep_view() == old(events).deep_view().push(e@),
{
    let ghost before = events.deep_view();
    events.push(e);
    assert(events.deep_view() =~= before.push(e@));
}

/// Appends the appearance events of `job`.
fn push_appear(job: &Job, events: &mut Vec<DomainEvent>)
    ensures
        final(events).deep_view() == old(events).deep_view() + appear_events(job@),
{
    let ghost before = events.deep_view();
    push_event(events, DomainEvent::JobAppeared { job: job.ref_of() });
    if matches!(job.phase, Phase::InProgress) {
        push_event(events, DomainEvent::JobStarted { job: job.ref_of() });
    }
    assert(events.deep_view() =~= before + appear_events(job@));
}

/// Index of the first job in `jobs` with this id.
fn find_job(jobs: &Vec<Job>, id: u64) -> (r: Option<usize>)
    ensures
        match r {
            Some(i) => i < jobs@.len() && first_job_with_id(jobs.deep_view(), id) == Some(
                jobs.deep_view()[i as int],
            ),
            None => first_job_with_id(jobs.deep_view(), id) is None,
        },
{
    let ghost s = jobs.deep_view();
    let mut i: usize = 0;
    assert(s.skip(0) =~= s);
    while i < jobs.len()
        invariant
            i <= jobs@.len() == s.len(),
            s == jobs.deep_view(),
            first_job_with_id(s, id) == first_job_with_id(s.skip(i as int), id),
        decreases jobs@.len() - i,
    {
        assert(s.skip(i as int)[0] == s[i as int]);
        if jobs[i].id == id {
            return Some(i);
        }
        assert(s.skip(i as int).drop_first() =~= s.skip(i + 1));
        i = i + 1;
    }
    None
}

/// Index of the first step in `steps` with this number.
fn find_step(steps: &Vec<Step>, number: u64) -> (r: Option<usize>)
    ensures
        match r {
            Some(i) => i < steps@.len() && first_step_with_number(steps.deep_view(), number)
                == Some(steps.deep_view()[i as int]),
            None => first_step_with_number(steps.deep_view(), number) is None,
        },
{
    let ghost s = steps.deep_view();
    let mut i: usize = 0;
    assert(s.skip(0) =~= s);
    while i < steps.len()
        invariant
            i <= steps@.len() == s.len(),
            s == steps.deep_view(),
            first_step_with_number(s, number) == first_step_with_number(s.skip(i as int), number),
        decreases steps@.len() - i,
    {
        assert(s.skip(i as int)[0] == s[i as int]);
        if steps[i].number == number {
            return Some(i);
        }
        assert(s.skip(i as int).drop_first() =~= s.skip(i + 1));
        i = i + 1;
    }
    None
}

/// Appends the events of a first snapshot.
fn first_snapshot(next: &World, events: &mut Vec<DomainEvent>)
    ensures
        final(events).deep_view() == old(events).deep_view() + first_snapshot_events(next@),
{
    let ghost before = events.deep_view();
    match &next.run.phase {
        Phase::Done(conclusion) => push_event(
            events,
            DomainEvent::RunCompleted { run: next.run.ref_of(), conclusion: conclusion.duplicate() },
        ),
        _ => push_event(events, DomainEvent::RunStarted { run: next.run.ref_of() }),
    }
    let ghost head = events.deep_view();
    let ghost jobs = next.jobs.deep_view();
    assert(jobs.take(0) =~= Seq::<JobView>::empty());
    let mut i: usize = 0;
    while i < next.jobs.len()
        invariant
            i <= next.jobs@.len() == jobs.len(),
            jobs == next.jobs.deep_view(),
            events.deep_view() == head + all_appear_events(jobs.take(i as int)),
        decreases next.jobs@.len() - i,
    {
        push_appear(&next.jobs[i], events);
        assert(jobs.take(i + 1).drop_last() =~= jobs.take(i as int));
        assert(jobs.take(i + 1).last() == jobs[i as int]);
        i = i + 1;
    }
    assert(jobs.take(jobs.len() as int) =~= jobs);
    assert(events.deep_view() =~= before + first_snapshot_events(next@));
}

/// Appends the event of a step that went from `prev` to `next`.
fn step_delta(prev: &Step, next: &Step, job: &Job, events: &mut Vec<DomainEvent>)
    ensures
        final(events).deep_view() == old(events).deep_view() + step_change_events(
            prev@,
            next@,
            job@,
        ),
{
    let ghost before = events.deep_view();
    if prev.phase.same_as(&next.phase) {
        assert(events.deep_view() =~= before + step_change_events(prev@, next@, job@));
        return ;
    }
    match &next.phase {
        Phase::Done(conclusion) => push_event(
            events,
            DomainEvent::StepFinished {
                job: job.ref_of(),
                step: next.ref_of(job.id),
                conclusion: conclusion.duplicate(),
            },
        ),
        Phase::InProgress => push_event(
            events,
            DomainEvent::StepStarted { job: job.ref_of(), step: next.ref_of(job.id) },
        ),
        _ => {},
    }
    assert(events.deep_view() =~= before + step_change_events(prev@, next@, job@));
}

/// Appends the events of a job seen before as `prev`.
fn job_delta(prev: &Job, next: &Job, events: &mut Vec<DomainEvent>)
    ensures
        final(events).deep_view() == old(events).deep_view() + job_change_events(prev@, next@),
{
    let ghost before = events.deep_view();
    let ghost steps = next.steps.deep_view();
    let ghost prev_steps = prev.steps.deep_view();
    assert(steps.take(0) =~= Seq::<StepView>::empty());
    assert(before + seq![] =~= before);
    let mut i: usize = 0;
    while i < next.steps.len()
        invariant
            i <= next.steps@.len() == steps.len(),
            steps == next.steps.deep_view(),
            prev_steps == prev.steps.deep_view(),
            events.deep_view() == before + steps_change_events(
                prev_steps,
                steps.take(i as int),
                next@,
            ),
        decreases next.steps@.len() - i,
    {
        let ghost mid = events.deep_view();
        let step = &next.steps[i];
        match find_step(&prev.steps, step.number) {
            Some(k) => step_delta(&prev.steps[k], step, next, events),
            None => {
                assert(events.deep_view() =~= mid + Seq::<DomainEventView>::empty());
            },
        }
        assert(steps.take(i + 1).drop_last() =~= steps.take(i as int));
        assert(steps.take(i + 1).last() == steps[i as int]);
        i = i + 1;
    }
    assert(steps.take(steps.len() as int) =~= steps);
    let ghost after_steps = events.deep_view();
    if prev.phase.same_as(&next.phase) {
        assert(events.deep_view() =~= before + job_change_events(prev@, next@));
        return ;
    }
    match &next.phase {
        Phase::Done(conclusion) => push_event(
            events,
            DomainEvent::JobCompleted { job: next.ref_of(), conclusion: conclusion.duplicate() },
        ),
        Phase::InProgress => push_event(events, DomainEvent::JobStarted { job: next.ref_of() }),
        _ => {
            if prev.phase.is_terminal() {
                push_event(events, DomainEvent::JobRequeued { job: next.ref_of() });
            }
        },
    }
    assert(events.deep_view() =~= before + job_change_events(prev@, next@));
}

/// Appends the event of a run whose phase changed.
fn run_delta(prev: &World, next: &World, events: &mut Vec<DomainEvent>)
    ensures
        final(events).deep_view() == old(events).deep_view() + run_change_events(
            prev@.run.phase,
            next@.run,
        ),
{
    let ghost before = events.deep_view();
    if prev.run.phase.same_as(&next.run.phase) {
        assert(events.deep_view() =~= before + run_change_events(prev@.run.phase, next@.run));
        return ;
    }
    match &next.run.phase {
        Phase::Done(conclusion) => push_event(
            events,
            DomainEvent::RunCompleted { run: next.run.ref_of(), conclusion: conclusion.duplicate() },
        ),
        _ => {
            if prev.run.phase.is_terminal() {
                push_event(events, DomainEvent::RunRequeued { run: next.run.ref_of() });
            }
        },
    }
    assert(events.deep_view() =~= before + run_change_events(prev@.run.phase, next@.run));
}

/// Appends the events from `prev` to `next`.
fn delta(prev: &World, next: &World, events: &mut Vec<DomainEvent>)
    ensures
        final(events).deep_view() == old(events).deep_view() + diff_events(Some(prev@), next@),
{
    let ghost before = events.deep_view();
    let ghost jobs = next.jobs.deep_view();
    let ghost prev_jobs = prev.jobs.deep_view();
    assert(jobs.take(0) =~= Seq::<JobView>::empty());
    assert(before + seq![] =~= before);
    let mut i: usize = 0;
    while i < next.jobs.len()
        invariant
            i <= next.jobs@.len() == jobs.len(),
            jobs == next.jobs.deep_view(),
            prev_jobs == prev.jobs.deep_view(),
            events.deep_view() == before + jobs_events(prev_jobs, jobs.take(i as int)),
        decreases next.jobs@.len() - i,
    {
        let job = &next.jobs[i];
        match find_job(&prev.jobs, job.id) {
            None => push_appear(job, events),
            Some(k) => job_delta(&prev.jobs[k], job, events),
        }
        assert(jobs.take(i + 1).drop_last() =~= jobs.take(i as int));
        assert(jobs.take(i + 1).last() == jobs[i as int]);
        i = i + 1;
    }
    assert(jobs.take(jobs.len() as int) =~= jobs);
    run_delta(prev, next, events);
    assert(events.deep_view() =~= before + diff_events(Some(prev@), next@));
}

/// The events that lead from `prev` to `next`; with no `prev`, those of a first snapshot.
pub fn diff_worlds(prev: Option<&World>, next: &World) -> (events: Vec<DomainEvent>)
    ensures
        events.deep_view() == diff_events(prev.deep_view(), next@),
{
    let mut events: Vec<DomainEvent> = Vec::new();
    assert(events.deep_view() =~= Seq::<DomainEventView>::empty());
    match prev {
        None => first_snapshot(next, &mut events),
        Some(previous) => delta(previous, next, &mut events),
    }
    assert(events.deep_view() =~= diff_events(prev.deep_view(), next@));
    events
}

} // verus!
