//! The domain model: repositories, runs, jobs, steps and their phases.

use vstd::prelude::*;

use crate::text::{char_pos, chars_of, find_char, lemma_char_pos, str_eq, string_of};

verus! {

/// A repository, `OWNER/NAME`.
#[derive(Debug, Clone, PartialEq, Eq, Hash)]
pub struct RepoRef {
    pub owner: String,
    pub name: String,
}

/// What a `RepoRef` holds.
pub struct RepoRefView {
    pub owner: Seq<char>,
    pub name: Seq<char>,
}

impl View for RepoRef {
    type V = RepoRefView;

    open spec fn view(&self) -> RepoRefView {
        RepoRefView { owner: self.owner@, name: self.name@ }
    }
}

impl DeepView for RepoRef {
    type V = RepoRefView;

    open spec fn deep_view(&self) -> RepoRefView {
        self@
    }
}

/// A text that is not `OWNER/NAME`; it holds the text.
#[derive(Debug, Clone, PartialEq, Eq)]
pub struct RepoParseError(pub String);

/// The repository that `s` names: the text before the first `/` is the owner,
/// the rest the name; both must be non-empty and the name holds no `/`.
pub open spec fn repo_ref_of(s: Seq<char>) -> Option<RepoRefView> {
    let i = char_pos(s, '/');
    if i < 0 {
        None
    } else {
        let owner = s.take(i);
        let name = s.skip(i + 1);
        if owner.len() > 0 && name.len() > 0 && !name.contains('/') {
            Some(RepoRefView { owner, name })
        } else {
            None
        }
    }
}

/// `OWNER/NAME`, the text form of a repository.
pub open spec fn repo_text(r: RepoRefView) -> Seq<char> {
    r.owner + seq!['/'] + r.name
}

/// A repository that some text names: both parts non-empty, neither holds `/`.
pub open spec fn repo_is_valid(r: RepoRefView) -> bool {
    r.owner.len() > 0 && r.name.len() > 0 && !r.owner.contains('/') && !r.name.contains('/')
}

/// The text that `{:?}` gives for a string: quoted, with escapes.
pub uninterp spec fn debug_quoted(s: Seq<char>) -> Seq<char>;

/// `format!("{:?}", s)`: the string quoted and escaped by `str`'s `Debug`.
#[verifier::external_body]
pub(crate) fn quoted(s: &str) -> (r: String)
    ensures
        r@ == debug_quoted(s@),
{
    format!("{:?}", s)
}

impl RepoParseError {
    /// The error's message.
    pub fn message(&self) -> (m: String)
        ensures
            m@ == "invalid repository reference "@ + debug_quoted(self.0@)
                + ": expected OWNER/NAME"@,
    {
        let mut m = String::from_str("invalid repository reference ");
        let q = quoted(self.0.as_str());
        m.append(q.as_str());
        m.append(": expected OWNER/NAME");
        m
    }
}

impl RepoRef {
    /// Parses `OWNER/NAME`.
    pub fn parse(s: &str) -> (r: Result<RepoRef, RepoParseError>)
        ensures
            match r {
                Ok(repo) => repo_ref_of(s@) == Some(repo@),
                Err(e) => repo_ref_of(s@) is None && e.0@ == s@,
            },
    {
        let v = chars_of(s);
        let n = v.len();
        proof {
            lemma_char_pos(v@, '/');
        }
        match find_char(&v, '/') {
            None => Err(RepoParseError(String::from_str(s))),
            Some(i) => {
                let owner = string_of(&v, 0, i);
                let name_chars = string_of(&v, i + 1, n);
                let name_v = chars_of(name_chars.as_str());
                let slash = find_char(&name_v, '/');
                proof {
                    lemma_char_pos(name_v@, '/');
                    assert(v@.take(i as int) == v@.subrange(0, i as int));
                    assert(v@.skip(i + 1) == v@.subrange(i + 1, v@.len() as int));
                }
                if i == 0 || i + 1 == n || slash.is_some() {
                    Err(RepoParseError(String::from_str(s)))
                } else {
                    Ok(RepoRef { owner, name: name_chars })
                }
            },
        }
    }

    /// `OWNER/NAME`.
    pub fn to_string(&self) -> (s: String)
        ensures
            s@ == repo_text(self@),
    {
        let mut s = self.owner.clone();
        s.append("/");
        s.append(self.name.as_str());
        proof {
            reveal_strlit("/");
        }
        s
    }
}

impl core::str::FromStr for RepoRef {
    type Err = RepoParseError;

    fn from_str(s: &str) -> (r: Result<Self, Self::Err>)
        ensures
            match r {
                Ok(repo) => repo_ref_of(s@) == Some(repo@),
                Err(e) => repo_ref_of(s@) is None && e.0@ == s@,
            },
    {
        RepoRef::parse(s)
    }
}

/// Text that parses as a repository prints back as itself.
pub proof fn lemma_repo_parse_prints_back(s: Seq<char>)
    requires
        repo_ref_of(s) is Some,
    ensures
        repo_text(repo_ref_of(s)->0) == s,
        repo_is_valid(repo_ref_of(s)->0),
{
    lemma_char_pos(s, '/');
    let i = char_pos(s, '/');
    let r = repo_ref_of(s)->0;
    assert(repo_text(r) =~= s);
    assert(!r.owner.contains('/')) by {
        if r.owner.contains('/') {
            let j = choose|j: int| 0 <= j < r.owner.len() && r.owner[j] == '/';
            assert(s[j] == '/');
        }
    }
}

/// A valid repository's text parses back to it.
pub proof fn lemma_repo_prints_then_parses(r: RepoRefView)
    requires
        repo_is_valid(r),
    ensures
        repo_ref_of(repo_text(r)) == Some(r),
{
    let s = repo_text(r);
    lemma_char_pos(s, '/');
    let n = r.owner.len() as int;
    assert(s[n] == '/');
    assert forall|j: int| 0 <= j < n implies s[j] != '/' by {
        assert(s[j] == r.owner[j]);
        if s[j] == '/' {
            assert(r.owner.contains('/'));
        }
    }
    assert(char_pos(s, '/') == n) by {
        let p = char_pos(s, '/');
        assert(p != -1) by {
            assert(s.contains('/'));
        }
        if p < n {
            assert(s[p] != '/');
        }
        if p > n {
            assert(s[n] != '/');
        }
    }
    assert(s.take(n) =~= r.owner);
    assert(s.skip(n + 1) =~= r.name);
}

/// How a run, job or step ended.
#[derive(Debug, Clone, PartialEq, Eq, Hash)]
pub enum Conclusion {
    Success,
    Failure,
    Cancelled,
    Skipped,
    TimedOut,
    StartupFailure,
    ActionRequired,
    Neutral,
    Stale,
    Other(String),
}

/// What a `Conclusion` holds.
pub enum ConclusionView {
    Success,
    Failure,
    Cancelled,
    Skipped,
    TimedOut,
    StartupFailure,
    ActionRequired,
    Neutral,
    Stale,
    Other(Seq<char>),
}

impl View for Conclusion {
    type V = ConclusionView;

    open spec fn view(&self) -> ConclusionView {
        match self {
            Conclusion::Success => ConclusionView::Success,
            Conclusion::Failure => ConclusionView::Failure,
            Conclusion::Cancelled => ConclusionView::Cancelled,
            Conclusion::Skipped => ConclusionView::Skipped,
            Conclusion::TimedOut => ConclusionView::TimedOut,
            Conclusion::StartupFailure => ConclusionView::StartupFailure,
            Conclusion::ActionRequired => ConclusionView::ActionRequired,
            Conclusion::Neutral => ConclusionView::Neutral,
            Conclusion::Stale => ConclusionView::Stale,
            Conclusion::Other(s) => ConclusionView::Other(s@),
        }
    }
}

impl DeepView for Conclusion {
    type V = ConclusionView;

    open spec fn deep_view(&self) -> ConclusionView {
        self@
    }
}

impl ConclusionView {
    /// The process exit code for this conclusion: 0 pass, 1 fail, 2 cancelled or timed out.
    pub open spec fn exit_code(self) -> i32 {
        match self {
            ConclusionView::Success | ConclusionView::Skipped | ConclusionView::Neutral => 0,
            ConclusionView::Cancelled | ConclusionView::TimedOut => 2,
            _ => 1,
        }
    }
}

/// The conclusion that GitHub's text `raw` names; unknown text is kept as `Other`.
pub open spec fn conclusion_of(raw: Seq<char>) -> ConclusionView {
    if raw == "success"@ {
        ConclusionView::Success
    } else if raw == "failure"@ {
        ConclusionView::Failure
    } else if raw == "cancelled"@ {
        ConclusionView::Cancelled
    } else if raw == "skipped"@ {
        ConclusionView::Skipped
    } else if raw == "timed_out"@ {
        ConclusionView::TimedOut
    } else if raw == "startup_failure"@ {
        ConclusionView::StartupFailure
    } else if raw == "action_required"@ {
        ConclusionView::ActionRequired
    } else if raw == "neutral"@ {
        ConclusionView::Neutral
    } else if raw == "stale"@ {
        ConclusionView::Stale
    } else {
        ConclusionView::Other(raw)
    }
}

impl Conclusion {
    /// Reads GitHub's conclusion text.
    pub fn parse(raw: &str) -> (c: Conclusion)
        ensures
            c@ == conclusion_of(raw@),
    {
        if str_eq(raw, "success") {
            Conclusion::Success
        } else if str_eq(raw, "failure") {
            Conclusion::Failure
        } else if str_eq(raw, "cancelled") {
            Conclusion::Cancelled
        } else if str_eq(raw, "skipped") {
            Conclusion::Skipped
        } else if str_eq(raw, "timed_out") {
            Conclusion::TimedOut
        } else if str_eq(raw, "startup_failure") {
            Conclusion::StartupFailure
        } else if str_eq(raw, "action_required") {
            Conclusion::ActionRequired
        } else if str_eq(raw, "neutral") {
            Conclusion::Neutral
        } else if str_eq(raw, "stale") {
            Conclusion::Stale
        } else {
            Conclusion::Other(String::from_str(raw))
        }
    }

    /// The process exit code for this conclusion.
    pub fn exit_code(&self) -> (code: i32)
        ensures
            code == self@.exit_code(),
    {
        match self {
            Conclusion::Success | Conclusion::Skipped | Conclusion::Neutral => 0,
            Conclusion::Cancelled | Conclusion::TimedOut => 2,
            Conclusion::Failure
            | Conclusion::StartupFailure
            | Conclusion::ActionRequired
            | Conclusion::Stale
            | Conclusion::Other(_) => 1,
        }
    }

    /// A copy of this conclusion.
    pub fn duplicate(&self) -> (c: Conclusion)
        ensures
            c@ == self@,
    {
        match self {
            Conclusion::Success => Conclusion::Success,
            Conclusion::Failure => Conclusion::Failure,
            Conclusion::Cancelled => Conclusion::Cancelled,
            Conclusion::Skipped => Conclusion::Skipped,
            Conclusion::TimedOut => Conclusion::TimedOut,
            Conclusion::StartupFailure => Conclusion::StartupFailure,
            Conclusion::ActionRequired => Conclusion::ActionRequired,
            Conclusion::Neutral => Conclusion::Neutral,
            Conclusion::Stale => Conclusion::Stale,
            Conclusion::Other(s) => Conclusion::Other(s.clone()),
        }
    }
}

/// Every conclusion maps to one of the three exit codes 0, 1 and 2.
pub proof fn lemma_exit_codes_are_zero_one_or_two(c: ConclusionView)
    ensures
        c.exit_code() == 0 || c.exit_code() == 1 || c.exit_code() == 2,
        c.exit_code() == 0 <==> (c == ConclusionView::Success || c == ConclusionView::Skipped || c
            == ConclusionView::Neutral),
        c.exit_code() == 2 <==> (c == ConclusionView::Cancelled || c == ConclusionView::TimedOut),
{
}

/// Where a run, job or step stands.
#[derive(Debug, Clone, PartialEq, Eq, Hash)]
pub enum Phase {
    Queued,
    Waiting,
    InProgress,
    Done(Conclusion),
    Other(String),
}

/// What a `Phase` holds.
pub enum PhaseView {
    Queued,
    Waiting,
    InProgress,
    Done(ConclusionView),
    Other(Seq<char>),
}

impl View for Phase {
    type V = PhaseView;

    open spec fn view(&self) -> PhaseView {
        match self {
            Phase::Queued => PhaseView::Queued,
            Phase::Waiting => PhaseView::Waiting,
            Phase::InProgress => PhaseView::InProgress,
            Phase::Done(c) => PhaseView::Done(c@),
            Phase::Other(s) => PhaseView::Other(s@),
        }
    }
}

impl DeepView for Phase {
    type V = PhaseView;

    open spec fn deep_view(&self) -> PhaseView {
        self@
    }
}

impl PhaseView {
    /// Finished, with a conclusion.
    pub open spec fn is_terminal(self) -> bool {
        self is Done
    }

    /// Finished as a failure, a timeout or a startup failure.
    pub open spec fn is_failed(self) -> bool {
        match self {
            PhaseView::Done(c) => c == ConclusionView::Failure || c == ConclusionView::TimedOut
                || c == ConclusionView::StartupFailure,
            _ => false,
        }
    }
}

/// The phase that GitHub's `status` and `conclusion` texts name.
pub open spec fn phase_of(status: Seq<char>, conclusion: Option<Seq<char>>) -> PhaseView {
    if status == "queued"@ {
        PhaseView::Queued
    } else if status == "waiting"@ {
        PhaseView::Waiting
    } else if status == "in_progress"@ {
        PhaseView::InProgress
    } else if status == "completed"@ {
        match conclusion {
            Some(raw) => PhaseView::Done(conclusion_of(raw)),
            None => PhaseView::Done(ConclusionView::Other("null"@)),
        }
    } else {
        PhaseView::Other(status)
    }
}

impl Phase {
    /// Reads GitHub's status and conclusion texts.
    pub fn from_parts(status: &str, conclusion: Option<&str>) -> (p: Phase)
        ensures
            p@ == phase_of(status@, conclusion.deep_view()),
    {
        if str_eq(status, "queued") {
            Phase::Queued
        } else if str_eq(status, "waiting") {
            Phase::Waiting
        } else if str_eq(status, "in_progress") {
            Phase::InProgress
        } else if str_eq(status, "completed") {
            match conclusion {
                Some(raw) => Phase::Done(Conclusion::parse(raw)),
                None => Phase::Done(Conclusion::Other(String::from_str("null"))),
            }
        } else {
            Phase::Other(String::from_str(status))
        }
    }

    /// Whether the phase is final.
    pub fn is_terminal(&self) -> (r: bool)
        ensures
            r == self@.is_terminal(),
    {
        match self {
            Phase::Done(_) => true,
            _ => false,
        }
    }

    /// Whether the phase is a failed end.
    pub fn is_failed(&self) -> (r: bool)
        ensures
            r == self@.is_failed(),
    {
        match self {
            Phase::Done(Conclusion::Failure) => true,
            Phase::Done(Conclusion::TimedOut) => true,
            Phase::Done(Conclusion::StartupFailure) => true,
            _ => false,
        }
    }

    /// Whether the phase is not final yet.
    pub fn is_active(&self) -> (r: bool)
        ensures
            r == !self@.is_terminal(),
    {
        !self.is_terminal()
    }

    /// The conclusion of a finished phase.
    pub fn conclusion(&self) -> (c: Option<&Conclusion>)
        ensures
            match self@ {
                PhaseView::Done(v) => c is Some && c->0@ == v,
                _ => c is None,
            },
    {
        match self {
            Phase::Done(c) => Some(c),
            _ => None,
        }
    }

    /// Whether two phases are the same.
    pub fn same_as(&self, other: &Phase) -> (r: bool)
        ensures
            r == (self@ == other@),
    {
        match (self, other) {
            (Phase::Queued, Phase::Queued) => true,
            (Phase::Waiting, Phase::Waiting) => true,
            (Phase::InProgress, Phase::InProgress) => true,
            (Phase::Done(a), Phase::Done(b)) => conclusion_eq(a, b),
            (Phase::Other(a), Phase::Other(b)) => {
                let r = str_eq(a.as_str(), b.as_str());
                r
            },
            _ => false,
        }
    }
}

/// Whether two conclusions are the same.
pub fn conclusion_eq(a: &Conclusion, b: &Conclusion) -> (r: bool)
    ensures
        r == (a@ == b@),
{
    match (a, b) {
        (Conclusion::Success, Conclusion::Success) => true,
        (Conclusion::Failure, Conclusion::Failure) => true,
        (Conclusion::Cancelled, Conclusion::Cancelled) => true,
        (Conclusion::Skipped, Conclusion::Skipped) => true,
        (Conclusion::TimedOut, Conclusion::TimedOut) => true,
        (Conclusion::StartupFailure, Conclusion::StartupFailure) => true,
        (Conclusion::ActionRequired, Conclusion::ActionRequired) => true,
        (Conclusion::Neutral, Conclusion::Neutral) => true,
        (Conclusion::Stale, Conclusion::Stale) => true,
        (Conclusion::Other(x), Conclusion::Other(y)) => str_eq(x.as_str(), y.as_str()),
        _ => false,
    }
}

/// A point in time: seconds and nanoseconds since the Unix epoch.
#[derive(Debug, Clone, Copy, PartialEq, Eq, Hash, Structural)]
pub struct Timestamp {
    pub second: i64,
    pub nanosecond: i32,
}

impl Timestamp {
    /// Nanoseconds since the Unix epoch.
    pub open spec fn total_nanos(self) -> int {
        self.second * 1_000_000_000 + self.nanosecond
    }

    /// The Unix epoch.
    pub fn epoch() -> (t: Timestamp)
        ensures
            t == (Timestamp { second: 0, nanosecond: 0 }),
    {
        Timestamp { second: 0, nanosecond: 0 }
    }
}

/// A run, as events name it.
#[derive(Debug, Clone, PartialEq, Eq, Hash)]
pub struct RunRef {
    pub id: u64,
    pub name: String,
}

/// What a `RunRef` holds.
pub struct RunRefView {
    pub id: u64,
    pub name: Seq<char>,
}

impl View for RunRef {
    type V = RunRefView;

    open spec fn view(&self) -> RunRefView {
        RunRefView { id: self.id, name: self.name@ }
    }
}

/// A job, as events name it.
#[derive(Debug, Clone, PartialEq, Eq, Hash)]
pub struct JobRef {
    pub id: u64,
    pub run_id: u64,
    pub name: String,
}

/// What a `JobRef` holds.
pub struct JobRefView {
    pub id: u64,
    pub run_id: u64,
    pub name: Seq<char>,
}

impl View for JobRef {
    type V = JobRefView;

    open spec fn view(&self) -> JobRefView {
        JobRefView { id: self.id, run_id: self.run_id, name: self.name@ }
    }
}

/// A step, as events name it.
#[derive(Debug, Clone, PartialEq, Eq, Hash)]
pub struct StepRef {
    pub job_id: u64,
    pub number: u64,
    pub name: String,
}

/// What a `StepRef` holds.
pub struct StepRefView {
    pub job_id: u64,
    pub number: u64,
    pub name: Seq<char>,
}

impl View for StepRef {
    type V = StepRefView;

    open spec fn view(&self) -> StepRefView {
        StepRefView { job_id: self.job_id, number: self.number, name: self.name@ }
    }
}

/// One run of a workflow.
#[derive(Debug, Clone, PartialEq)]
pub struct WorkflowRun {
    pub id: u64,
    pub run_number: u64,
    pub name: String,
    pub display_title: String,
    pub head_branch: Option<String>,
    pub head_sha: String,
    pub event: String,
    pub phase: Phase,
    pub actor: String,
    pub html_url: String,
    pub created_at: Timestamp,
    pub run_started_at: Option<Timestamp>,
    pub updated_at: Timestamp,
}

/// What a `WorkflowRun` holds.
pub struct WorkflowRunView {
    pub id: u64,
    pub run_number: u64,
    pub name: Seq<char>,
    pub display_title: Seq<char>,
    pub head_branch: Option<Seq<char>>,
    pub head_sha: Seq<char>,
    pub event: Seq<char>,
    pub phase: PhaseView,
    pub actor: Seq<char>,
    pub html_url: Seq<char>,
    pub created_at: Timestamp,
    pub run_started_at: Option<Timestamp>,
    pub updated_at: Timestamp,
}

impl View for WorkflowRun {
    type V = WorkflowRunView;

    open spec fn view(&self) -> WorkflowRunView {
        WorkflowRunView {
            id: self.id,
            run_number: self.run_number,
            name: self.name@,
            display_title: self.display_title@,
            head_branch: self.head_branch.deep_view(),
            head_sha: self.head_sha@,
            event: self.event@,
            phase: self.phase@,
            actor: self.actor@,
            html_url: self.html_url@,
            created_at: self.created_at,
            run_started_at: self.run_started_at,
            updated_at: self.updated_at,
        }
    }
}

impl DeepView for WorkflowRun {
    type V = WorkflowRunView;

    open spec fn deep_view(&self) -> WorkflowRunView {
        self@
    }
}

/// The reference that events use for a run.
pub open spec fn run_ref_of(run: WorkflowRunView) -> RunRefView {
    RunRefView { id: run.id, name: run.name }
}

/// A copy of an optional string.
pub fn clone_opt_string(s: &Option<String>) -> (r: Option<String>)
    ensures
        r.deep_view() == s.deep_view(),
{
    match s {
        Some(x) => Some(x.clone()),
        None => None,
    }
}

impl Phase {
    /// A copy of this phase.
    pub fn duplicate(&self) -> (p: Phase)
        ensures
            p@ == self@,
    {
        match self {
            Phase::Queued => Phase::Queued,
            Phase::Waiting => Phase::Waiting,
            Phase::InProgress => Phase::InProgress,
            Phase::Done(c) => Phase::Done(c.duplicate()),
            Phase::Other(s) => Phase::Other(s.clone()),
        }
    }
}

impl WorkflowRun {
    /// A copy of this run.
    pub fn clone_run(&self) -> (r: WorkflowRun)
        ensures
            r@ == self@,
    {
        WorkflowRun {
            id: self.id,
            run_number: self.run_number,
            name: self.name.clone(),
            display_title: self.display_title.clone(),
            head_branch: clone_opt_string(&self.head_branch),
            head_sha: self.head_sha.clone(),
            event: self.event.clone(),
            phase: self.phase.duplicate(),
            actor: self.actor.clone(),
            html_url: self.html_url.clone(),
            created_at: self.created_at,
            run_started_at: self.run_started_at,
            updated_at: self.updated_at,
        }
    }

    /// The reference that events use for this run.
    pub fn ref_of(&self) -> (r: RunRef)
        ensures
            r@ == run_ref_of(self@),
    {
        RunRef { id: self.id, name: self.name.clone() }
    }
}

/// One step of a job.
#[derive(Debug, Clone, PartialEq)]
pub struct Step {
    pub number: u64,
    pub name: String,
    pub phase: Phase,
    pub started_at: Option<Timestamp>,
    pub completed_at: Option<Timestamp>,
}

/// What a `Step` holds.
pub struct StepView {
    pub number: u64,
    pub name: Seq<char>,
    pub phase: PhaseView,
    pub started_at: Option<Timestamp>,
    pub completed_at: Option<Timestamp>,
}

impl View for Step {
    type V = StepView;

    open spec fn view(&self) -> StepView {
        StepView {
            number: self.number,
            name: self.name@,
            phase: self.phase@,
            started_at: self.started_at,
            completed_at: self.completed_at,
        }
    }
}

impl DeepView for Step {
    type V = StepView;

    open spec fn deep_view(&self) -> StepView {
        self@
    }
}

/// The reference that events use for a step of job `job_id`.
pub open spec fn step_ref_of(step: StepView, job_id: u64) -> StepRefView {
    StepRefView { job_id, number: step.number, name: step.name }
}

impl Step {
    /// The reference that events use for this step of job `job_id`.
    pub fn ref_of(&self, job_id: u64) -> (r: StepRef)
        ensures
            r@ == step_ref_of(self@, job_id),
    {
        StepRef { job_id, number: self.number, name: self.name.clone() }
    }
}

/// One job of a run.
#[derive(Debug, Clone, PartialEq)]
pub struct Job {
    pub id: u64,
    pub run_id: u64,
    pub name: String,
    pub phase: Phase,
    pub started_at: Option<Timestamp>,
    pub completed_at: Option<Timestamp>,
    pub runner_name: Option<String>,
    pub labels: Vec<String>,
    pub steps: Vec<Step>,
}

/// What a `Job` holds.
pub struct JobView {
    pub id: u64,
    pub run_id: u64,
    pub name: Seq<char>,
    pub phase: PhaseView,
    pub started_at: Option<Timestamp>,
    pub completed_at: Option<Timestamp>,
    pub runner_name: Option<Seq<char>>,
    pub labels: Seq<Seq<char>>,
    pub steps: Seq<StepView>,
}

impl View for Job {
    type V = JobView;

    open spec fn view(&self) -> JobView {
        JobView {
            id: self.id,
            run_id: self.run_id,
            name: self.name@,
            phase: self.phase@,
            started_at: self.started_at,
            completed_at: self.completed_at,
            runner_name: self.runner_name.deep_view(),
            labels: self.labels.deep_view(),
            steps: self.steps.deep_view(),
        }
    }
}

impl DeepView for Job {
    type V = JobView;

    open spec fn deep_view(&self) -> JobView {
        self@
    }
}

/// The reference that events use for a job.
pub open spec fn job_ref_of(job: JobView) -> JobRefView {
    JobRefView { id: job.id, run_id: job.run_id, name: job.name }
}

impl Job {
    /// The reference that events use for this job.
    pub fn ref_of(&self) -> (r: JobRef)
        ensures
            r@ == job_ref_of(self@),
    {
        JobRef { id: self.id, run_id: self.run_id, name: self.name.clone() }
    }
}

/// A check annotation attached to a job.
#[derive(Debug, Clone, PartialEq)]
pub struct Annotation {
    pub job_id: u64,
    pub path: Option<String>,
    pub start_line: Option<u64>,
    pub message: String,
}

/// A snapshot of a run with its jobs.
#[derive(Debug, Clone, PartialEq)]
pub struct World {
    pub repo: RepoRef,
    pub run: WorkflowRun,
    pub jobs: Vec<Job>,
    pub annotations: Vec<Annotation>,
    pub stats: Option<crate::stats::WorkflowStats>,
}

/// What a `World` holds that the diff reads.
pub struct WorldView {
    pub run: WorkflowRunView,
    pub jobs: Seq<JobView>,
}

impl View for World {
    type V = WorldView;

    open spec fn view(&self) -> WorldView {
        WorldView { run: self.run@, jobs: self.jobs.deep_view() }
    }
}

impl DeepView for World {
    type V = WorldView;

    open spec fn deep_view(&self) -> WorldView {
        self@
    }
}

/// Which runs to list.
#[derive(Debug, Clone, PartialEq, Eq)]
pub struct RunsQuery {
    pub repo: RepoRef,
    pub branch: Option<String>,
    pub head_sha: Option<String>,
    pub event: Option<String>,
    pub limit: u32,
}

/// One page of runs.
#[derive(Debug, Clone, PartialEq)]
pub struct RunsPage {
    pub total_count: u64,
    pub runs: Vec<WorkflowRun>,
}

/// How a watched run ended.
#[derive(Debug, Clone, PartialEq)]
pub struct Outcome {
    pub run: RunRef,
    pub conclusion: Conclusion,
}

/// A failed phase is a final one, and active is the opposite of final.
pub proof fn lemma_failed_is_terminal(p: PhaseView)
    ensures
        p.is_failed() ==> p.is_terminal(),
{
}

} // verus!
