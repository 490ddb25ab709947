//! The GitHub Actions adapter's own logic: addresses, pagination, status handling, and the
//! mapping of GitHub's records onto the domain model.

use vstd::prelude::*;

use crate::link::{link_next, next_link};
use crate::model::{
    phase_of, Annotation, Job, JobView, RepoRef, RepoRefView, RunsPage, RunsQuery, Step, StepView, Timestamp,
    WorkflowRun, WorkflowRunView, Phase,
};
use crate::ports::ProviderError;
use crate::retry::{delay_nanos, RetryPolicy};
use crate::status::{is_rate_limited, map_forbidden, retry_after_hint, retry_after_secs};
use crate::text::{chars_of, string_of, trim_end_matches, trim_end_matches_len};
use crate::time::{max_nanos, Duration};

verus! {

/// How to reach the API: its base address, the token, and the retry policy.
#[derive(Debug, Clone)]
pub struct GithubConfig {
    pub api_base: String,
    pub token: Option<String>,
    pub retry: RetryPolicy,
}

impl GithubConfig {
    /// GitHub's public API, no token, the default retry policy.
    pub fn default_config() -> (c: GithubConfig)
        ensures
            c.api_base@ == crate::cli::DEFAULT_API_BASE@,
            c.token is None,
            c.retry.max_retries == 2,
            c.retry.base_delay.total() == 250_000_000,
            c.retry.max_delay.total() == 5_000_000_000,
    {
        GithubConfig {
            api_base: String::from_str(crate::cli::DEFAULT_API_BASE),
            token: None,
            retry: RetryPolicy::default_policy(),
        }
    }
}

impl Default for GithubConfig {
    fn default() -> (c: GithubConfig)
        ensures
            c.api_base@ == crate::cli::DEFAULT_API_BASE@,
            c.token is None,
            c.retry.max_retries == 2,
            c.retry.base_delay.total() == 250_000_000,
            c.retry.max_delay.total() == 5_000_000_000,
    {
        GithubConfig::default_config()
    }
}

/// At most this many pages are fetched for one listing.
pub const MAX_PAGES: usize = 20;

/// The decimal digits of `n`.
pub open spec fn decimal(n: nat) -> Seq<char>
    decreases n,
{
    if n < 10 {
        seq![(('0' as nat) + n) as char]
    } else {
        decimal(n / 10).push((('0' as nat) + n % 10) as char)
    }
}

/// `n` in decimal, as `u64`'s `Display` writes it.
pub fn decimal_text(n: u64) -> (s: String)
    ensures
        s@ == decimal(n as nat),
    decreases n,
{
    let digit = (('0' as u32) + (n % 10) as u32) as u8 as char;
    let mut v: Vec<char> = Vec::new();
    let s = if n < 10 {
        v.push(digit);
        string_of_vec(&v)
    } else {
        let mut s = decimal_text(n / 10);
        v.push(digit);
        let d = string_of_vec(&v);
        s.append(d.as_str());
        s
    };
    assert(s@ =~= decimal(n as nat));
    s
}

fn string_of_vec(v: &Vec<char>) -> (s: String)
    ensures
        s@ == v@,
{
    crate::text::string_of_all(v)
}

/// The API base without trailing slashes.
pub open spec fn api_base(base: Seq<char>) -> Seq<char> {
    trim_end_matches(base, "/"@)
}

/// `base` without trailing `/`.
pub fn trimmed_base(base: &str) -> (r: String)
    ensures
        r@ == api_base(base@),
{
    let v = chars_of(base);
    let slash = chars_of("/");
    proof {
        reveal_strlit("/");
    }
    let n = trim_end_matches_len(&v, &slash);
    assert(v@.subrange(0, n as int) == v@.take(n as int));
    string_of(&v, 0, n)
}

/// `base/repos/OWNER/NAME`.
pub open spec fn repo_prefix(base: Seq<char>, repo: RepoRefView) -> Seq<char> {
    base + "/repos/"@ + repo.owner + "/"@ + repo.name
}

fn prefix_text(base: &str, repo: &RepoRef) -> (s: String)
    ensures
        s@ == repo_prefix(base@, repo@),
{
    let mut s = String::from_str(base);
    s.append("/repos/");
    s.append(repo.owner.as_str());
    s.append("/");
    s.append(repo.name.as_str());
    s
}

/// The address that lists a repository's runs.
pub fn runs_url(base: &str, repo: &RepoRef) -> (s: String)
    ensures
        s@ == repo_prefix(base@, repo@) + "/actions/runs"@,
{
    let mut s = prefix_text(base, repo);
    s.append("/actions/runs");
    s
}

/// The address of one run.
pub fn run_url(base: &str, repo: &RepoRef, run_id: u64) -> (s: String)
    ensures
        s@ == repo_prefix(base@, repo@) + "/actions/runs/"@ + decimal(run_id as nat),
{
    let mut s = prefix_text(base, repo);
    s.append("/actions/runs/");
    let id = decimal_text(run_id);
    s.append(id.as_str());
    s
}

/// The address of a run's first page of jobs.
pub fn jobs_url(base: &str, repo: &RepoRef, run_id: u64) -> (s: String)
    ensures
        s@ == repo_prefix(base@, repo@) + "/actions/runs/"@ + decimal(run_id as nat)
            + "/jobs?per_page=100"@,
{
    let mut s = run_url(base, repo, run_id);
    s.append("/jobs?per_page=100");
    s
}

/// The address of a pull request.
pub fn pull_url(base: &str, repo: &RepoRef, number: u64) -> (s: String)
    ensures
        s@ == repo_prefix(base@, repo@) + "/pulls/"@ + decimal(number as nat),
{
    let mut s = prefix_text(base, repo);
    s.append("/pulls/");
    let n = decimal_text(number);
    s.append(n.as_str());
    s
}

/// The address of a job's annotations.
pub fn annotations_url(base: &str, repo: &RepoRef, job_id: u64) -> (s: String)
    ensures
        s@ == repo_prefix(base@, repo@) + "/check-runs/"@ + decimal(job_id as nat)
            + "/annotations?per_page=100"@,
{
    let mut s = prefix_text(base, repo);
    s.append("/check-runs/");
    let n = decimal_text(job_id);
    s.append(n.as_str());
    s.append("/annotations?per_page=100");
    s
}

/// The address of a job's log.
pub fn logs_url(base: &str, repo: &RepoRef, job_id: u64) -> (s: String)
    ensures
        s@ == repo_prefix(base@, repo@) + "/actions/jobs/"@ + decimal(job_id as nat) + "/logs"@,
{
    let mut s = prefix_text(base, repo);
    s.append("/actions/jobs/");
    let n = decimal_text(job_id);
    s.append(n.as_str());
    s.append("/logs");
    s
}

/// The `per_page` to ask for: the limit, kept within 1 to 100.
pub fn per_page(limit: u32) -> (p: u32)
    ensures
        p == if limit < 1 {
            1
        } else if limit > 100 {
            100
        } else {
            limit
        },
{
    if limit < 1 {
        1
    } else if limit > 100 {
        100
    } else {
        limit
    }
}

/// The byte count of the query text that `pairs` make before encoding: each name and value,
/// and a separator for each.
pub open spec fn query_text_len(pairs: Seq<(Seq<char>, Seq<char>)>) -> nat
    decreases pairs.len(),
{
    if pairs.len() == 0 {
        0
    } else {
        query_text_len(pairs.drop_last()) + pairs.last().0.len() + pairs.last().1.len() + 2
    }
}

/// What `url::Url::parse` followed by appending `pairs` to the query
/// (`application/x-www-form-urlencoded`) and serializing gives: the address, or the parse
/// error's message.
pub uninterp spec fn url_with_query(url: Seq<char>, pairs: Seq<(Seq<char>, Seq<char>)>) -> Result<
    Seq<char>,
    Seq<char>,
>;

/// `reqwest::Url::parse(url)`, then `query_pairs_mut().extend_pairs(pairs)`, then the
/// serialized address; the parse error's message where `url` is no absolute address. What
/// comes out is not stated beyond its name: the parser normalizes and percent-encodes.
#[verifier::external_body]
fn add_query(url: &str, pairs: &Vec<(String, String)>) -> (r: Result<String, String>)
    requires
        12 * (url@.len() + query_text_len(pairs.deep_view())) < u32::MAX,
    ensures
        match r {
            Ok(s) => url_with_query(url@, pairs.deep_view()) == Ok::<Seq<char>, Seq<char>>(s@),
            Err(e) => url_with_query(url@, pairs.deep_view()) == Err::<Seq<char>, Seq<char>>(e@),
        },
{
    let mut parsed = match reqwest::Url::parse(url) {
        Ok(u) => u,
        Err(e) => return Err(e.to_string()),
    };
    parsed.query_pairs_mut().extend_pairs(pairs.iter());
    Ok(parsed.to_string())
}

/// The query pairs of a run listing: `per_page`, then `branch`, `event` and `head_sha`
/// where the query sets them.
pub open spec fn runs_query_pairs(
    limit: u32,
    branch: Option<Seq<char>>,
    event: Option<Seq<char>>,
    head_sha: Option<Seq<char>>,
) -> Seq<(Seq<char>, Seq<char>)> {
    let p = if limit < 1 {
        1nat
    } else if limit > 100 {
        100nat
    } else {
        limit as nat
    };
    let a = seq![("per_page"@, decimal(p))];
    let b = match branch {
        Some(x) => a.push(("branch"@, x)),
        None => a,
    };
    let c = match event {
        Some(x) => b.push(("event"@, x)),
        None => b,
    };
    match head_sha {
        Some(x) => c.push(("head_sha"@, x)),
        None => c,
    }
}

fn push_pair(pairs: &mut Vec<(String, String)>, name: &str, value: &Option<String>)
    ensures
        final(pairs).deep_view() == match value {
            Some(v) => old(pairs).deep_view().push((name@, v@)),
            None => old(pairs).deep_view(),
        },
{
    if let Some(v) = value {
        let ghost before = pairs.deep_view();
        pairs.push((String::from_str(name), v.clone()));
        assert(pairs.deep_view() =~= before.push((name@, v@)));
    }
}

/// The address of a run listing with its query, from the API base (without trailing
/// slashes) and the query; a parse error where the base is no absolute address.
pub fn runs_list_url(base: &str, query: &RunsQuery) -> (r: Result<String, ProviderError>)
    requires
        12 * ((repo_prefix(base@, query.repo@) + "/actions/runs"@).len() + query_text_len(
            runs_query_pairs(
                query.limit,
                query.branch.deep_view(),
                query.event.deep_view(),
                query.head_sha.deep_view(),
            ),
        )) < u32::MAX,
    ensures
        ({
            let pairs = runs_query_pairs(
                query.limit,
                query.branch.deep_view(),
                query.event.deep_view(),
                query.head_sha.deep_view(),
            );
            match url_with_query(repo_prefix(base@, query.repo@) + "/actions/runs"@, pairs) {
                Ok(s) => r matches Ok(u) && u@ == s,
                Err(m) => r matches Err(ProviderError::Parse(e)) && e@ == m,
            }
        }),
{
    let url = runs_url(base, &query.repo);
    let mut pairs: Vec<(String, String)> = Vec::new();
    let n = decimal_text(per_page(query.limit) as u64);
    pairs.push((String::from_str("per_page"), n));
    proof {
        reveal_strlit("per_page");
        reveal_strlit("branch");
        reveal_strlit("event");
        reveal_strlit("head_sha");
    }
    push_pair(&mut pairs, "branch", &query.branch);
    push_pair(&mut pairs, "event", &query.event);
    push_pair(&mut pairs, "head_sha", &query.head_sha);
    assert(pairs.deep_view() =~= runs_query_pairs(
        query.limit,
        query.branch.deep_view(),
        query.event.deep_view(),
        query.head_sha.deep_view(),
    ));
    match add_query(url.as_str(), &pairs) {
        Ok(u) => Ok(u),
        Err(e) => Err(ProviderError::Parse(e)),
    }
}

/// A header value as `http` accepts it: no control character but the tab.
pub open spec fn valid_header_text(s: Seq<char>) -> bool {
    forall|i: int| 0 <= i < s.len() ==> (32 <= #[trigger] (s[i] as u32) && s[i] as u32 != 127) || s[i] == '\t'
}

/// `reqwest::header::HeaderValue::from_str(s)` succeeds: `http` rejects exactly the bytes
/// below 32 but the tab, and 127; every byte of a non-ASCII character is 128 or more.
#[verifier::external_body]
fn header_value_valid(s: &str) -> (r: bool)
    ensures
        r == valid_header_text(s@),
{
    reqwest::header::HeaderValue::from_str(s).is_ok()
}

/// The `Authorization` value for a token, `Bearer TOKEN`; `Auth` where the token cannot
/// stand in a header.
pub fn bearer_value(token: &str) -> (r: Result<String, ProviderError>)
    ensures
        valid_header_text("Bearer "@ + token@) ==> (r matches Ok(v) && v@ == "Bearer "@ + token@),
        !valid_header_text("Bearer "@ + token@) ==> r matches Err(ProviderError::Auth),
{
    let mut v = String::from_str("Bearer ");
    v.append(token);
    if header_value_valid(v.as_str()) {
        Ok(v)
    } else {
        Err(ProviderError::Auth)
    }
}

/// The `message` string of a JSON object body, as `serde_json` reads it; none where the body
/// is no JSON, no object, or has no string `message`.
pub uninterp spec fn json_message(body: Seq<u8>) -> Option<Seq<char>>;

/// `serde_json::from_slice::<serde_json::Value>(body)`, then `get("message")` and `as_str`.
#[verifier::external_body]
fn message_in(body: &[u8]) -> (r: Option<String>)
    ensures
        r.deep_view() == json_message(body@),
{
    match serde_json::from_slice::<serde_json::Value>(body) {
        Ok(value) => match value.get("message").and_then(serde_json::Value::as_str) {
            Some(m) => Some(m.to_string()),
            None => None,
        },
        Err(_) => None,
    }
}

/// The provider's explanation of a failed answer: the `message` of its JSON body, else the
/// status line (also where the body could not be read).
pub fn error_message(body: Option<&[u8]>, status_text: &str) -> (m: String)
    ensures
        m@ == match body {
            Some(b) => match json_message(b@) {
                Some(msg) => msg,
                None => status_text@,
            },
            None => status_text@,
        },
{
    match body {
        Some(b) => match message_in(b) {
            Some(msg) => msg,
            None => String::from_str(status_text),
        },
        None => String::from_str(status_text),
    }
}

/// Runs gathered page by page for one listing.
pub struct RunsCollector {
    limit: u32,
    pages: usize,
    total_count: u64,
    runs: Vec<WorkflowRun>,
}

/// What a `RunsCollector` holds.
pub struct RunsCollectorView {
    pub limit: u32,
    pub pages: nat,
    pub total_count: u64,
    pub runs: Seq<WorkflowRunView>,
}

impl RunsCollector {
    /// What the collector holds.
    pub closed spec fn view(&self) -> RunsCollectorView {
        RunsCollectorView {
            limit: self.limit,
            pages: self.pages as nat,
            total_count: self.total_count,
            runs: self.runs.deep_view(),
        }
    }

    /// A collector for at most `limit` runs.
    pub fn new(limit: u32) -> (c: RunsCollector)
        ensures
            c.view() == (RunsCollectorView { limit, pages: 0, total_count: 0, runs: Seq::empty() }),
    {
        let c = RunsCollector { limit, pages: 0, total_count: 0, runs: Vec::new() };
        assert(c.view().runs =~= Seq::<WorkflowRunView>::empty());
        c
    }

    /// Takes one page: its runs are added, its total counts where none was seen yet. Gives
    /// the next page's address, or none once enough runs, `MAX_PAGES` pages or the last
    /// page are reached.
    pub fn add_page(&mut self, total_count: u64, runs: Vec<WorkflowRun>, link: Option<&str>) -> (next: Option<String>)
        requires
            old(self).view().pages < MAX_PAGES,
        ensures
            final(self).view() == (RunsCollectorView {
                limit: old(self).view().limit,
                pages: old(self).view().pages + 1,
                total_count: if old(self).view().total_count == 0 {
                    total_count
                } else {
                    old(self).view().total_count
                },
                runs: old(self).view().runs + runs.deep_view(),
            }),
            next.deep_view() == if final(self).view().runs.len() >= old(self).view().limit
                || final(self).view().pages >= MAX_PAGES {
                None
            } else {
                match link {
                    Some(h) => next_link(h@),
                    None => None,
                }
            },
    {
        if self.total_count == 0 {
            self.total_count = total_count;
        }
        let ghost before = self.runs.deep_view();
        let mut runs = runs;
        let ghost added = runs.deep_view();
        self.runs.append(&mut runs);
        assert(self.runs.deep_view() =~= before + added);
        self.pages = self.pages + 1;
        if self.runs.len() >= self.limit as usize || self.pages >= MAX_PAGES {
            return None;
        }
        link_next(link)
    }

    /// The listing: the total count and the first `limit` runs.
    pub fn finish(self) -> (page: RunsPage)
        ensures
            page.total_count == self.view().total_count,
            page.runs.deep_view() == if self.view().runs.len() > self.view().limit {
                self.view().runs.take(self.view().limit as int)
            } else {
                self.view().runs
            },
    {
        let mut runs = self.runs;
        let ghost all = runs.deep_view();
        runs.truncate(self.limit as usize);
        assert(runs.deep_view() =~= if all.len() > self.limit {
            all.take(self.limit as int)
        } else {
            all
        });
        RunsPage { total_count: self.total_count, runs }
    }
}

/// Jobs gathered page by page for one run.
pub struct JobsCollector {
    pages: usize,
    jobs: Vec<Job>,
}

impl JobsCollector {
    /// The pages taken so far and their jobs.
    pub closed spec fn view(&self) -> (nat, Seq<JobView>) {
        (self.pages as nat, self.jobs.deep_view())
    }

    /// No page yet.
    pub fn new() -> (c: JobsCollector)
        ensures
            c.view() == (0nat, Seq::<JobView>::empty()),
    {
        let c = JobsCollector { pages: 0, jobs: Vec::new() };
        assert(c.view().1 =~= Seq::<JobView>::empty());
        c
    }

    /// Takes one page of jobs; gives the next page's address, or none after `MAX_PAGES`
    /// pages or the last page.
    pub fn add_page(&mut self, jobs: Vec<Job>, link: Option<&str>) -> (next: Option<String>)
        requires
            old(self).view().0 < MAX_PAGES,
        ensures
            final(self).view() == (old(self).view().0 + 1, old(self).view().1 + jobs.deep_view()),
            next.deep_view() == if final(self).view().0 >= MAX_PAGES {
                None
            } else {
                match link {
                    Some(h) => next_link(h@),
                    None => None,
                }
            },
    {
        let ghost before = self.jobs.deep_view();
        let mut jobs = jobs;
        let ghost added = jobs.deep_view();
        self.jobs.append(&mut jobs);
        assert(self.jobs.deep_view() =~= before + added);
        self.pages = self.pages + 1;
        if self.pages >= MAX_PAGES {
            return None;
        }
        link_next(link)
    }

    /// The jobs gathered.
    pub fn finish(self) -> (jobs: Vec<Job>)
        ensures
            jobs.deep_view() == self.view().1,
    {
        self.jobs
    }
}

/// The kind of an HTTP status, as the adapter treats it.
#[derive(Debug, Clone, Copy, PartialEq, Eq)]
pub enum StatusKind {
    Success,
    NotModified,
    Unauthorized,
    NotFound,
    TooManyRequests,
    Forbidden,
    ServerError,
    Unexpected,
}

/// The kind of status `code`.
pub open spec fn status_kind(code: u16) -> StatusKind {
    if 200 <= code <= 299 {
        StatusKind::Success
    } else if code == 304 {
        StatusKind::NotModified
    } else if code == 401 {
        StatusKind::Unauthorized
    } else if code == 404 {
        StatusKind::NotFound
    } else if code == 429 {
        StatusKind::TooManyRequests
    } else if code == 403 {
        StatusKind::Forbidden
    } else if 500 <= code <= 599 {
        StatusKind::ServerError
    } else {
        StatusKind::Unexpected
    }
}

/// Sorts a status code.
pub fn classify_status(code: u16) -> (k: StatusKind)
    ensures
        k == status_kind(code),
{
    if 200 <= code && code <= 299 {
        StatusKind::Success
    } else if code == 304 {
        StatusKind::NotModified
    } else if code == 401 {
        StatusKind::Unauthorized
    } else if code == 404 {
        StatusKind::NotFound
    } else if code == 429 {
        StatusKind::TooManyRequests
    } else if code == 403 {
        StatusKind::Forbidden
    } else if 500 <= code && code <= 599 {
        StatusKind::ServerError
    } else {
        StatusKind::Unexpected
    }
}

/// After a failure that may pass: the wait before the next try, or the error where the
/// retries are used up.
pub fn retry_or(policy: &RetryPolicy, attempt: &mut u32, error: ProviderError) -> (r: Result<Duration, ProviderError>)
    requires
        *old(attempt) < policy.max_retries ==> policy.base_delay.total() * (*old(attempt) + 1)
            <= max_nanos(),
    ensures
        *old(attempt) < policy.max_retries ==> *final(attempt) == *old(attempt) + 1 && (r matches Ok(d)
            && d.total() == delay_nanos(*policy, *final(attempt))),
        *old(attempt) >= policy.max_retries ==> *final(attempt) == *old(attempt) && r == Err::<
            Duration,
            ProviderError,
        >(error),
{
    match policy.retry_delay(attempt) {
        Some(delay) => Ok(delay),
        None => Err(error),
    }
}

/// `url: message`.
pub fn url_message(url: &str, message: &str) -> (s: String)
    ensures
        s@ == url@ + ": "@ + message@,
{
    let mut s = String::from_str(url);
    s.append(": ");
    s.append(message);
    s
}

/// A `304` answer: the cached body, or a parse error where nothing was cached.
pub fn not_modified_body(url: &str, cached: Option<String>) -> (r: Result<String, ProviderError>)
    ensures
        match cached {
            Some(body) => r matches Ok(b) && b@ == body@,
            None => r matches Err(ProviderError::Parse(m)) && m@ == url@ + ": "@
                + "304 without a cached body"@,
        },
{
    match cached {
        Some(body) => Ok(body),
        None => Err(ProviderError::Parse(url_message(url, "304 without a cached body"))),
    }
}

/// The error for a `429` answer (`too_many` holds) or a `403` one, from its rate-limit
/// headers and, for a 403, the provider's message.
pub fn rate_limit_error(
    too_many: bool,
    remaining: Option<&str>,
    retry_after: Option<&str>,
    reset_epoch: Option<&str>,
    now_secs: u64,
    message: String,
) -> (e: ProviderError)
    ensures
        (too_many || remaining.deep_view() == Some("0"@)) ==> (e matches ProviderError::RateLimited {
            retry_after: d,
        } && d.total() == retry_after_secs(retry_after.deep_view(), reset_epoch.deep_view(), now_secs)
            * 1_000_000_000),
        !(too_many || remaining.deep_view() == Some("0"@)) ==> (e matches ProviderError::Other(m)
            && m@ == message@),
{
    if too_many {
        return ProviderError::RateLimited {
            retry_after: retry_after_hint(retry_after, reset_epoch, now_secs),
        };
    }
    map_forbidden(is_rate_limited(remaining), retry_after, reset_epoch, now_secs, message)
}

/// What to do with an answer of the provider.
#[derive(Debug)]
pub enum ResponseAction {
    /// A success: read the body.
    ReadBody,
    /// The answer is final: this body or this error.
    Done(Result<String, ProviderError>),
    /// A 404 or 403: read the provider's message, then call `message_error`.
    ReadMessage,
    /// Wait this long, then ask again.
    Retry(Duration),
}

/// What `fetch` does with an answer of status `code`: read a success; reuse the cached
/// body on a 304 where `cached` is `Some` (where it is `None`, a 304 is unexpected); fail
/// with `Auth` on a 401; read the message on a 404 or 403; fail as rate limited on a 429;
/// retry a 5xx while retries remain, else fail with `url: upstream returned STATUS`; fail
/// with `url: unexpected status STATUS` on anything else.
pub fn response_action(
    policy: &RetryPolicy,
    attempt: &mut u32,
    url: &str,
    code: u16,
    status_text: &str,
    cached: Option<Option<String>>,
    retry_after: Option<&str>,
    reset_epoch: Option<&str>,
    now_secs: u64,
) -> (a: ResponseAction)
    requires
        *old(attempt) < policy.max_retries ==> policy.base_delay.total() * (*old(attempt) + 1)
            <= max_nanos(),
    ensures
        status_kind(code) != StatusKind::ServerError ==> *final(attempt) == *old(attempt),
        match status_kind(code) {
            StatusKind::Success => a is ReadBody,
            StatusKind::NotModified => match cached {
                Some(Some(body)) => a matches ResponseAction::Done(Ok(b)) && b@ == body@,
                Some(None) => a matches ResponseAction::Done(Err(ProviderError::Parse(m))) && m@
                    == url@ + ": "@ + "304 without a cached body"@,
                None => a matches ResponseAction::Done(Err(ProviderError::Other(m))) && m@ == url@
                    + ": "@ + "unexpected status "@ + status_text@,
            },
            StatusKind::Unauthorized => a matches ResponseAction::Done(Err(ProviderError::Auth)),
            StatusKind::NotFound | StatusKind::Forbidden => a is ReadMessage,
            StatusKind::TooManyRequests => a matches ResponseAction::Done(
                Err(ProviderError::RateLimited { retry_after: d }),
            ) && d.total() == retry_after_secs(retry_after.deep_view(), reset_epoch.deep_view(), now_secs)
                * 1_000_000_000,
            StatusKind::ServerError => if *old(attempt) < policy.max_retries {
                *final(attempt) == *old(attempt) + 1 && (a matches ResponseAction::Retry(d)
                    && d.total() == delay_nanos(*policy, *final(attempt)))
            } else {
                *final(attempt) == *old(attempt) && (a matches ResponseAction::Done(
                    Err(ProviderError::Other(m)),
                ) && m@ == url@ + ": "@ + "upstream returned "@ + status_text@)
            },
            StatusKind::Unexpected => a matches ResponseAction::Done(Err(ProviderError::Other(m)))
                && m@ == url@ + ": "@ + "unexpected status "@ + status_text@,
        },
{
    match classify_status(code) {
        StatusKind::Success => ResponseAction::ReadBody,
        StatusKind::NotModified => match cached {
            Some(c) => ResponseAction::Done(not_modified_body(url, c)),
            None => ResponseAction::Done(Err(ProviderError::Other(status_message(url, "unexpected status ", status_text)))),
        },
        StatusKind::Unauthorized => ResponseAction::Done(Err(ProviderError::Auth)),
        StatusKind::NotFound | StatusKind::Forbidden => ResponseAction::ReadMessage,
        StatusKind::TooManyRequests => ResponseAction::Done(
            Err(rate_limit_error(true, None, retry_after, reset_epoch, now_secs, String::new())),
        ),
        StatusKind::ServerError => {
            let error = ProviderError::Other(status_message(url, "upstream returned ", status_text));
            match retry_or(policy, attempt, error) {
                Ok(delay) => ResponseAction::Retry(delay),
                Err(e) => ResponseAction::Done(Err(e)),
            }
        },
        StatusKind::Unexpected => ResponseAction::Done(
            Err(ProviderError::Other(status_message(url, "unexpected status ", status_text))),
        ),
    }
}

/// `url: what STATUS`.
fn status_message(url: &str, what: &str, status_text: &str) -> (s: String)
    ensures
        s@ == url@ + ": "@ + what@ + status_text@,
{
    let mut s = url_message(url, what);
    s.append(status_text);
    assert(s@ =~= url@ + ": "@ + what@ + status_text@);
    s
}

/// The error for a 404 (`code` 404) or 403 answer once its message is read.
pub fn message_error(
    code: u16,
    message: String,
    remaining: Option<&str>,
    retry_after: Option<&str>,
    reset_epoch: Option<&str>,
    now_secs: u64,
) -> (e: ProviderError)
    ensures
        code == 404 ==> (e matches ProviderError::NotFound(m) && m@ == message@),
        code != 404 && remaining.deep_view() == Some("0"@) ==> (e matches ProviderError::RateLimited {
            retry_after: d,
        } && d.total() == retry_after_secs(retry_after.deep_view(), reset_epoch.deep_view(), now_secs)
            * 1_000_000_000),
        code != 404 && remaining.deep_view() != Some("0"@) ==> (e matches ProviderError::Other(m)
            && m@ == message@),
{
    if code == 404 {
        ProviderError::NotFound(message)
    } else {
        rate_limit_error(false, remaining, retry_after, reset_epoch, now_secs, message)
    }
}

/// What to do when a request did not get through or its body did not arrive: wait and ask
/// again while retries remain, else fail with a transport error.
pub fn transport_action(policy: &RetryPolicy, attempt: &mut u32, error: String) -> (a: ResponseAction)
    requires
        *old(attempt) < policy.max_retries ==> policy.base_delay.total() * (*old(attempt) + 1)
            <= max_nanos(),
    ensures
        *old(attempt) < policy.max_retries ==> *final(attempt) == *old(attempt) + 1 && (a matches ResponseAction::Retry(d)
            && d.total() == delay_nanos(*policy, *final(attempt))),
        *old(attempt) >= policy.max_retries ==> *final(attempt) == *old(attempt) && (a matches ResponseAction::Done(
            Err(ProviderError::Transport(m)),
        ) && m@ == error@),
{
    match retry_or(policy, attempt, ProviderError::Transport(error)) {
        Ok(delay) => ResponseAction::Retry(delay),
        Err(e) => ResponseAction::Done(Err(e)),
    }
}

/// A person as GitHub records one.
#[derive(Debug, Clone, PartialEq, Eq)]
pub struct RawActor {
    pub login: String,
}

/// A run as GitHub records one; missing fields hold their defaults.
#[derive(Debug, Clone, PartialEq)]
pub struct RawRun {
    pub id: u64,
    pub run_number: u64,
    pub name: String,
    pub display_title: String,
    pub head_branch: Option<String>,
    pub head_sha: String,
    pub event: String,
    pub status: String,
    pub conclusion: Option<String>,
    pub actor: Option<RawActor>,
    pub html_url: String,
    pub created_at: Option<Timestamp>,
    pub run_started_at: Option<Timestamp>,
    pub updated_at: Option<Timestamp>,
}

/// A timestamp, or the epoch where there is none.
pub open spec fn or_epoch(t: Option<Timestamp>) -> Timestamp {
    match t {
        Some(t) => t,
        None => Timestamp { second: 0, nanosecond: 0 },
    }
}

impl RawRun {
    /// The run in the domain model: the phase from status and conclusion, the actor's login
    /// (empty without actor), the epoch for missing times.
    pub fn into_model(self) -> (run: WorkflowRun)
        ensures
            run@ == (WorkflowRunView {
                id: self.id,
                run_number: self.run_number,
                name: self.name@,
                display_title: self.display_title@,
                head_branch: self.head_branch.deep_view(),
                head_sha: self.head_sha@,
                event: self.event@,
                phase: phase_of(self.status@, self.conclusion.deep_view()),
                actor: match self.actor {
                    Some(a) => a.login@,
                    None => Seq::empty(),
                },
                html_url: self.html_url@,
                created_at: or_epoch(self.created_at),
                run_started_at: self.run_started_at,
                updated_at: or_epoch(self.updated_at),
            }),
    {
        let phase = Phase::from_parts(
            self.status.as_str(),
            match &self.conclusion {
                Some(c) => Some(c.as_str()),
                None => None,
            },
        );
        let actor = match self.actor {
            Some(a) => a.login,
            None => String::new(),
        };
        let created_at = match self.created_at {
            Some(t) => t,
            None => Timestamp::epoch(),
        };
        let updated_at = match self.updated_at {
            Some(t) => t,
            None => Timestamp::epoch(),
        };
        WorkflowRun {
            id: self.id,
            run_number: self.run_number,
            name: self.name,
            display_title: self.display_title,
            head_branch: self.head_branch,
            head_sha: self.head_sha,
            event: self.event,
            phase,
            actor,
            html_url: self.html_url,
            created_at,
            run_started_at: self.run_started_at,
            updated_at,
        }
    }
}

/// One page of GitHub's run listing.
#[derive(Debug, Clone, PartialEq)]
pub struct RawRunsPage {
    pub total_count: u64,
    pub workflow_runs: Vec<RawRun>,
}

/// The head commit of a pull request.
#[derive(Debug, Clone, PartialEq, Eq)]
pub struct RawPullHead {
    pub sha: String,
}

/// A pull request as GitHub records one.
#[derive(Debug, Clone, PartialEq, Eq)]
pub struct RawPull {
    pub number: u64,
    pub head: RawPullHead,
}

/// A step as GitHub records one.
#[derive(Debug, Clone, PartialEq)]
pub struct RawStep {
    pub name: String,
    pub number: u64,
    pub status: String,
    pub conclusion: Option<String>,
    pub started_at: Option<Timestamp>,
    pub completed_at: Option<Timestamp>,
}

/// The step that a GitHub record describes.
pub open spec fn step_of(raw: RawStep) -> StepView {
    StepView {
        number: raw.number,
        name: raw.name@,
        phase: phase_of(raw.status@, raw.conclusion.deep_view()),
        started_at: raw.started_at,
        completed_at: raw.completed_at,
    }
}

impl RawStep {
    /// The step in the domain model.
    pub fn into_model(self) -> (step: Step)
        ensures
            step@ == step_of(self),
    {
        let phase = Phase::from_parts(
            self.status.as_str(),
            match &self.conclusion {
                Some(c) => Some(c.as_str()),
                None => None,
            },
        );
        Step {
            number: self.number,
            name: self.name,
            phase,
            started_at: self.started_at,
            completed_at: self.completed_at,
        }
    }
}

/// A step keeps the number, name, start and completion time that GitHub records for it.
pub proof fn lemma_step_keeps_its_record(raw: RawStep)
    ensures
        step_of(raw).number == raw.number,
        step_of(raw).name == raw.name@,
        step_of(raw).started_at == raw.started_at,
        step_of(raw).completed_at == raw.completed_at,
{
}

/// The steps of a job keep, in order, the start and completion time of each step's record.
pub proof fn lemma_job_steps_keep_their_times(raws: Seq<RawStep>, i: int)
    requires
        0 <= i < raws.len(),
    ensures
        raws.map_values(|s: RawStep| step_of(s)).len() == raws.len(),
        raws.map_values(|s: RawStep| step_of(s))[i].started_at == raws[i].started_at,
        raws.map_values(|s: RawStep| step_of(s))[i].completed_at == raws[i].completed_at,
{
}

/// A job as GitHub records one.
#[derive(Debug, Clone, PartialEq)]
pub struct RawJob {
    pub id: u64,
    pub run_id: u64,
    pub name: String,
    pub status: String,
    pub conclusion: Option<String>,
    pub started_at: Option<Timestamp>,
    pub completed_at: Option<Timestamp>,
    pub runner_name: Option<String>,
    pub labels: Vec<String>,
    pub steps: Vec<RawStep>,
}

impl RawJob {
    /// The job in the domain model, its steps mapped in order.
    pub fn into_model(self) -> (job: Job)
        ensures
            job@ == (JobView {
                id: self.id,
                run_id: self.run_id,
                name: self.name@,
                phase: phase_of(self.status@, self.conclusion.deep_view()),
                started_at: self.started_at,
                completed_at: self.completed_at,
                runner_name: self.runner_name.deep_view(),
                labels: self.labels.deep_view(),
                steps: self.steps@.map_values(|s: RawStep| step_of(s)),
            }),
    {
        let phase = Phase::from_parts(
            self.status.as_str(),
            match &self.conclusion {
                Some(c) => Some(c.as_str()),
                None => None,
            },
        );
        let raw_steps = self.steps;
        let ghost all = raw_steps@;
        let mut steps: Vec<Step> = Vec::new();
        for raw in it: raw_steps
            invariant
                it.seq() == all,
                steps.deep_view() == all.take(it.index() as int).map_values(|s: RawStep| step_of(s)),
        {
            let ghost before = steps.deep_view();
            let ghost k = it.index() as int;
            assert(raw == all[k]);
            steps.push(raw.into_model());
            assert(all.take(k + 1).map_values(|s: RawStep| step_of(s)) =~= before.push(
                step_of(all[k]),
            ));
            assert(steps.deep_view() =~= before.push(step_of(all[k])));
        }
        assert(all.take(all.len() as int) =~= all);
        Job {
            id: self.id,
            run_id: self.run_id,
            name: self.name,
            phase,
            started_at: self.started_at,
            completed_at: self.completed_at,
            runner_name: self.runner_name,
            labels: self.labels,
            steps,
        }
    }
}

/// One page of GitHub's job listing.
#[derive(Debug, Clone, PartialEq)]
pub struct RawJobsPage {
    pub total_count: u64,
    pub jobs: Vec<RawJob>,
}

/// A check annotation as GitHub records one.
#[derive(Debug, Clone, PartialEq)]
pub struct RawAnnotation {
    pub path: Option<String>,
    pub start_line: Option<u64>,
    pub message: String,
}

impl RawAnnotation {
    /// The annotation in the domain model, attached to job `job_id`.
    pub fn into_model(self, job_id: u64) -> (a: Annotation)
        ensures
            a.job_id == job_id,
            a.path == self.path,
            a.start_line == self.start_line,
            a.message == self.message,
    {
        Annotation { job_id, path: self.path, start_line: self.start_line, message: self.message }
    }
}

} // verus!
