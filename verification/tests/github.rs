use doneyet::github::{
    annotations_url, bearer_value, classify_status, error_message, runs_list_url, decimal_text, jobs_url, logs_url, message_error,
    not_modified_body, per_page, pull_url, response_action, run_url, runs_url, transport_action,
    trimmed_base, GithubConfig, JobsCollector, RawActor, RawAnnotation, RawJob, RawRun, RawStep,
    ResponseAction, RunsCollector, StatusKind,
};
use doneyet::model::{Conclusion, Phase, RepoRef, RunsQuery, Timestamp, WorkflowRun};
use doneyet::ports::ProviderError;
use doneyet::retry::RetryPolicy;
use doneyet::time::Duration;

fn repo() -> RepoRef {
    RepoRef {
        owner: "acme".to_string(),
        name: "api".to_string(),
    }
}

fn raw_run(status: &str, conclusion: Option<&str>) -> RawRun {
    RawRun {
        id: 1,
        run_number: 1,
        name: "ci".to_string(),
        display_title: String::new(),
        head_branch: None,
        head_sha: String::new(),
        event: String::new(),
        status: status.to_string(),
        conclusion: conclusion.map(|c| c.to_string()),
        actor: None,
        html_url: String::new(),
        created_at: None,
        run_started_at: None,
        updated_at: None,
    }
}

fn model_run(id: u64) -> WorkflowRun {
    let mut raw = raw_run("queued", None);
    raw.id = id;
    raw.into_model()
}

#[test]
fn completed_run_with_null_conclusion_maps_to_done_other() {
    let raw = RawRun {
        id: 1,
        run_number: 1,
        name: "ci".to_string(),
        display_title: String::new(),
        head_branch: None,
        head_sha: String::new(),
        event: String::new(),
        status: "completed".to_string(),
        conclusion: None,
        actor: None,
        html_url: String::new(),
        created_at: None,
        run_started_at: None,
        updated_at: None,
    };
    let model = raw.into_model();
    assert_eq!(
        model.phase,
        Phase::Done(doneyet::model::Conclusion::Other("null".to_string()))
    );
    assert_eq!(model.actor, "");
}

#[test]
fn raw_run_keeps_its_fields_and_defaults_missing_times() {
    let mut raw = raw_run("completed", Some("success"));
    raw.actor = Some(RawActor {
        login: "jonas".to_string(),
    });
    raw.run_started_at = Some(Timestamp {
        second: 5,
        nanosecond: 0,
    });
    let model = raw.into_model();
    assert_eq!(model.phase, Phase::Done(Conclusion::Success));
    assert_eq!(model.actor, "jonas");
    assert_eq!(model.created_at, Timestamp { second: 0, nanosecond: 0 });
    assert_eq!(model.updated_at, Timestamp { second: 0, nanosecond: 0 });
    assert_eq!(model.run_started_at, Some(Timestamp { second: 5, nanosecond: 0 }));
}

#[test]
fn raw_job_maps_its_steps_in_order() {
    let raw = RawJob {
        id: 10,
        run_id: 1,
        name: "build".to_string(),
        status: "in_progress".to_string(),
        conclusion: None,
        started_at: None,
        completed_at: None,
        runner_name: Some("r1".to_string()),
        labels: vec!["ubuntu".to_string()],
        steps: vec![
            RawStep {
                name: "checkout".to_string(),
                number: 1,
                status: "completed".to_string(),
                conclusion: Some("success".to_string()),
                started_at: None,
                completed_at: None,
            },
            RawStep {
                name: "test".to_string(),
                number: 2,
                status: "queued".to_string(),
                conclusion: None,
                started_at: None,
                completed_at: None,
            },
        ],
    };
    let job = raw.into_model();
    assert_eq!(job.phase, Phase::InProgress);
    assert_eq!(job.steps.len(), 2);
    assert_eq!(job.steps[0].name, "checkout");
    assert_eq!(job.steps[0].phase, Phase::Done(Conclusion::Success));
    assert_eq!(job.steps[1].phase, Phase::Queued);
    assert_eq!(job.labels, vec!["ubuntu".to_string()]);
    let note = RawAnnotation {
        path: Some("src/lib.rs".to_string()),
        start_line: Some(3),
        message: "boom".to_string(),
    }
    .into_model(10);
    assert_eq!(note.job_id, 10);
    assert_eq!(note.message, "boom");
}

#[test]
fn api_addresses() {
    let base = trimmed_base("https://api.github.com//");
    assert_eq!(base, "https://api.github.com");
    assert_eq!(
        runs_url(&base, &repo()),
        "https://api.github.com/repos/acme/api/actions/runs"
    );
    assert_eq!(
        run_url(&base, &repo(), 2841),
        "https://api.github.com/repos/acme/api/actions/runs/2841"
    );
    assert_eq!(
        jobs_url(&base, &repo(), 2841),
        "https://api.github.com/repos/acme/api/actions/runs/2841/jobs?per_page=100"
    );
    assert_eq!(
        pull_url(&base, &repo(), 7),
        "https://api.github.com/repos/acme/api/pulls/7"
    );
    assert_eq!(
        annotations_url(&base, &repo(), 99),
        "https://api.github.com/repos/acme/api/check-runs/99/annotations?per_page=100"
    );
    assert_eq!(
        logs_url(&base, &repo(), 99),
        "https://api.github.com/repos/acme/api/actions/jobs/99/logs"
    );
    assert_eq!(decimal_text(0), "0");
    assert_eq!(decimal_text(u64::MAX), u64::MAX.to_string());
    assert_eq!(GithubConfig::default().api_base, "https://api.github.com");
}

#[test]
fn per_page_is_clamped() {
    assert_eq!(per_page(0), 1);
    assert_eq!(per_page(30), 30);
    assert_eq!(per_page(500), 100);
}

#[test]
fn runs_collector_stops_at_the_limit() {
    let mut c = RunsCollector::new(3);
    let next = c.add_page(
        10,
        vec![model_run(1), model_run(2)],
        Some("<https://api/next>; rel=\"next\", <https://api/last>; rel=\"last\""),
    );
    assert_eq!(next.as_deref(), Some("https://api/next"));
    let next = c.add_page(99, vec![model_run(3), model_run(4)], Some("<https://api/p3>; rel=\"next\""));
    assert_eq!(next, None);
    let page = c.finish();
    assert_eq!(page.total_count, 10);
    let ids: Vec<u64> = page.runs.iter().map(|r| r.id).collect();
    assert_eq!(ids, vec![1, 2, 3]);
}

#[test]
fn jobs_collector_follows_links_until_none() {
    let mut c = JobsCollector::new();
    assert_eq!(c.add_page(Vec::new(), Some("<u2>; rel=\"next\"")).as_deref(), Some("u2"));
    assert_eq!(c.add_page(Vec::new(), None), None);
    assert!(c.finish().is_empty());
}

#[test]
fn statuses_are_sorted() {
    assert_eq!(classify_status(200), StatusKind::Success);
    assert_eq!(classify_status(204), StatusKind::Success);
    assert_eq!(classify_status(304), StatusKind::NotModified);
    assert_eq!(classify_status(401), StatusKind::Unauthorized);
    assert_eq!(classify_status(403), StatusKind::Forbidden);
    assert_eq!(classify_status(404), StatusKind::NotFound);
    assert_eq!(classify_status(429), StatusKind::TooManyRequests);
    assert_eq!(classify_status(502), StatusKind::ServerError);
    assert_eq!(classify_status(418), StatusKind::Unexpected);
}

#[test]
fn server_errors_retry_then_give_up() {
    let policy = RetryPolicy::default();
    let mut attempt = 0;
    let a = response_action(&policy, &mut attempt, "u", 500, "500 Internal Server Error", None, None, None, 0);
    assert!(matches!(a, ResponseAction::Retry(d) if d == Duration::from_millis(250)));
    let a = response_action(&policy, &mut attempt, "u", 503, "503 Service Unavailable", None, None, None, 0);
    assert!(matches!(a, ResponseAction::Retry(d) if d == Duration::from_millis(500)));
    let a = response_action(&policy, &mut attempt, "u", 500, "500 Internal Server Error", None, None, None, 0);
    assert!(matches!(
        a,
        ResponseAction::Done(Err(ProviderError::Other(m))) if m == "u: upstream returned 500 Internal Server Error"
    ));
    assert_eq!(attempt, 2);
}

#[test]
fn other_statuses_map_to_their_actions() {
    let policy = RetryPolicy::default();
    let mut attempt = 0;
    assert!(matches!(
        response_action(&policy, &mut attempt, "u", 200, "200 OK", None, None, None, 0),
        ResponseAction::ReadBody
    ));
    assert!(matches!(
        response_action(&policy, &mut attempt, "u", 401, "401", None, None, None, 0),
        ResponseAction::Done(Err(ProviderError::Auth))
    ));
    assert!(matches!(
        response_action(&policy, &mut attempt, "u", 404, "404", None, None, None, 0),
        ResponseAction::ReadMessage
    ));
    assert!(matches!(
        response_action(&policy, &mut attempt, "u", 429, "429", None, Some("9"), None, 0),
        ResponseAction::Done(Err(ProviderError::RateLimited { retry_after })) if retry_after == Duration::from_secs(9)
    ));
    assert!(matches!(
        response_action(&policy, &mut attempt, "u", 304, "304", Some(Some("cached".to_string())), None, None, 0),
        ResponseAction::Done(Ok(body)) if body == "cached"
    ));
    assert!(matches!(
        response_action(&policy, &mut attempt, "u", 418, "418 I'm a teapot", None, None, None, 0),
        ResponseAction::Done(Err(ProviderError::Other(m))) if m == "u: unexpected status 418 I'm a teapot"
    ));
    assert_eq!(attempt, 0);
}

#[test]
fn not_found_and_forbidden_messages() {
    assert!(matches!(
        message_error(404, "Not Found".to_string(), None, None, None, 0),
        ProviderError::NotFound(m) if m == "Not Found"
    ));
    assert!(matches!(
        message_error(403, "limit".to_string(), Some("0"), None, Some("130"), 100),
        ProviderError::RateLimited { retry_after } if retry_after == Duration::from_secs(30)
    ));
    assert!(matches!(
        message_error(403, "forbidden".to_string(), Some("12"), None, None, 0),
        ProviderError::Other(m) if m == "forbidden"
    ));
    assert!(matches!(
        not_modified_body("u", None),
        Err(ProviderError::Parse(m)) if m == "u: 304 without a cached body"
    ));
}

#[test]
fn transport_errors_retry_then_surface() {
    let policy = RetryPolicy {
        max_retries: 1,
        ..RetryPolicy::default()
    };
    let mut attempt = 0;
    assert!(matches!(
        transport_action(&policy, &mut attempt, "reset".to_string()),
        ResponseAction::Retry(d) if d == Duration::from_millis(250)
    ));
    assert!(matches!(
        transport_action(&policy, &mut attempt, "reset".to_string()),
        ResponseAction::Done(Err(ProviderError::Transport(m))) if m == "reset"
    ));
}

#[test]
fn run_listing_address_carries_the_query() {
    let query = RunsQuery {
        repo: repo(),
        branch: Some("feature/x y".to_string()),
        head_sha: Some("abc".to_string()),
        event: None,
        limit: 500,
    };
    assert_eq!(
        runs_list_url("https://api.github.com", &query).unwrap(),
        "https://api.github.com/repos/acme/api/actions/runs?per_page=100&branch=feature%2Fx+y&head_sha=abc"
    );
    let plain = RunsQuery {
        repo: repo(),
        branch: None,
        head_sha: None,
        event: Some("push".to_string()),
        limit: 0,
    };
    assert_eq!(
        runs_list_url("http://localhost:8080", &plain).unwrap(),
        "http://localhost:8080/repos/acme/api/actions/runs?per_page=1&event=push"
    );
    assert!(matches!(runs_list_url("not a base", &plain), Err(ProviderError::Parse(_))));
}

#[test]
fn bearer_values_must_fit_a_header() {
    assert_eq!(bearer_value("ghp_abc").unwrap(), "Bearer ghp_abc");
    assert!(matches!(bearer_value("bad\ntoken"), Err(ProviderError::Auth)));
}

#[test]
fn error_messages_prefer_the_json_message() {
    assert_eq!(error_message(Some(br#"{"message":"Not Found"}"#), "404 Not Found"), "Not Found");
    assert_eq!(error_message(Some(b"<html>"), "404 Not Found"), "404 Not Found");
    assert_eq!(error_message(Some(br#"{"message":3}"#), "404 Not Found"), "404 Not Found");
    assert_eq!(error_message(None, "403 Forbidden"), "403 Forbidden");
}
