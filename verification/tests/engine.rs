use doneyet::engine::{
    commit_step_after_failure, reused_stats, watch_wait,
    aggregate_conclusion, commit_step, history_query, job_log, stats_from_history, wants_log_tail,
    watch_frame, CommitStep, DashConfig, DashOutcome, LogTails, WatchConfig, WatchOutcome,
    WatchTarget,
};
use doneyet::model::{Conclusion, Job, Phase, RepoRef, RunsPage, RunsQuery, Timestamp, WorkflowRun, World};
use doneyet::ports::{LogChunk, ProviderError};
use doneyet::time::Duration;

fn repo() -> RepoRef {
    RepoRef {
        owner: "acme".to_string(),
        name: "api".to_string(),
    }
}

fn at(second: i64) -> Timestamp {
    Timestamp {
        second,
        nanosecond: 0,
    }
}

fn run(id: u64, name: &str, phase: Phase, started: i64, updated: i64) -> WorkflowRun {
    WorkflowRun {
        id,
        run_number: id,
        name: name.to_string(),
        display_title: String::new(),
        head_branch: Some("main".to_string()),
        head_sha: "abc".to_string(),
        event: "push".to_string(),
        phase,
        actor: String::new(),
        html_url: String::new(),
        created_at: at(started),
        run_started_at: Some(at(started)),
        updated_at: at(updated),
    }
}

fn job(id: u64, phase: Phase) -> Job {
    Job {
        id,
        run_id: 1,
        name: format!("job-{id}"),
        phase,
        started_at: None,
        completed_at: None,
        runner_name: None,
        labels: Vec::new(),
        steps: Vec::new(),
    }
}

#[test]
fn outcome_exit_codes() {
    assert_eq!(WatchOutcome::Completed(Conclusion::Success).exit_code(), 0);
    assert_eq!(
        WatchOutcome::Completed(Conclusion::Cancelled).exit_code(),
        2
    );
    assert_eq!(WatchOutcome::Interrupted.exit_code(), 130);
}

#[test]
fn dash_outcome_and_default_configs() {
    assert_eq!(DashOutcome::Interrupted.exit_code(), 130);
    let watch = WatchConfig::default();
    assert_eq!(watch.active_interval, Duration::from_secs(3));
    assert_eq!(watch.idle_interval, Duration::from_secs(20));
    assert_eq!(watch.log_tail, None);
    assert_eq!(DashConfig::default().interval, Duration::from_secs(5));
}

#[test]
fn aggregate_takes_the_worst_conclusion() {
    let ok = run(1, "a", Phase::Done(Conclusion::Success), 0, 10);
    let cancelled = run(2, "b", Phase::Done(Conclusion::Cancelled), 0, 10);
    let failed = run(3, "c", Phase::Done(Conclusion::Failure), 0, 10);
    let skipped = run(4, "d", Phase::Done(Conclusion::Skipped), 0, 10);
    assert_eq!(aggregate_conclusion(&[]), Conclusion::Success);
    assert_eq!(aggregate_conclusion(&[ok.clone(), skipped.clone()]), Conclusion::Success);
    assert_eq!(aggregate_conclusion(&[ok.clone(), cancelled.clone()]), Conclusion::Cancelled);
    assert_eq!(
        aggregate_conclusion(&[cancelled.clone(), failed.clone(), ok.clone()]),
        Conclusion::Failure
    );
    let timed_out = run(5, "e", Phase::Done(Conclusion::TimedOut), 0, 10);
    assert_eq!(aggregate_conclusion(&[timed_out]), Conclusion::Cancelled);
    let startup = run(6, "f", Phase::Done(Conclusion::StartupFailure), 0, 10);
    assert_eq!(aggregate_conclusion(&[startup]), Conclusion::Failure);
}

#[test]
fn commit_step_waits_then_finishes() {
    let config = WatchConfig::default();
    let empty = RunsPage {
        total_count: 0,
        runs: Vec::new(),
    };
    assert!(matches!(commit_step(&empty, &config), CommitStep::Wait(d) if d == Duration::from_secs(20)));
    let busy = RunsPage {
        total_count: 2,
        runs: vec![
            run(1, "a", Phase::Done(Conclusion::Success), 0, 10),
            run(2, "b", Phase::InProgress, 0, 10),
        ],
    };
    assert!(matches!(commit_step(&busy, &config), CommitStep::Wait(d) if d == Duration::from_secs(3)));
    let done = RunsPage {
        total_count: 2,
        runs: vec![
            run(1, "a", Phase::Done(Conclusion::Success), 0, 10),
            run(2, "b", Phase::Done(Conclusion::Failure), 0, 10),
        ],
    };
    assert!(matches!(commit_step(&done, &config), CommitStep::Finish(Conclusion::Failure)));
}

#[test]
fn watch_frame_reports_the_outcome_once_done() {
    let active = World {
        repo: repo(),
        run: run(7, "ci", Phase::InProgress, 0, 10),
        jobs: Vec::new(),
        annotations: Vec::new(),
        stats: None,
    };
    let frame = watch_frame(None, &active);
    assert!(frame.outcome.is_none());
    assert!(!frame.events.is_empty());
    let done = World {
        run: run(7, "ci", Phase::Done(Conclusion::Failure), 0, 20),
        ..active.clone()
    };
    let frame = watch_frame(Some(&active), &done);
    let outcome = frame.outcome.expect("finished");
    assert_eq!(outcome.conclusion, Conclusion::Failure);
    assert_eq!(outcome.run.id, 7);
    assert_eq!(outcome.run.name, "ci");
    let again = watch_frame(Some(&done), &done);
    assert!(again.events.is_empty());
}

#[test]
fn history_query_follows_the_branch_of_a_latest_watch() {
    let latest = WatchTarget::Latest(RunsQuery {
        repo: repo(),
        branch: Some("main".to_string()),
        head_sha: Some("abc".to_string()),
        event: Some("push".to_string()),
        limit: 1,
    });
    let q = history_query(&repo(), &latest);
    assert_eq!(q.repo, repo());
    assert_eq!(q.branch.as_deref(), Some("main"));
    assert_eq!(q.head_sha, None);
    assert_eq!(q.event, None);
    assert_eq!(q.limit, 20);
    let by_id = history_query(&repo(), &WatchTarget::Run(3));
    assert_eq!(by_id.branch, None);
}

#[test]
fn stats_from_history_keeps_the_named_workflow() {
    let history = vec![
        run(1, "ci", Phase::Done(Conclusion::Success), 0, 100),
        run(2, "deploy", Phase::Done(Conclusion::Success), 0, 500),
        run(3, "ci", Phase::Done(Conclusion::Failure), 0, 200),
        run(4, "ci", Phase::Done(Conclusion::Success), 0, 300),
    ];
    let stats = stats_from_history(history.clone(), "ci").expect("three samples");
    assert_eq!(stats.samples(), 3);
    assert_eq!(stats.median_duration_secs(), Some(200));
    assert!(stats_from_history(history, "nightly").is_none());
}

#[test]
fn log_tails_follow_each_job() {
    assert!(wants_log_tail(&job(1, Phase::InProgress)));
    assert!(wants_log_tail(&job(1, Phase::Done(Conclusion::Failure))));
    assert!(!wants_log_tail(&job(1, Phase::Done(Conclusion::Success))));
    assert!(!wants_log_tail(&job(1, Phase::Queued)));

    let mut tails = LogTails::new();
    assert_eq!(tails.offset_for(9), 0);
    assert_eq!(tails.previous_tail(9, 5), None);
    let lines = tails.absorb(
        9,
        &LogChunk {
            bytes: b"a\nb\nc".to_vec(),
            next_offset: 5,
        },
        2,
    );
    assert_eq!(lines, vec!["b".to_string(), "c".to_string()]);
    assert_eq!(tails.offset_for(9), 5);
    assert_eq!(tails.previous_tail(9, 2), Some(lines.clone()));
    tails.restart(9);
    assert_eq!(tails.offset_for(9), 0);
    assert_eq!(tails.previous_tail(9, 2), Some(Vec::new()));
    tails.restart(10);
    assert_eq!(tails.previous_tail(10, 2), None);

    assert!(job_log(9, Vec::new()).is_none());
    let entry = job_log(9, vec!["x".to_string()]).expect("has lines");
    assert_eq!(entry.job_id, 9);
    assert_eq!(entry.lines, vec!["x".to_string()]);
}

#[test]
fn a_shorter_log_counts_as_replaced() {
    let mut tails = LogTails::new();
    let first = LogChunk {
        bytes: b"one\ntwo\n".to_vec(),
        next_offset: 8,
    };
    assert!(!tails.was_replaced(3, &first));
    tails.absorb(3, &first, 10);
    let shorter = LogChunk {
        bytes: b"x\n".to_vec(),
        next_offset: 2,
    };
    assert!(tails.was_replaced(3, &shorter));
    let longer = LogChunk {
        bytes: b"three\n".to_vec(),
        next_offset: 14,
    };
    assert!(!tails.was_replaced(3, &longer));
}

#[test]
fn failed_jobs_are_picked_for_inspection() {
    let jobs = vec![
        job(1, Phase::Done(Conclusion::Success)),
        job(2, Phase::Done(Conclusion::Failure)),
        job(3, Phase::InProgress),
        job(4, Phase::Done(Conclusion::TimedOut)),
    ];
    assert_eq!(doneyet::cli::failed_job_ids(&jobs), vec![2, 4]);
}

#[test]
fn commit_watch_waits_out_transport_failures_only() {
    let config = WatchConfig::default();
    assert!(matches!(
        commit_step_after_failure(ProviderError::Transport("connection reset".to_string()), &config),
        Ok(CommitStep::Wait(d)) if d == Duration::from_secs(3)
    ));
    assert!(matches!(
        commit_step_after_failure(ProviderError::Auth, &config),
        Err(ProviderError::Auth)
    ));
    assert!(matches!(
        commit_step_after_failure(ProviderError::NotFound("gone".to_string()), &config),
        Err(ProviderError::NotFound(m)) if m == "gone"
    ));
}

#[test]
fn watch_waits_and_reuses_stats() {
    let config = WatchConfig::default();
    assert_eq!(watch_wait(false, &config), Duration::from_secs(20));
    assert_eq!(watch_wait(true, &config), Duration::from_secs(3));
    let mut w = World {
        repo: repo(),
        run: run(7, "ci", Phase::InProgress, 0, 10),
        jobs: Vec::new(),
        annotations: Vec::new(),
        stats: None,
    };
    assert!(reused_stats(None).is_none());
    assert!(reused_stats(Some(&w)).is_none());
    let stats = stats_from_history(vec![run(1, "ci", Phase::Done(Conclusion::Success), 0, 90)], "ci");
    w.stats = stats.clone();
    assert_eq!(reused_stats(Some(&w)), stats);
}
