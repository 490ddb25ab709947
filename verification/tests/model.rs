use doneyet::model::{Conclusion, Phase, RepoRef};
use std::str::FromStr;

#[test]
fn repo_ref_parses_owner_slash_name() {
    let repo = RepoRef::from_str("acme/api").unwrap();
    assert_eq!(repo.owner, "acme");
    assert_eq!(repo.name, "api");
    assert_eq!(repo.to_string(), "acme/api");
}

#[test]
fn repo_ref_rejects_malformed_refs() {
    for bad in ["", "acme", "acme/", "/api", "a/b/c"] {
        assert!(
            RepoRef::from_str(bad).is_err(),
            "expected {bad:?} to be rejected"
        );
    }
}

#[test]
fn conclusion_parse_maps_known_github_strings() {
    let table = [
        ("success", Conclusion::Success),
        ("failure", Conclusion::Failure),
        ("cancelled", Conclusion::Cancelled),
        ("skipped", Conclusion::Skipped),
        ("timed_out", Conclusion::TimedOut),
        ("startup_failure", Conclusion::StartupFailure),
        ("action_required", Conclusion::ActionRequired),
        ("neutral", Conclusion::Neutral),
        ("stale", Conclusion::Stale),
    ];
    for (raw, expected) in table {
        assert_eq!(Conclusion::parse(raw), expected);
    }
}

#[test]
fn conclusion_parse_unknown_falls_back_to_other() {
    assert_eq!(
        Conclusion::parse("banana"),
        Conclusion::Other("banana".to_string())
    );
}

#[test]
fn conclusion_exit_codes_match_cli_contract() {
    let zero = [
        Conclusion::Success,
        Conclusion::Skipped,
        Conclusion::Neutral,
    ];
    let one = [
        Conclusion::Failure,
        Conclusion::StartupFailure,
        Conclusion::ActionRequired,
        Conclusion::Stale,
        Conclusion::Other("x".to_string()),
    ];
    let two = [Conclusion::Cancelled, Conclusion::TimedOut];
    for c in zero {
        assert_eq!(c.exit_code(), 0, "{c:?}");
    }
    for c in one {
        assert_eq!(c.exit_code(), 1, "{c:?}");
    }
    for c in two {
        assert_eq!(c.exit_code(), 2, "{c:?}");
    }
}

#[test]
fn phase_from_parts_maps_github_status_and_conclusion() {
    let table = [
        (("queued", None), Phase::Queued),
        (("waiting", None), Phase::Waiting),
        (("in_progress", None), Phase::InProgress),
        (
            ("completed", Some("success")),
            Phase::Done(Conclusion::Success),
        ),
        (
            ("completed", Some("timed_out")),
            Phase::Done(Conclusion::TimedOut),
        ),
    ];
    for ((status, conclusion), expected) in table {
        assert_eq!(Phase::from_parts(status, conclusion), expected);
    }
}

#[test]
fn phase_from_parts_handles_null_conclusion_and_unknown_status() {
    assert_eq!(
        Phase::from_parts("completed", None),
        Phase::Done(Conclusion::Other("null".to_string()))
    );
    assert_eq!(
        Phase::from_parts("pending", None),
        Phase::Other("pending".to_string())
    );
}

#[test]
fn phase_terminal_and_active_partitions() {
    assert!(!Phase::Queued.is_terminal());
    assert!(!Phase::Waiting.is_terminal());
    assert!(!Phase::InProgress.is_terminal());
    assert!(!Phase::Other("pending".to_string()).is_terminal());
    assert!(Phase::Done(Conclusion::Success).is_terminal());

    assert!(Phase::Queued.is_active());
    assert!(Phase::Waiting.is_active());
    assert!(Phase::InProgress.is_active());
    assert!(Phase::Other("pending".to_string()).is_active());
    assert!(!Phase::Done(Conclusion::Success).is_active());
}

#[test]
fn phase_conclusion_accessor() {
    assert_eq!(
        Phase::Done(Conclusion::Failure).conclusion(),
        Some(&Conclusion::Failure)
    );
    assert_eq!(Phase::InProgress.conclusion(), None);
}

#[test]
fn phase_is_failed_matches_failure_conclusions_only() {
    assert!(Phase::Done(Conclusion::Failure).is_failed());
    assert!(Phase::Done(Conclusion::TimedOut).is_failed());
    assert!(Phase::Done(Conclusion::StartupFailure).is_failed());
    assert!(!Phase::Done(Conclusion::Success).is_failed());
    assert!(!Phase::Done(Conclusion::Cancelled).is_failed());
    assert!(!Phase::Done(Conclusion::Skipped).is_failed());
    assert!(!Phase::InProgress.is_failed());
    assert!(!Phase::Queued.is_failed());
}

#[test]
fn repo_ref_text_parses_back_to_the_same_repo() {
    let repo = RepoRef {
        owner: "octo-org".to_string(),
        name: "hello.world".to_string(),
    };
    assert_eq!(RepoRef::from_str(&repo.to_string()), Ok(repo));
}

#[test]
fn repo_parse_error_keeps_the_input_and_quotes_it() {
    let err = RepoRef::parse("a/b/c").unwrap_err();
    assert_eq!(err.0, "a/b/c");
    assert_eq!(
        err.message(),
        "invalid repository reference \"a/b/c\": expected OWNER/NAME"
    );
}

#[test]
fn timestamp_epoch_is_zero() {
    let t = doneyet::model::Timestamp::epoch();
    assert_eq!((t.second, t.nanosecond), (0, 0));
}
