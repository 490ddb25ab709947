use doneyet::cli::selected;
use doneyet::model::Conclusion;

#[test]
fn success_conclusion_picks_success_hook_only() {
    let picked = selected(Some("s"), Some("f"), &Conclusion::Success);
    assert_eq!(picked, Some("s"));
}

#[test]
fn pass_like_conclusions_pick_success_hook() {
    for conclusion in [
        Conclusion::Success,
        Conclusion::Skipped,
        Conclusion::Neutral,
    ] {
        assert_eq!(
            selected(Some("s"), Some("f"), &conclusion),
            Some("s"),
            "{conclusion:?}"
        );
    }
}

#[test]
fn non_pass_conclusions_pick_failure_hook() {
    for conclusion in [
        Conclusion::Failure,
        Conclusion::TimedOut,
        Conclusion::Cancelled,
        Conclusion::StartupFailure,
        Conclusion::ActionRequired,
        Conclusion::Stale,
        Conclusion::Other("weird".to_string()),
    ] {
        assert_eq!(
            selected(Some("s"), Some("f"), &conclusion),
            Some("f"),
            "{conclusion:?}"
        );
    }
}

#[test]
fn both_hooks_set_returns_exactly_the_matching_one() {
    assert_eq!(
        selected(Some("s"), Some("f"), &Conclusion::Success),
        Some("s")
    );
    assert_eq!(
        selected(Some("s"), Some("f"), &Conclusion::Failure),
        Some("f")
    );
}

#[test]
fn neither_hook_set_returns_none() {
    assert_eq!(selected(None, None, &Conclusion::Success), None);
    assert_eq!(selected(None, None, &Conclusion::Failure), None);
}

#[test]
fn only_matching_hook_set_returns_it() {
    assert_eq!(selected(Some("s"), None, &Conclusion::Success), Some("s"));
    assert_eq!(selected(Some("s"), None, &Conclusion::Failure), None);
    assert_eq!(selected(None, Some("f"), &Conclusion::Success), None);
    assert_eq!(selected(None, Some("f"), &Conclusion::Failure), Some("f"));
}
