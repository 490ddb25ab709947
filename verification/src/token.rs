//! Where the API token comes from.

use vstd::prelude::*;

use crate::text::{trim, trimmed};

verus! {

/// A present, non-blank value, trimmed.
pub open spec fn usable(v: Option<String>) -> Option<Seq<char>> {
    match v {
        Some(s) => if trim(s@).len() > 0 {
            Some(trim(s@))
        } else {
            None
        },
        None => None,
    }
}

/// The value trimmed, where it is not blank.
fn non_empty(raw: Option<String>) -> (r: Option<String>)
    ensures
        r.deep_view() == usable(raw),
{
    match raw {
        Some(value) => {
            let t = trimmed(value.as_str());
            if t.as_str().is_empty() {
                None
            } else {
                Some(t)
            }
        },
        None => None,
    }
}

/// The token that the sources give, in order of precedence: `DONEYET_TOKEN`, `GH_TOKEN`,
/// `GITHUB_TOKEN` from `env`, then `gh_auth_token`; a source is asked only when all before
/// it gave nothing usable.
pub open spec fn resolved_from<E: Fn(&str) -> Option<String>, G: FnOnce() -> Option<String>>(
    env: E,
    gh_auth_token: G,
    r: Option<Seq<char>>,
) -> bool {
    ||| exists|v1: Option<String>|
        #![trigger env.ensures(("DONEYET_TOKEN",), v1)]
        env.ensures(("DONEYET_TOKEN",), v1) && usable(v1) is Some && r == usable(v1)
    ||| exists|v1: Option<String>, v2: Option<String>|
        #![trigger env.ensures(("DONEYET_TOKEN",), v1), env.ensures(("GH_TOKEN",), v2)]
        env.ensures(("DONEYET_TOKEN",), v1) && usable(v1) is None && env.ensures(
            ("GH_TOKEN",),
            v2,
        ) && usable(v2) is Some && r == usable(v2)
    ||| exists|v1: Option<String>, v2: Option<String>, v3: Option<String>|
        #![trigger env.ensures(("DONEYET_TOKEN",), v1), env.ensures(("GH_TOKEN",), v2), env.ensures(("GITHUB_TOKEN",), v3)]
        env.ensures(("DONEYET_TOKEN",), v1) && usable(v1) is None && env.ensures(
            ("GH_TOKEN",),
            v2,
        ) && usable(v2) is None && env.ensures(("GITHUB_TOKEN",), v3) && usable(v3) is Some
            && r == usable(v3)
    ||| exists|v1: Option<String>, v2: Option<String>, v3: Option<String>, g: Option<String>|
        #![trigger env.ensures(("DONEYET_TOKEN",), v1), env.ensures(("GH_TOKEN",), v2), env.ensures(("GITHUB_TOKEN",), v3), gh_auth_token.ensures((), g)]
        env.ensures(("DONEYET_TOKEN",), v1) && usable(v1) is None && env.ensures(
            ("GH_TOKEN",),
            v2,
        ) && usable(v2) is None && env.ensures(("GITHUB_TOKEN",), v3) && usable(v3) is None
            && gh_auth_token.ensures((), g) && r == usable(g)
}

/// The API token: the first non-blank of `DONEYET_TOKEN`, `GH_TOKEN`, `GITHUB_TOKEN` as
/// `env` reads them, else what `gh_auth_token` gives; trimmed.
pub fn resolve_token<E: Fn(&str) -> Option<String>, G: FnOnce() -> Option<String>>(
    env: &E,
    gh_auth_token: G,
) -> (r: Option<String>)
    requires
        forall|k: &str| env.requires((k,)),
        gh_auth_token.requires(()),
    ensures
        resolved_from(*env, gh_auth_token, r.deep_view()),
{
    let v1 = env("DONEYET_TOKEN");
    let ghost g1 = v1;
    let t1 = non_empty(v1);
    if t1.is_some() {
        assert(env.ensures(("DONEYET_TOKEN",), g1));
        return t1;
    }
    let v2 = env("GH_TOKEN");
    let ghost g2 = v2;
    let t2 = non_empty(v2);
    if t2.is_some() {
        assert(env.ensures(("DONEYET_TOKEN",), g1) && env.ensures(("GH_TOKEN",), g2));
        return t2;
    }
    let v3 = env("GITHUB_TOKEN");
    let ghost g3 = v3;
    let t3 = non_empty(v3);
    if t3.is_some() {
        assert(env.ensures(("DONEYET_TOKEN",), g1) && env.ensures(("GH_TOKEN",), g2)
            && env.ensures(("GITHUB_TOKEN",), g3));
        return t3;
    }
    let v4 = gh_auth_token();
    let ghost g4 = v4;
    let t4 = non_empty(v4);
    assert(env.ensures(("DONEYET_TOKEN",), g1) && env.ensures(("GH_TOKEN",), g2) && env.ensures(
        ("GITHUB_TOKEN",),
        g3,
    ) && gh_auth_token.ensures((), g4));
    t4
}

} // verus!
