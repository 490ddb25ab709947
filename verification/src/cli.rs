//! Command-line conveniences: the default subcommand, repository resolution, hooks,
//! configuration precedence and the completions directory.

use vstd::prelude::*;

use crate::model::{debug_quoted, quoted, repo_ref_of, Conclusion, ConclusionView, RepoParseError, RepoRef};
use crate::text::{
    chars_of, ends_with, starts_with, str_eq, string_of, string_of_all, trim, trim_bounds,
    trim_end_matches, trim_end_matches_len, vec_ends_with, vec_starts_with,
};

verus! {

/// The GitHub API that is asked when nothing else is configured.
pub const DEFAULT_API_BASE: &'static str = "https://api.github.com";

/// The words that are subcommands or top-level flags, and never a repository.
pub open spec fn is_known_subcommand(s: Seq<char>) -> bool {
    ||| s == "watch"@
    ||| s == "runs"@
    ||| s == "run"@
    ||| s == "help"@
    ||| s == "--help"@
    ||| s == "-h"@
    ||| s == "--version"@
    ||| s == "-V"@
}

/// The first argument names a repository where it is not a flag nor a known subcommand,
/// and holds a `/`.
pub open spec fn names_repo_first(args: Seq<Seq<char>>) -> bool {
    &&& args.len() > 1
    &&& !(args[1].len() > 0 && args[1][0] == '-')
    &&& !is_known_subcommand(args[1])
    &&& args[1].contains('/')
}

/// `doneyet OWNER/NAME ...` is read as `doneyet watch OWNER/NAME ...`.
pub open spec fn with_default_subcommand(args: Seq<Seq<char>>) -> Seq<Seq<char>> {
    if names_repo_first(args) {
        args.insert(1, "watch"@)
    } else {
        args
    }
}

fn is_known(s: &str) -> (r: bool)
    ensures
        r == is_known_subcommand(s@),
{
    str_eq(s, "watch") || str_eq(s, "runs") || str_eq(s, "run") || str_eq(s, "help") || str_eq(
        s,
        "--help",
    ) || str_eq(s, "-h") || str_eq(s, "--version") || str_eq(s, "-V")
}

/// Inserts the `watch` subcommand where the first argument is a repository.
pub fn inject_default_subcommand(args: Vec<String>) -> (out: Vec<String>)
    ensures
        out.deep_view() == with_default_subcommand(args.deep_view()),
{
    if args.len() > 1 {
        let first = chars_of(args[1].as_str());
        let is_flag = first.len() > 0 && first[0] == '-';
        let slash = crate::text::find_char(&first, '/');
        proof {
            crate::text::lemma_char_pos(first@, '/');
        }
        if !is_flag && !is_known(args[1].as_str()) && slash.is_some() {
            let ghost before = args.deep_view();
            let mut out = args;
            out.insert(1, String::from_str("watch"));
            assert(out.deep_view() =~= before.insert(1, "watch"@));
            return out;
        }
    }
    args
}

/// Giving the default subcommand twice changes nothing more than giving it once.
pub proof fn lemma_default_subcommand_is_idempotent(args: Seq<Seq<char>>)
    ensures
        with_default_subcommand(with_default_subcommand(args)) == with_default_subcommand(args),
{
    if names_repo_first(args) {
        assert(with_default_subcommand(args)[1] == "watch"@);
    }
}

/// The known forms of a GitHub remote's address.
pub open spec fn remote_path(t: Seq<char>) -> Seq<char> {
    if starts_with(t, "https://github.com/"@) {
        t.skip(19)
    } else if starts_with(t, "git@github.com:"@) {
        t.skip(15)
    } else if starts_with(t, "ssh://git@github.com/"@) {
        t.skip(21)
    } else {
        t
    }
}

/// The repository that a remote address names: trimmed, without trailing `.git`, without
/// the `https://github.com/`, `git@github.com:` or `ssh://git@github.com/` prefix, without
/// trailing `/`.
pub open spec fn remote_repo(url: Seq<char>) -> Option<crate::model::RepoRefView> {
    let trimmed = trim_end_matches(trim(url), ".git"@);
    repo_ref_of(trim_end_matches(remote_path(trimmed), "/"@))
}

/// `v` without the prefix `p`, where it has it.
fn strip(v: &Vec<char>, p: &str) -> (r: Option<Vec<char>>)
    ensures
        match r {
            Some(rest) => starts_with(v@, p@) && rest@ == v@.skip(p@.len() as int),
            None => !starts_with(v@, p@),
        },
{
    let pv = chars_of(p);
    if vec_starts_with(v, &pv) {
        let s = string_of(v, pv.len(), v.len());
        assert(v@.subrange(pv@.len() as int, v@.len() as int) == v@.skip(pv@.len() as int));
        Some(chars_of(s.as_str()))
    } else {
        None
    }
}

/// The repository that a remote address names.
pub fn from_remote_url(url: &str) -> (r: Option<RepoRef>)
    ensures
        match remote_repo(url@) {
            Some(repo) => r is Some && r->0@ == repo,
            None => r is None,
        },
{
    let v = chars_of(url);
    let (lo, hi) = trim_bounds(&v);
    let t = chars_of(string_of(&v, lo, hi).as_str());
    let git = chars_of(".git");
    proof {
        reveal_strlit(".git");
        reveal_strlit("/");
    }
    let n = trim_end_matches_len(&t, &git);
    let trimmed = chars_of(string_of(&t, 0, n).as_str());
    assert(t@.subrange(0, n as int) == t@.take(n as int));
    proof {
        reveal_strlit("https://github.com/");
        reveal_strlit("git@github.com:");
        reveal_strlit("ssh://git@github.com/");
    }
    let path = match strip(&trimmed, "https://github.com/") {
        Some(rest) => rest,
        None => match strip(&trimmed, "git@github.com:") {
            Some(rest) => rest,
            None => match strip(&trimmed, "ssh://git@github.com/") {
                Some(rest) => rest,
                None => trimmed,
            },
        },
    };
    let slash = chars_of("/");
    let m = trim_end_matches_len(&path, &slash);
    let text = string_of(&path, 0, m);
    assert(path@.subrange(0, m as int) == path@.take(m as int));
    match RepoRef::parse(text.as_str()) {
        Ok(repo) => Some(repo),
        Err(_) => None,
    }
}

/// Why no repository could be settled on.
#[derive(Debug, Clone, PartialEq, Eq)]
pub enum ResolveError {
    /// The `OWNER/NAME` argument is malformed.
    BadArgument(RepoParseError),
    /// No argument and no origin remote.
    NoRemote,
    /// The origin remote, this address, names no repository.
    BadRemote(String),
}

impl ResolveError {
    /// The error's message.
    pub fn message(&self) -> (m: String)
        ensures
            match self {
                ResolveError::BadArgument(e) => m@ == "invalid repository reference "@
                    + debug_quoted(e.0@) + ": expected OWNER/NAME"@,
                ResolveError::NoRemote => m@
                    == "no OWNER/NAME given and no origin remote found in the current directory"@,
                ResolveError::BadRemote(url) => m@ == "could not derive OWNER/NAME from remote "@
                    + debug_quoted(url@),
            },
    {
        match self {
            ResolveError::BadArgument(e) => e.message(),
            ResolveError::NoRemote => String::from_str(
                "no OWNER/NAME given and no origin remote found in the current directory",
            ),
            ResolveError::BadRemote(url) => {
                let mut m = String::from_str("could not derive OWNER/NAME from remote ");
                let q = quoted(url.as_str());
                m.append(q.as_str());
                m
            },
        }
    }
}

/// The repository to work on: the argument where one is given (the remote is then not
/// fetched), else the one that the fetched origin remote names.
pub fn resolve_with<F: FnOnce() -> Option<String>>(arg: Option<&str>, fetch_remote: F) -> (r: Result<
    RepoRef,
    ResolveError,
>)
    requires
        fetch_remote.requires(()),
    ensures
        arg matches Some(a) ==> match repo_ref_of(a@) {
            Some(repo) => r matches Ok(got) && got@ == repo,
            None => r matches Err(ResolveError::BadArgument(e)) && e.0@ == a@,
        },
        arg is None ==> exists|remote: Option<String>|
            #![trigger fetch_remote.ensures((), remote)]
            fetch_remote.ensures((), remote) && match remote {
                None => r matches Err(ResolveError::NoRemote),
                Some(url) => match remote_repo(url@) {
                    Some(repo) => r matches Ok(got) && got@ == repo,
                    None => r matches Err(ResolveError::BadRemote(u)) && u@ == url@,
                },
            },
{
    if let Some(raw) = arg {
        return match RepoRef::parse(raw) {
            Ok(repo) => Ok(repo),
            Err(e) => Err(ResolveError::BadArgument(e)),
        };
    }
    let remote = fetch_remote();
    let ghost got = remote;
    let url = match remote {
        Some(u) => u,
        None => {
            assert(fetch_remote.ensures((), got));
            return Err(ResolveError::NoRemote);
        },
    };
    let r = match from_remote_url(url.as_str()) {
        Some(repo) => Ok(repo),
        None => Err(ResolveError::BadRemote(url)),
    };
    assert(fetch_remote.ensures((), got));
    r
}

/// The ids of the failed jobs, in order.
pub open spec fn failed_ids(jobs: Seq<crate::model::JobView>) -> Seq<u64>
    decreases jobs.len(),
{
    if jobs.len() == 0 {
        seq![]
    } else {
        let rest = failed_ids(jobs.drop_last());
        if jobs.last().phase.is_failed() {
            rest.push(jobs.last().id)
        } else {
            rest
        }
    }
}

/// The ids of the jobs whose annotations and logs a run inspection shows: the failed ones.
pub fn failed_job_ids(jobs: &[crate::model::Job]) -> (ids: Vec<u64>)
    ensures
        ids@ == failed_ids(jobs@.map_values(|j: crate::model::Job| j@)),
{
    let ghost all = jobs@.map_values(|j: crate::model::Job| j@);
    let mut ids: Vec<u64> = Vec::new();
    let mut i: usize = 0;
    assert(all.take(0) =~= Seq::<crate::model::JobView>::empty());
    while i < jobs.len()
        invariant
            i <= jobs@.len() == all.len(),
            all == jobs@.map_values(|j: crate::model::Job| j@),
            ids@ == failed_ids(all.take(i as int)),
        decreases jobs@.len() - i,
    {
        assert(all.take(i + 1).drop_last() =~= all.take(i as int));
        assert(all.take(i + 1).last() == jobs@[i as int]@);
        if jobs[i].phase.is_failed() {
            ids.push(jobs[i].id);
        }
        i = i + 1;
    }
    assert(all.take(all.len() as int) =~= all);
    ids
}

/// What a helper command (`git`, `gh`) printed, as the value it stands for: its output
/// decoded (invalid UTF-8 replaced) and trimmed, where the command succeeded and printed
/// something.
pub fn command_output_text(success: bool, stdout: &Vec<u8>) -> (r: Option<String>)
    ensures
        !success ==> r is None,
        success && trim(crate::logtail::utf8_lossy(stdout@)).len() == 0 ==> r is None,
        success && trim(crate::logtail::utf8_lossy(stdout@)).len() > 0 ==> (r matches Some(t) && t@
            == trim(crate::logtail::utf8_lossy(stdout@))),
{
    if !success {
        return None;
    }
    let text = crate::logtail::lossy_text(stdout);
    let t = crate::text::trimmed(text.as_str());
    if t.as_str().is_empty() {
        None
    } else {
        Some(t)
    }
}

/// The hook command to run after a run ends: the success hook where the conclusion exits 0,
/// else the failure hook.
pub fn selected<'a>(success: Option<&'a str>, failure: Option<&'a str>, conclusion: &Conclusion) -> (r: Option<&'a str>)
    ensures
        r == if conclusion@.exit_code() == 0 {
            success
        } else {
            failure
        },
{
    if conclusion.exit_code() == 0 {
        success
    } else {
        failure
    }
}

/// Settings read from the configuration file; each may be absent.
#[derive(Debug, Clone, PartialEq)]
pub struct Config {
    pub interval: Option<u64>,
    pub theme: Option<String>,
    pub notify: Option<bool>,
    pub api_base: Option<String>,
}

impl Default for Config {
    /// Nothing configured.
    fn default() -> (c: Config)
        ensures
            c.interval is None,
            c.theme is None,
            c.notify is None,
            c.api_base is None,
    {
        Config { interval: None, theme: None, notify: None, api_base: None }
    }
}

impl Config {
    /// The API base: the flag, else the configured one, else GitHub's.
    pub fn api_base_or(&self, cli: Option<String>) -> (r: String)
        ensures
            r@ == match cli {
                Some(c) => c@,
                None => match self.api_base {
                    Some(a) => a@,
                    None => DEFAULT_API_BASE@,
                },
            },
    {
        match cli {
            Some(c) => c,
            None => match &self.api_base {
                Some(a) => a.clone(),
                None => String::from_str(DEFAULT_API_BASE),
            },
        }
    }

    /// The theme: the flag, else the configured one, else `default`.
    pub fn theme_or(&self, cli: Option<String>) -> (r: String)
        ensures
            r@ == match cli {
                Some(c) => c@,
                None => match self.theme {
                    Some(t) => t@,
                    None => "default"@,
                },
            },
    {
        match cli {
            Some(c) => c,
            None => match &self.theme {
                Some(t) => t.clone(),
                None => String::from_str("default"),
            },
        }
    }

    /// The interval: the flag, else the configured one, else `default`.
    pub fn interval_or(&self, cli: Option<u64>, default: u64) -> (r: u64)
        ensures
            r == match cli {
                Some(c) => c,
                None => match self.interval {
                    Some(i) => i,
                    None => default,
                },
            },
    {
        match cli {
            Some(c) => c,
            None => match self.interval {
                Some(i) => i,
                None => default,
            },
        }
    }

    /// Whether to notify: the flag turns it on, else the configured value, else off.
    pub fn notify_or(&self, cli: bool) -> (r: bool)
        ensures
            r == (cli || self.notify == Some(true)),
    {
        cli || match self.notify {
            Some(n) => n,
            None => false,
        }
    }
}

/// `Path::join` on Unix for a relative, slash-free component: a `/` between, unless the
/// base is empty or already ends with one.
pub open spec fn path_join(base: Seq<char>, part: Seq<char>) -> Seq<char> {
    if base.len() == 0 {
        part
    } else if base.last() == '/' {
        base + part
    } else {
        base + "/"@ + part
    }
}

/// A present, non-empty value.
pub open spec fn set_value(v: Option<String>) -> Option<Seq<char>> {
    match v {
        Some(s) => if s@.len() > 0 {
            Some(s@)
        } else {
            None
        },
        None => None,
    }
}

/// Where shell completions go, by precedence: `DONEYET_COMPLETIONS_DIR`, then
/// `$XDG_DATA_HOME/doneyet/completions`, then `$HOME/.local/share/doneyet/completions`;
/// empty values count as unset.
pub open spec fn completions_dir<E: Fn(&str) -> Option<String>>(get_env: E, r: Option<Seq<char>>) -> bool {
    ||| exists|d: Option<String>|
        #![trigger get_env.ensures(("DONEYET_COMPLETIONS_DIR",), d)]
        get_env.ensures(("DONEYET_COMPLETIONS_DIR",), d) && set_value(d) is Some && r == set_value(d)
    ||| exists|d: Option<String>, x: Option<String>|
        #![trigger get_env.ensures(("DONEYET_COMPLETIONS_DIR",), d), get_env.ensures(("XDG_DATA_HOME",), x)]
        get_env.ensures(("DONEYET_COMPLETIONS_DIR",), d) && set_value(d) is None && get_env.ensures(
            ("XDG_DATA_HOME",),
            x,
        ) && set_value(x) is Some && r == Some(
            path_join(path_join(set_value(x)->0, "doneyet"@), "completions"@),
        )
    ||| exists|d: Option<String>, x: Option<String>, h: Option<String>|
        #![trigger get_env.ensures(("DONEYET_COMPLETIONS_DIR",), d), get_env.ensures(("XDG_DATA_HOME",), x), get_env.ensures(("HOME",), h)]
        get_env.ensures(("DONEYET_COMPLETIONS_DIR",), d) && set_value(d) is None && get_env.ensures(
            ("XDG_DATA_HOME",),
            x,
        ) && set_value(x) is None && get_env.ensures(("HOME",), h) && r == match set_value(h) {
            Some(home) => Some(
                path_join(
                    path_join(path_join(path_join(home, ".local"@), "share"@), "doneyet"@),
                    "completions"@,
                ),
            ),
            None => None,
        }
}

/// Joins a relative component onto a path.
fn join(base: String, part: &str) -> (r: String)
    ensures
        r@ == path_join(base@, part@),
{
    let v = chars_of(base.as_str());
    let mut out = base;
    if v.len() == 0 {
        return String::from_str(part);
    }
    if v[v.len() - 1] == '/' {
        out.append(part);
    } else {
        out.append("/");
        out.append(part);
        proof {
            reveal_strlit("/");
        }
    }
    out
}

fn non_empty_value(v: Option<String>) -> (r: Option<String>)
    ensures
        r.deep_view() == set_value(v),
{
    match v {
        Some(s) => if s.as_str().is_empty() {
            None
        } else {
            Some(s)
        },
        None => None,
    }
}

/// The directory for shell completions, from the environment as `get_env` reads it.
pub fn install_dir_with<E: Fn(&str) -> Option<String>>(get_env: E) -> (r: Option<String>)
    requires
        forall|k: &str| get_env.requires((k,)),
    ensures
        completions_dir(get_env, r.deep_view()),
{
    let d = get_env("DONEYET_COMPLETIONS_DIR");
    let ghost gd = d;
    if let Some(dir) = non_empty_value(d) {
        assert(get_env.ensures(("DONEYET_COMPLETIONS_DIR",), gd));
        return Some(dir);
    }
    let x = get_env("XDG_DATA_HOME");
    let ghost gx = x;
    if let Some(xdg) = non_empty_value(x) {
        let r = join(join(xdg, "doneyet"), "completions");
        assert(get_env.ensures(("DONEYET_COMPLETIONS_DIR",), gd) && get_env.ensures(("XDG_DATA_HOME",), gx));
        return Some(r);
    }
    let h = get_env("HOME");
    let ghost gh = h;
    let r = match non_empty_value(h) {
        Some(home) => Some(join(join(join(join(home, ".local"), "share"), "doneyet"), "completions")),
        None => None,
    };
    assert(get_env.ensures(("DONEYET_COMPLETIONS_DIR",), gd) && get_env.ensures(("XDG_DATA_HOME",), gx)
        && get_env.ensures(("HOME",), gh));
    r
}

/// `HOME/.config/doneyet/config.toml`.
pub open spec fn home_config(home: Seq<char>) -> Seq<char> {
    path_join(path_join(path_join(home, ".config"@), "doneyet"@), "config.toml"@)
}

/// The default configuration file under a home directory.
pub fn home_default_path(home: &str) -> (p: String)
    ensures
        p@ == home_config(home@),
{
    join(join(join(String::from_str(home), ".config"), "doneyet"), "config.toml")
}

/// Where the configuration is looked for, in order: `DONEYET_CONFIG` as `config_env` reads
/// it, then the default file under `HOME` as `home` reads it.
pub fn candidate_paths_with<C: FnOnce() -> Option<String>, H: FnOnce() -> Option<String>>(
    config_env: C,
    home: H,
) -> (paths: Vec<String>)
    requires
        config_env.requires(()),
        home.requires(()),
    ensures
        exists|c: Option<String>, h: Option<String>|
            #![trigger config_env.ensures((), c), home.ensures((), h)]
            config_env.ensures((), c) && home.ensures((), h) && paths.deep_view() == match c {
                Some(p) => seq![p@],
                None => Seq::<Seq<char>>::empty(),
            } + match h {
                Some(d) => seq![home_config(d@)],
                None => Seq::<Seq<char>>::empty(),
            },
{
    let mut paths: Vec<String> = Vec::new();
    let c = config_env();
    let ghost gc = c;
    if let Some(p) = c {
        paths.push(p);
    }
    let h = home();
    let ghost gh = h;
    let ghost first = paths.deep_view();
    if let Some(d) = h {
        paths.push(home_default_path(d.as_str()));
    }
    assert(config_env.ensures((), gc) && home.ensures((), gh));
    assert(paths.deep_view() =~= match gc {
        Some(p) => seq![p@],
        None => Seq::<Seq<char>>::empty(),
    } + match gh {
        Some(d) => seq![home_config(d@)],
        None => Seq::<Seq<char>>::empty(),
    });
    paths
}

/// Neither `DONEYET_CONFIG` nor `HOME` is set.
#[derive(Debug, Clone, PartialEq, Eq)]
pub struct ConfigPathError;

impl ConfigPathError {
    /// The error's message.
    pub fn message(&self) -> (m: String)
        ensures
            m@ == "cannot determine the config path: set DONEYET_CONFIG or HOME"@,
    {
        String::from_str("cannot determine the config path: set DONEYET_CONFIG or HOME")
    }
}

/// The configuration file in effect: `DONEYET_CONFIG` (then `HOME` is not read), else the
/// default file under `HOME`; an error where neither is set.
pub fn effective_path_with<C: FnOnce() -> Option<String>, H: FnOnce() -> Option<String>>(
    config_env: C,
    home: H,
) -> (r: Result<String, ConfigPathError>)
    requires
        config_env.requires(()),
        home.requires(()),
    ensures
        exists|c: Option<String>|
            #![trigger config_env.ensures((), c)]
            config_env.ensures((), c) && match c {
                Some(p) => r matches Ok(got) && got@ == p@,
                None => exists|h: Option<String>|
                    #![trigger home.ensures((), h)]
                    home.ensures((), h) && match h {
                        Some(d) => r matches Ok(got) && got@ == home_config(d@),
                        None => r matches Err(ConfigPathError),
                    },
            },
{
    let c = config_env();
    let ghost gc = c;
    if let Some(p) = c {
        assert(config_env.ensures((), gc));
        return Ok(p);
    }
    let h = home();
    let ghost gh = h;
    let r = match h {
        Some(d) => Ok(home_default_path(d.as_str())),
        None => Err(ConfigPathError),
    };
    assert(config_env.ensures((), gc) && home.ensures((), gh));
    r
}

/// The configuration file that `config init` writes.
pub const DEFAULT_CONFIG: &'static str = "interval = 3        # poll interval (watch and dash), seconds\ntheme = \"ascii\"     # built-in theme name or path to a JSON theme file\nnotify = true       # fire notify-send when a watched run finishes\napi_base = \"https://github.example/api/v3\"   # GitHub API base URL\n";

/// The desktop notification for a finished run: its summary and body. `word` is how the
/// rendering layer names a conclusion; it is used for those without a wording of their own.
pub fn message(conclusion: &Conclusion, word: &str) -> (r: (&'static str, String))
    ensures
        r.0@ == "doneyet"@,
        r.1@ == match conclusion@ {
            ConclusionView::Success => "CI run succeeded"@,
            ConclusionView::Failure | ConclusionView::StartupFailure => "CI run failed"@,
            ConclusionView::TimedOut => "CI run timed out"@,
            ConclusionView::Cancelled => "CI run was cancelled"@,
            _ => "CI run ended: "@ + word@,
        },
{
    let body = match conclusion {
        Conclusion::Success => String::from_str("CI run succeeded"),
        Conclusion::Failure | Conclusion::StartupFailure => String::from_str("CI run failed"),
        Conclusion::TimedOut => String::from_str("CI run timed out"),
        Conclusion::Cancelled => String::from_str("CI run was cancelled"),
        _ => {
            let mut b = String::from_str("CI run ended: ");
            b.append(word);
            b
        },
    };
    ("doneyet", body)
}

/// The shells that completions are written for.
#[derive(Debug, Clone, Copy, PartialEq, Eq)]
pub enum Shell {
    Bash,
    Elvish,
    Fish,
    PowerShell,
    Zsh,
}

/// The file name of a shell's completion script.
pub fn shell_file_name(shell: &Shell) -> (name: &'static str)
    ensures
        name@ == match shell {
            Shell::Bash => "doneyet.bash"@,
            Shell::Elvish => "doneyet.elv"@,
            Shell::Fish => "doneyet.fish"@,
            Shell::PowerShell => "_doneyet.ps1"@,
            Shell::Zsh => "_doneyet"@,
        },
{
    match shell {
        Shell::Bash => "doneyet.bash",
        Shell::Elvish => "doneyet.elv",
        Shell::Fish => "doneyet.fish",
        Shell::PowerShell => "_doneyet.ps1",
        Shell::Zsh => "_doneyet",
    }
}

/// The command that loads an installed completion script into the shell.
pub fn enable_instruction(shell: &Shell, file: &str) -> (s: String)
    ensures
        s@ == match shell {
            Shell::Bash | Shell::Fish | Shell::Zsh => "source "@ + file@,
            Shell::PowerShell => ". "@ + file@,
            Shell::Elvish => "eval (cat "@ + file@ + ")"@,
        },
{
    match shell {
        Shell::Bash | Shell::Fish | Shell::Zsh => {
            let mut s = String::from_str("source ");
            s.append(file);
            s
        },
        Shell::PowerShell => {
            let mut s = String::from_str(". ");
            s.append(file);
            s
        },
        Shell::Elvish => {
            let mut s = String::from_str("eval (cat ");
            s.append(file);
            s.append(")");
            s
        },
    }
}

/// The exit status for a run shown once: its conclusion's code, or 0 while it goes on.
pub fn run_exit_code(phase: &crate::model::Phase) -> (code: u32)
    ensures
        code == match phase@ {
            crate::model::PhaseView::Done(c) => c.exit_code() as u32,
            _ => 0,
        },
{
    match phase {
        crate::model::Phase::Done(c) => {
            let code = c.exit_code();
            proof {
                crate::model::lemma_exit_codes_are_zero_one_or_two(c@);
            }
            code as u32
        },
        _ => 0,
    }
}

/// The process exit byte for an exit code: the code, kept within 0 to 255.
pub fn exit_byte(code: i32) -> (b: u8)
    ensures
        b == if code < 0 {
            0
        } else if code > 255 {
            255
        } else {
            code
        },
{
    if code < 0 {
        0
    } else if code > 255 {
        255
    } else {
        code as u8
    }
}

} // verus!
