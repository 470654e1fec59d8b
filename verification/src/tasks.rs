//! The project's own checks: which commands a task runs.

use crate::text;
use vstd::prelude::*;

verus! {

/// A task by name.
#[derive(Clone, Copy, Debug, PartialEq, Eq, Structural)]
pub enum Task {
    Lint,
    Fmt,
    FmtFix,
    Clippy,
    Test,
    Ci,
    Bundle,
    Help,
    Unknown,
}

/// One thing a task runs.
#[derive(Debug)]
pub enum Job {
    /// Cargo, with these arguments.
    Cargo(Vec<String>),
    /// The browser shim's own suite.
    Shim,
    /// The application bundle.
    Bundle,
}

/// One thing a task runs, as contracts speak of it.
pub enum Errand {
    Cargo(Seq<Seq<char>>),
    Shim,
    Bundle,
}

impl View for Job {
    type V = Errand;

    open spec fn view(&self) -> Errand {
        match self {
            Job::Cargo(args) => Errand::Cargo(text::texts(args@)),
            Job::Shim => Errand::Shim,
            Job::Bundle => Errand::Bundle,
        }
    }
}

/// The views of jobs.
pub open spec fn errands(jobs: Seq<Job>) -> Seq<Errand> {
    jobs.map_values(|job: Job| job@)
}

/// The task a name stands for; `lint` when none is given.
pub open spec fn task_named(name: Option<Seq<char>>) -> Task {
    match name {
        None => Task::Lint,
        Some(name) => if name == "lint"@ {
            Task::Lint
        } else if name == "fmt"@ {
            Task::Fmt
        } else if name == "fmt-fix"@ {
            Task::FmtFix
        } else if name == "clippy"@ {
            Task::Clippy
        } else if name == "test"@ {
            Task::Test
        } else if name == "ci"@ {
            Task::Ci
        } else if name == "bundle"@ {
            Task::Bundle
        } else if name == "help"@ || name == "-h"@ || name == "--help"@ {
            Task::Help
        } else {
            Task::Unknown
        },
    }
}

impl Task {
    /// The task a name stands for; `lint` when none is given.
    pub fn named(name: Option<&str>) -> (r: Task)
        ensures
            r == task_named(
                match name {
                    Some(name) => Some(name@),
                    None => None,
                },
            ),
    {
        let name = match name {
            Some(name) => name,
            None => {
                return Task::Lint;
            },
        };
        if text::same(name, "lint") {
            Task::Lint
        } else if text::same(name, "fmt") {
            Task::Fmt
        } else if text::same(name, "fmt-fix") {
            Task::FmtFix
        } else if text::same(name, "clippy") {
            Task::Clippy
        } else if text::same(name, "test") {
            Task::Test
        } else if text::same(name, "ci") {
            Task::Ci
        } else if text::same(name, "bundle") {
            Task::Bundle
        } else if text::same(name, "help") || text::same(name, "-h") || text::same(name, "--help") {
            Task::Help
        } else {
            Task::Unknown
        }
    }
}

/// The formatter: in place, or reporting only.
pub open spec fn fmt_args(fix: bool) -> Seq<Seq<char>> {
    if fix {
        seq!["fmt"@, "--all"@]
    } else {
        seq!["fmt"@, "--all"@, "--check"@]
    }
}

/// The linter, with every warning an error.
pub open spec fn clippy_args() -> Seq<Seq<char>> {
    seq![
        "clippy"@,
        "--workspace"@,
        "--all-targets"@,
        "--"@,
        "-D"@,
        "warnings"@,
    ]
}

/// What a task runs, in order; each only once the one before it succeeded.
pub open spec fn jobs_of(task: Task) -> Seq<Errand> {
    let tests = seq![Errand::Cargo(seq!["test"@, "--workspace"@]), Errand::Shim];
    let lint = seq![Errand::Cargo(fmt_args(false)), Errand::Cargo(clippy_args())];
    match task {
        Task::Lint => lint,
        Task::Fmt => seq![Errand::Cargo(fmt_args(false))],
        Task::FmtFix => seq![Errand::Cargo(fmt_args(true))],
        Task::Clippy => seq![Errand::Cargo(clippy_args())],
        Task::Test => tests,
        Task::Ci => lint + tests,
        Task::Bundle => seq![Errand::Bundle],
        Task::Help | Task::Unknown => Seq::empty(),
    }
}

/// The formatter's arguments.
pub fn fmt(fix: bool) -> (r: Vec<String>)
    ensures
        text::texts(r@) == fmt_args(fix),
{
    let mut args: Vec<String> = Vec::new();
    args.push("fmt".to_owned());
    args.push("--all".to_owned());
    if !fix {
        args.push("--check".to_owned());
    }
    assert(text::texts(args@) =~= fmt_args(fix));
    args
}

/// The linter's arguments.
pub fn clippy() -> (r: Vec<String>)
    ensures
        text::texts(r@) == clippy_args(),
{
    let mut args: Vec<String> = Vec::new();
    args.push("clippy".to_owned());
    args.push("--workspace".to_owned());
    args.push("--all-targets".to_owned());
    args.push("--".to_owned());
    args.push("-D".to_owned());
    args.push("warnings".to_owned());
    assert(text::texts(args@) =~= clippy_args());
    args
}

/// The tests' arguments.
pub fn test() -> (r: Vec<String>)
    ensures
        text::texts(r@) == seq!["test"@, "--workspace"@],
{
    let mut args: Vec<String> = Vec::new();
    args.push("test".to_owned());
    args.push("--workspace".to_owned());
    assert(text::texts(args@) =~= seq!["test"@, "--workspace"@]);
    args
}

/// What a task runs, in order; each only once the one before it succeeded.
pub fn jobs(task: Task) -> (r: Vec<Job>)
    ensures
        errands(r@) == jobs_of(task),
{
    let mut jobs: Vec<Job> = Vec::new();
    match task {
        Task::Lint | Task::Ci => {
            jobs.push(Job::Cargo(fmt(false)));
            jobs.push(Job::Cargo(clippy()));
        },
        Task::Fmt => {
            jobs.push(Job::Cargo(fmt(false)));
        },
        Task::FmtFix => {
            jobs.push(Job::Cargo(fmt(true)));
        },
        Task::Clippy => {
            jobs.push(Job::Cargo(clippy()));
        },
        Task::Bundle => {
            jobs.push(Job::Bundle);
        },
        Task::Test | Task::Help | Task::Unknown => {},
    }
    match task {
        Task::Test | Task::Ci => {
            jobs.push(Job::Cargo(test()));
            jobs.push(Job::Shim);
        },
        _ => {},
    }
    assert(errands(jobs@) =~= jobs_of(task));
    jobs
}

/// Words with spaces between them, the first `count` of them.
pub open spec fn joined(words: Seq<Seq<char>>, count: int) -> Seq<char>
    decreases count,
{
    if count <= 0 {
        ""@
    } else {
        joined(words, count - 1) + " "@ + words[count - 1]
    }
}

/// A command as it is shown.
pub open spec fn shown(program: Seq<char>, args: Seq<Seq<char>>) -> Seq<char> {
    program + joined(args, args.len() as int)
}

/// A command as it is shown: the program and its arguments.
pub fn display(program: &str, args: &Vec<String>) -> (r: String)
    ensures
        r@ == shown(program@, text::texts(args@)),
{
    let ghost words = text::texts(args@);
    let mut rest = "".to_owned();
    let mut at: usize = 0;
    while at < args.len()
        invariant
            at <= args@.len(),
            words == text::texts(args@),
            rest@ == joined(words, at as int),
        decreases args@.len() - at,
    {
        assert(words[at as int] == args@[at as int]@);
        rest.append(" ");
        rest.append(args[at].as_str());
        at = at + 1;
    }
    program.to_owned().concat(rest.as_str())
}

/// What is said of a command that ended: nothing when it succeeded.
pub fn outcome(display: &str, started: Result<bool, String>) -> (r: Result<(), String>)
    ensures
        match started {
            Ok(true) => r is Ok,
            Ok(false) => r matches Err(why) && why@ == "`"@ + display@ + "` failed"@,
            Err(error) => r matches Err(why) && why@ == "could not start `"@ + display@ + "`: "@
                + error@,
        },
{
    match started {
        Ok(success) => if success {
            Ok(())
        } else {
            Err("`".to_owned().concat(display).concat("` failed"))
        },
        Err(error) => Err(
            "could not start `".to_owned().concat(display).concat("`: ").concat(error.as_str()),
        ),
    }
}

/// How the tasks are used.
pub open spec fn usage_text() -> Seq<char> {
    "\
usage: cargo xtask <task>

tasks:
  lint      fmt --check, then clippy over the workspace with -D warnings
  fmt       rustfmt --check over the workspace
  fmt-fix   rustfmt in place
  clippy    clippy --workspace --all-targets -- -D warnings
  test      cargo test --workspace, then the web shim's node --test suite
  ci        lint, then test
  bundle    macOS: target/bundle/disktree.app and its zip
              --sign IDENTITY   sign with a Developer ID (default: ad hoc)
              --notarize        notarize and staple; needs NOTARY_PROFILE, or
                                NOTARY_KEY, NOTARY_KEY_ID and NOTARY_ISSUER
"@
}

/// How the tasks are used.
pub fn usage() -> (r: &'static str)
    ensures
        r@ == usage_text(),
{
    "\
usage: cargo xtask <task>

tasks:
  lint      fmt --check, then clippy over the workspace with -D warnings
  fmt       rustfmt --check over the workspace
  fmt-fix   rustfmt in place
  clippy    clippy --workspace --all-targets -- -D warnings
  test      cargo test --workspace, then the web shim's node --test suite
  ci        lint, then test
  bundle    macOS: target/bundle/disktree.app and its zip
              --sign IDENTITY   sign with a Developer ID (default: ad hoc)
              --notarize        notarize and staple; needs NOTARY_PROFILE, or
                                NOTARY_KEY, NOTARY_KEY_ID and NOTARY_ISSUER
"
}

} // verus!
