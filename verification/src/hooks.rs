//! The hooks that `pre-commit` manages.
use crate::command;
use crate::command::{Invocation, Meaning, Reply, Request, Step, Turn, Wish};
use crate::numbers;
use crate::numbers::signed_of;
use crate::paths;
use crate::paths::joined_path;
use crate::text::{cat2, cat3, cat6, owned, same};
use vstd::prelude::*;

verus! {

/// The hooks are never run more often than this.
pub const MAX_RETRY: usize = 5;

/// A run of `pre-commit` in a repository.
pub open spec fn pre_commit_wish(repo_path: Seq<char>, args: Seq<Seq<char>>) -> Wish {
    Wish::Run(command::within(repo_path, "pre-commit"@, args))
}

/// The file of the hook that runs before a commit.
pub open spec fn hook_path(repo_path: Seq<char>) -> Seq<char> {
    paths::join(paths::join(paths::join(repo_path, ".git"@), "hooks"@), "pre-commit"@)
}

/// The conversation of `install_pre_commit_hooks`.
pub open spec fn install_pre_commit_hooks_turn(repo_path: Seq<char>, replies: Seq<Reply>) -> Turn<
    Result<bool, Seq<char>>,
> {
    command::chain_ok(
        command::once(
            pre_commit_wish(repo_path, seq!["install"@]),
            replies,
            |r: Reply|
                command::carried(
                    r,
                    "Failed to execute pre-commit install: "@,
                    command::succeeded(r),
                ),
        ),
        replies,
        |installed: bool, left: Seq<Reply>|
            if installed {
                command::once(
                    Wish::Look(hook_path(repo_path)),
                    left,
                    |r: Reply| Ok(command::succeeded(r)),
                )
            } else {
                Turn::Done(Ok(false), 0)
            },
    )
}

/// Installs the hooks of a repository. The result says whether the hook file is
/// there afterwards.
pub fn install_pre_commit_hooks(repo_path: &str, replies: &[Reply]) -> (step: Step<
    Result<bool, String>,
>)
    ensures
        step.meaning() == install_pre_commit_hooks_turn(repo_path@, replies@),
        command::heard_enough(step, replies@),
{
    if replies.len() == 0 {
        return Step::Ask(
            Request::Run(Invocation::new_in(repo_path, "pre-commit").arg("install")),
        );
    }
    match &replies[0] {
        Err(e) => {
            return Step::Done(Err(cat2("Failed to execute pre-commit install: ", e)), 1);
        },
        Ok(out) => {
            if !out.success() {
                return Step::Done(Ok(false), 1);
            }
        },
    }
    if replies.len() == 1 {
        let git = joined_path(repo_path, ".git");
        return Step::Ask(
            Request::Look(joined_path(&joined_path(&git, "hooks"), "pre-commit")),
        );
    }
    assert(replies@.skip(1)[0] == replies@[1]);
    Step::Done(Ok(command::success(&replies[1])), 2)
}

// ---------------------------------------------------------------------------
// Running the hooks
// ---------------------------------------------------------------------------

/// What is kept of a run that failed: its exit code and all it wrote.
pub struct Attempt {
    pub code: Option<i32>,
    pub stdout: Seq<char>,
    pub stderr: Seq<char>,
}

/// What is kept of a run that failed.
pub open spec fn attempt(reply: Reply) -> Attempt {
    Attempt {
        code: match reply {
            Ok(out) => out.code,
            Err(_) => None,
        },
        stdout: command::said(reply),
        stderr: command::complained(reply),
    }
}

/// An exit code, as `Debug` writes it.
pub open spec fn code_words(code: Option<i32>) -> Seq<char> {
    match code {
        Some(c) => "Some("@ + numbers::signed(c as int) + ")"@,
        None => "None"@,
    }
}

/// The error of hooks that keep failing, the last time as in `last`.
pub open spec fn gave_up(last: Attempt) -> Seq<char> {
    "Pre-commit hook failed after 5 attempts. Last failure:\nExit code: "@ + code_words(last.code)
        + "\nstdout:\n"@ + last.stdout + "\nstderr:\n"@ + last.stderr
}

/// The conversation of the runs that are left after `made` of them have failed,
/// the last as in `last`, which was the `identical`th in a row that failed as the
/// one before it.
pub open spec fn retry_turn(
    repo_path: Seq<char>,
    retries: nat,
    made: nat,
    identical: nat,
    last: Attempt,
    replies: Seq<Reply>,
) -> Turn<Result<(), Seq<char>>>
    decreases MAX_RETRY - made,
{
    if made >= MAX_RETRY {
        Turn::Done(Err(gave_up(last)), 0)
    } else {
        command::chain(
            command::once(
                pre_commit_wish(repo_path, seq!["run"@, "--all-files"@]),
                replies,
                |r: Reply| r,
            ),
            replies,
            |r: Reply, left: Seq<Reply>|
                match r {
                    Err(e) => Turn::Done(Err("Failed to execute pre-commit: "@ + e@), 0),
                    Ok(_) => if command::succeeded(r) {
                        Turn::Done(Ok(()), 0)
                    } else if made == 0 || attempt(r) != last {
                        retry_turn(repo_path, retries, made + 1, 0, attempt(r), left)
                    } else if identical + 1 >= retries {
                        Turn::Done(Err(gave_up(last)), 0)
                    } else {
                        retry_turn(repo_path, retries, made + 1, identical + 1, last, left)
                    },
                },
        )
    }
}

/// The conversation of `run_pre_commit_with_retry`.
pub open spec fn run_pre_commit_with_retry_turn(
    repo_path: Seq<char>,
    retries: nat,
    replies: Seq<Reply>,
) -> Turn<Result<(), Seq<char>>> {
    retry_turn(
        repo_path,
        retries,
        0,
        0,
        Attempt { code: None, stdout: Seq::empty(), stderr: Seq::empty() },
        replies,
    )
}

/// An exit code, as `Debug` writes it.
fn say_code(code: Option<i32>) -> (r: String)
    ensures
        r@ == code_words(code),
{
    match code {
        Some(c) => cat3("Some(", &signed_of(c), ")"),
        None => owned("None"),
    }
}

/// The error of hooks that keep failing.
fn say_gave_up(code: Option<i32>, stdout: &str, stderr: &str) -> (r: String)
    ensures
        r@ == gave_up(Attempt { code, stdout: stdout@, stderr: stderr@ }),
{
    cat6(
        "Pre-commit hook failed after 5 attempts. Last failure:\nExit code: ",
        &say_code(code),
        "\nstdout:\n",
        stdout,
        "\nstderr:\n",
        stderr,
    )
}

/// Run pre-commit hooks with retry logic.
///
/// # Arguments
///
/// - `repo_path`: Path to the Git repository.
/// - `retries`: number of consecutive identical failures allowed before aborting.
///
/// # Returns
///
/// - `Ok(())` if the pre-commit hooks eventually succeed.
/// - `Err` with a detailed message if the command repeatedly fails with identical output
///   (and exit code) for at least `retries` times, or if it exceeds MAX_RETRY attempts.
pub fn run_pre_commit_with_retry(repo_path: &str, retries: usize, replies: &[Reply]) -> (step: Step<
    Result<(), String>,
>)
    ensures
        step.meaning() == run_pre_commit_with_retry_turn(repo_path@, retries as nat, replies@),
        command::heard_enough(step, replies@),
{
    let mut made: usize = 0;
    let mut identical: usize = 0;
    let mut code: Option<i32> = None;
    let mut stdout = String::new();
    let mut stderr = String::new();
    assert(replies@.skip(0) =~= replies@);
    assert(stdout@ =~= Seq::empty());
    assert(stderr@ =~= Seq::empty());
    let ghost whole = run_pre_commit_with_retry_turn(repo_path@, retries as nat, replies@);
    while made < MAX_RETRY
        invariant
            made <= MAX_RETRY,
            made <= replies@.len(),
            identical <= made,
            whole == run_pre_commit_with_retry_turn(repo_path@, retries as nat, replies@),
            whole == command::later(
                retry_turn(
                    repo_path@,
                    retries as nat,
                    made as nat,
                    identical as nat,
                    (Attempt { code, stdout: stdout@, stderr: stderr@ }),
                    replies@.skip(made as int),
                ),
                made as nat,
            ),
        decreases MAX_RETRY - made,
    {
        if replies.len() == made {
            return Step::Ask(
                Request::Run(
                    Invocation::new_in(repo_path, "pre-commit").arg("run").arg("--all-files"),
                ),
            );
        }
        let ghost left = replies@.skip(made as int);
        assert(left[0] == replies@[made as int]);
        assert(left.skip(1) =~= replies@.skip(made + 1));
        match &replies[made] {
            Err(e) => {
                return Step::Done(Err(cat2("Failed to execute pre-commit: ", e)), made + 1);
            },
            Ok(out) => {
                if out.success() {
                    return Step::Done(Ok(()), made + 1);
                }
                let now_out = out.out_text();
                let now_err = out.err_text();
                let alike = out.code == code && same(&now_out, &stdout) && same(&now_err, &stderr);
                if made > 0 && alike {
                    identical = identical + 1;
                    if identical >= retries {
                        let words = say_gave_up(code, &stdout, &stderr);
                        return Step::Done(Err(words), made + 1);
                    }
                } else {
                    identical = 0;
                }
                code = out.code;
                stdout = now_out;
                stderr = now_err;
            },
        }
        made = made + 1;
    }
    Step::Done(Err(say_gave_up(code, &stdout, &stderr)), made)
}

// ---------------------------------------------------------------------------
// Laws
// ---------------------------------------------------------------------------

/// Whether a run of the hooks took place and failed.
pub open spec fn failed(reply: Reply) -> bool {
    reply is Ok && !command::succeeded(reply)
}

proof fn lemma_retry(
    repo_path: Seq<char>,
    retries: nat,
    made: nat,
    identical: nat,
    last: Attempt,
    replies: Seq<Reply>,
)
    requires
        made <= MAX_RETRY,
    ensures
        ({
            let turn = retry_turn(repo_path, retries, made, identical, last, replies);
            &&& replies.len() >= MAX_RETRY - made ==> turn is Done
            &&& turn matches Turn::Done(_, n) ==> n <= MAX_RETRY - made && n <= replies.len()
            &&& turn matches Turn::Done(Ok(_), n) ==> {
                &&& 1 <= n
                &&& command::succeeded(replies[n - 1])
                &&& forall|i: int| 0 <= i < n - 1 ==> failed(#[trigger] replies[i])
            }
        }),
    decreases MAX_RETRY - made,
{
    if made < MAX_RETRY && replies.len() > 0 {
        let left = replies.skip(1);
        let r = replies[0];
        assert(forall|i: int| 0 <= i < left.len() ==> left[i] == replies[i + 1]);
        if failed(r) {
            let again = made > 0 && attempt(r) == last;
            let count = if again {
                identical + 1
            } else {
                0
            };
            lemma_retry(repo_path, retries, made + 1, count, attempt(r), left);
            let turn = retry_turn(repo_path, retries, made, identical, last, replies);
            let rest = retry_turn(repo_path, retries, made + 1, count, attempt(r), left);
            if !(again && identical + 1 >= retries) {
                assert(turn == command::later(rest, 1));
                if let Turn::Done(Ok(_), n) = rest {
                    assert forall|i: int| 0 <= i < n implies failed(#[trigger] replies[i]) by {
                        if i > 0 {
                            assert(failed(left[i - 1]));
                        }
                    }
                }
            }
        }
    }
}

/// The hooks are run at most `MAX_RETRY` times: once that many answers have been
/// heard, there is a result.
pub proof fn law_never_more_than_max_retry(
    repo_path: Seq<char>,
    retries: nat,
    replies: Seq<Reply>,
)
    ensures
        replies.len() >= MAX_RETRY ==> run_pre_commit_with_retry_turn(
            repo_path,
            retries,
            replies,
        ) is Done,
        run_pre_commit_with_retry_turn(repo_path, retries, replies) matches Turn::Done(_, n) ==> n
            <= MAX_RETRY,
{
    let none = Attempt { code: None, stdout: Seq::empty(), stderr: Seq::empty() };
    lemma_retry(repo_path, retries, 0, 0, none, replies);
}

/// The hooks pass only where the last run succeeded and all runs before it took
/// place and failed.
pub proof fn law_success_ends_the_runs(repo_path: Seq<char>, retries: nat, replies: Seq<Reply>)
    ensures
        run_pre_commit_with_retry_turn(repo_path, retries, replies) matches Turn::Done(Ok(_), n)
            ==> {
            &&& 1 <= n <= replies.len()
            &&& command::succeeded(replies[n - 1])
            &&& forall|i: int| 0 <= i < n - 1 ==> failed(#[trigger] replies[i])
        },
{
    let none = Attempt { code: None, stdout: Seq::empty(), stderr: Seq::empty() };
    lemma_retry(repo_path, retries, 0, 0, none, replies);
}

proof fn lemma_identical(
    repo_path: Seq<char>,
    retries: nat,
    made: nat,
    last: Attempt,
    replies: Seq<Reply>,
)
    requires
        1 <= made <= retries < MAX_RETRY,
        replies.len() >= retries - made + 1,
        forall|i: int|
            0 <= i < retries - made + 1 ==> failed(#[trigger] replies[i]) && attempt(replies[i])
                == last,
    ensures
        retry_turn(repo_path, retries, made, (made - 1) as nat, last, replies) == Turn::Done(
            Err::<(), Seq<char>>(gave_up(last)),
            (retries - made + 1) as nat,
        ),
    decreases retries - made,
{
    let left = replies.skip(1);
    assert(failed(replies[0]));
    if made < retries {
        assert forall|i: int| 0 <= i < retries - (made + 1) + 1 implies failed(#[trigger] left[i])
            && attempt(left[i]) == last by {
            assert(left[i] == replies[i + 1]);
        }
        lemma_identical(repo_path, retries, made + 1, last, left);
    }
}

/// Hooks that fail with the same exit code and output each time are given up once
/// the first failure has been repeated `retries` times.
pub proof fn law_identical_failures_end_the_runs(
    repo_path: Seq<char>,
    retries: nat,
    replies: Seq<Reply>,
)
    requires
        1 <= retries < MAX_RETRY,
        replies.len() >= retries + 1,
        forall|i: int|
            0 <= i <= retries ==> failed(#[trigger] replies[i]) && attempt(replies[i]) == attempt(
                replies[0],
            ),
    ensures
        run_pre_commit_with_retry_turn(repo_path, retries, replies) == Turn::Done(
            Err::<(), Seq<char>>(gave_up(attempt(replies[0]))),
            retries + 1,
        ),
{
    let left = replies.skip(1);
    assert(failed(replies[0]));
    assert forall|i: int| 0 <= i < retries implies failed(#[trigger] left[i]) && attempt(left[i])
        == attempt(replies[0]) by {
        assert(left[i] == replies[i + 1]);
    }
    lemma_identical(repo_path, retries, 1, attempt(replies[0]), left);
}

} // verus!
