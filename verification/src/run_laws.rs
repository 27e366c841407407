//! What every run of a change asks for, and what must have gone well before it
//! succeeds, whatever the outside answers.
use crate::command;
use crate::command::{Reply, Turn, Wish};
use crate::create;
use crate::create::{Job, Run, StageFacts, UndoFacts};
use crate::create_laws;
use crate::git;
use crate::git_laws;
use crate::github;
use crate::hooks;
use crate::json;
use crate::json::Document;
use crate::numbers;
use crate::paths;
use crate::patterns;
use crate::repo;
use crate::repo::{ChangeFacts, ContentFacts};
use crate::requests;
use crate::text;
use vstd::prelude::*;

verus! {

/// Where the repository of a job is: below the root, under its slug.
pub open spec fn place(job: Job) -> Seq<char> {
    paths::join(job.root, job.repo.reposlug)
}

/// What a run asks for next.
pub open spec fn asked(job: Job, run: Run) -> Option<Wish> {
    match create::talk(job, run, Seq::empty()) {
        Turn::Ask(wish) => Some(wish),
        Turn::Done(_, _) => None,
    }
}

// ---------------------------------------------------------------------------
// Everything that is asked for is about the repository
// ---------------------------------------------------------------------------

/// Whether a path is that of one of the files of a job.
pub open spec fn is_file_of(job: Job, path: Seq<char>) -> bool {
    exists|k: int|
        0 <= k < job.repo.files.len() && path == paths::join(
            place(job),
            #[trigger] job.repo.files[k],
        )
}

/// Whether a path is that of the file that a job adds.
pub open spec fn is_new_file_of(job: Job, path: Seq<char>) -> bool {
    job.repo.change matches Some(ChangeFacts::Add(file, _)) && path == paths::join(
        place(job),
        file,
    )
}

/// Whether arguments name a repository.
pub open spec fn name_repository(args: Seq<Seq<char>>, slug: Seq<char>) -> bool {
    exists|k: int| 0 <= k < args.len() - 1 && #[trigger] args[k] == "--repo"@ && args[k + 1] == slug
}

/// Whether a request keeps to the repository of a job: git and the hooks are run in
/// it, GitHub is asked about it, and what is read, written and removed are its
/// files.
pub open spec fn keeps_to(job: Job, wish: Wish) -> bool {
    match wish {
        Wish::Run(call) => {
            ||| call.program == "git"@ && call.dir == Some(place(job))
            ||| call.program == "pre-commit"@ && call.dir == Some(place(job))
            ||| call.program == "gh"@ && call.dir == Some(place(job))
            ||| call.program == "gh"@ && call.dir is None && name_repository(
                call.args,
                job.repo.reposlug,
            )
        },
        Wish::Read(path) => is_file_of(job, path),
        Wish::Write(path, _) => is_file_of(job, path) || is_new_file_of(job, path),
        Wish::Remove(path) => is_file_of(job, path),
        Wish::MakeDirs(path) => job.repo.change matches Some(ChangeFacts::Add(file, _))
            && paths::parent(paths::join(place(job), file)) == Some(path),
        Wish::Look(_) => false,
    }
}

/// Whether what a stage knows of files is right.
spec fn sound(job: Job, run: Run) -> bool {
    match run.stage {
        StageFacts::Rewriting { file, .. } => is_file_of(job, file),
        StageFacts::Applying { edits, .. } => edits == create::late_edits(job, run.contents),
        _ => true,
    }
}

proof fn lemma_files(job: Job, k: int)
    requires
        0 <= k < job.files().len(),
    ensures
        job.files().len() == job.repo.files.len(),
        job.files()[k] == paths::join(place(job), job.repo.files[k]),
        is_file_of(job, job.files()[k]),
{
}

proof fn lemma_pass_is_sound(job: Job, run: Run, report: Seq<char>)
    requires
        sound(job, run),
    ensures
        sound(job, create::pass(job, run, report)),
{
    reveal(create::pass);
    if run.stage is Reading && run.contents.len() < job.files().len() {
        lemma_files(job, run.contents.len() as int);
    }
}

proof fn lemma_settled_is_sound(job: Job, run: Run, report: Seq<char>)
    requires
        sound(job, run),
    ensures
        sound(job, create::settled(job, run, report)),
{
    let r1 = create::pass(job, run, report);
    let r2 = create::pass(job, r1, report);
    lemma_pass_is_sound(job, run, report);
    lemma_pass_is_sound(job, r1, report);
    lemma_pass_is_sound(job, r2, report);
}

proof fn lemma_settles(job: Job, now: Run, next: Run) -> (report: Seq<char>)
    requires
        create::settles(job, now, next),
    ensures
        next == create::settled(job, now, report),
{
    choose|report: Seq<char>|
        create::drawn(job, now, report) && create::drawn(
            job,
            create::pass(job, now, report),
            report,
        ) && next == #[trigger] create::settled(job, now, report)
}

proof fn lemma_history_is_sound(job: Job, runs: Seq<Run>, replies: Seq<Reply>, i: int)
    requires
        create_laws::history(job, runs, replies),
        0 <= i < runs.len(),
    ensures
        sound(job, runs[i]),
    decreases i,
{
    if i == 0 {
        let report = lemma_settles(job, create::fresh(), runs[0]);
        lemma_settled_is_sound(job, create::fresh(), report);
    } else {
        lemma_history_is_sound(job, runs, replies, i - 1);
        let now = runs[i - 1];
        assert(!(now.stage is Finished));
        let heard = Run { heard: now.heard.push(replies[i - 1]), ..now };
        let report = lemma_settles(job, heard, runs[i]);
        lemma_settled_is_sound(job, heard, report);
    }
}

proof fn lemma_read_edits(
    change: ChangeFacts,
    path: Seq<char>,
    files: Seq<Seq<char>>,
    contents: Seq<ContentFacts>,
    j: int,
)
    requires
        !(change is Add),
        0 <= j < repo::read_edits(change, path, files, contents).len(),
    ensures
        exists|k: int|
            0 <= k < files.len() && repo::file_edits(
                change,
                paths::join(path, #[trigger] files[k]),
                contents[k],
            ).contains(repo::read_edits(change, path, files, contents)[j]),
    decreases files.len(),
{
    if files.len() > 0 {
        let front = files.drop_last();
        let last = files.len() - 1;
        let before = repo::read_edits(change, path, front, contents);
        let more = repo::file_edits(change, paths::join(path, files.last()), contents[last]);
        if j < before.len() {
            lemma_read_edits(change, path, front, contents, j);
            let k = choose|k: int|
                0 <= k < front.len() && repo::file_edits(
                    change,
                    paths::join(path, #[trigger] front[k]),
                    contents[k],
                ).contains(before[j]);
            assert(files[k] == front[k]);
        } else {
            assert(more[j - before.len()] == repo::read_edits(change, path, files, contents)[j]);
            assert(files[last] == files.last());
        }
    }
}

proof fn lemma_late_edits_keep(job: Job, contents: Seq<ContentFacts>, j: int)
    requires
        0 <= j < create::late_edits(job, contents).len(),
    ensures
        keeps_to(job, create::late_edits(job, contents)[j]),
{
    match job.repo.change {
        Some(ChangeFacts::Delete) => {
            let dir = place(job);
            let edits = repo::read_edits(ChangeFacts::Delete, dir, job.repo.files, contents);
            lemma_read_edits(ChangeFacts::Delete, dir, job.repo.files, contents, j);
            let k = choose|k: int|
                0 <= k < job.repo.files.len() && repo::file_edits(
                    ChangeFacts::Delete,
                    paths::join(dir, #[trigger] job.repo.files[k]),
                    contents[k],
                ).contains(edits[j]);
            assert(edits[j] == Wish::Remove(paths::join(dir, job.repo.files[k])));
        },
        _ => {},
    }
}

proof fn lemma_head_is_git(path: Seq<char>, replies: Seq<Reply>)
    ensures
        git::get_head_branch_turn(path, replies) matches Turn::Ask(wish) ==> (wish
            matches Wish::Run(call) && call.program == "git"@ && call.dir == Some(path)),
{
    reveal_with_fuel(git::common_branch_turn, 3);
}

proof fn lemma_names(args: Seq<Seq<char>>, slug: Seq<char>, k: int)
    requires
        0 <= k < args.len() - 1,
        args[k] == "--repo"@,
        args[k + 1] == slug,
    ensures
        name_repository(args, slug),
{
}

proof fn lemma_number_is_asked_of(job: Job, heard: Seq<Reply>)
    ensures
        github::get_pr_number_for_repo_turn(
            job.repo.reposlug,
            job.branch(),
            heard,
        ) matches Turn::Ask(wish) ==> keeps_to(job, wish),
{
    if let Turn::Ask(Wish::Run(call)) = github::get_pr_number_for_repo_turn(
        job.repo.reposlug,
        job.branch(),
        heard,
    ) {
        lemma_names(call.args, job.repo.reposlug, 2);
    }
}

proof fn lemma_sound_keeps_to(job: Job, run: Run)
    requires
        sound(job, run),
        create::contents_fit(job, run),
    ensures
        asked(job, run) matches Some(wish) ==> keeps_to(job, wish),
{
    match run.stage {
        StageFacts::FindingOldPr { .. } => {
            lemma_number_is_asked_of(job, run.heard);
        },
        StageFacts::FindingPr { .. } => {
            lemma_number_is_asked_of(job, run.heard);
        },
        StageFacts::ClosingPr { number, .. } => {
            if let Some(Wish::Run(call)) = asked(job, run) {
                lemma_names(call.args, job.repo.reposlug, 3);
            }
        },
        StageFacts::RollingBack { .. } => {
            if let UndoFacts::ReopenPr(number) = run.undo.last() {
                if let Some(Wish::Run(call)) = asked(job, run) {
                    lemma_names(call.args, job.repo.reposlug, 3);
                }
            }
        },
        StageFacts::Drafting => {
            if run.heard.len() < job.files().len() {
                lemma_files(job, run.heard.len() as int);
            }
        },
        StageFacts::Reading => {
            if run.contents.len() < job.files().len() {
                lemma_files(job, run.contents.len() as int);
            }
        },
        StageFacts::FindingHead => {
            lemma_head_is_git(job.path(), run.heard);
        },
        StageFacts::Hooks { .. } => {
            git_laws::lemma_retries_run_hooks(
                job.path(),
                2,
                0,
                0,
                hooks::Attempt { code: None, stdout: Seq::empty(), stderr: Seq::empty() },
                run.heard,
            );
        },
        StageFacts::Applying { edits, .. } => {
            if run.heard.len() < edits.len() {
                lemma_late_edits_keep(job, run.contents, run.heard.len() as int);
            }
        },
        _ => {},
    }
}

/// Whatever a run of a change asks for, at any time, is about the repository of its
/// job: git and `pre-commit` are run in the directory that the slug names below the
/// root, GitHub is asked about that slug, and only the files of the job in that
/// directory are read, written and removed. Nothing else is asked for.
pub proof fn law_runs_keep_to_their_repository(
    job: Job,
    runs: Seq<Run>,
    replies: Seq<Reply>,
    i: int,
)
    requires
        create_laws::history(job, runs, replies),
        0 <= i < runs.len(),
    ensures
        asked(job, runs[i]) matches Some(wish) ==> keeps_to(job, wish),
{
    lemma_history_is_sound(job, runs, replies, i);
    create_laws::lemma_history(job, runs, replies, i);
    lemma_sound_keeps_to(job, runs[i]);
}

// ---------------------------------------------------------------------------
// What an answer leads to
// ---------------------------------------------------------------------------

/// An answer completes no more than one stage that asks for anything. What may
/// follow at once is that all files are read, and that there is nothing to edit.
proof fn lemma_step(job: Job, now: Run, reply: Reply, next: Run) -> (report: Seq<char>)
    requires
        create_laws::lawful(job, now),
        create::waits(job, now),
        !(now.stage is Finished),
        create::hears(job, now, reply, next),
    ensures
        ({
            let heard = Run { heard: now.heard.push(reply), ..now };
            let first = create::pass(job, heard, report);
            ||| next == first
            ||| (first.stage is Reading || first.stage is Applying) && (next.stage is Applying
                || next.stage is Staging && nothing_to_edit(job, first)) && next.undo
                == first.undo && next.contents == first.contents && next.heard.len() == 0
        }),
{
    let heard = Run { heard: now.heard.push(reply), ..now };
    let report = lemma_settles(job, heard, next);
    let r1 = create::pass(job, heard, report);
    let r2 = create::pass(job, r1, report);
    let r3 = create::pass(job, r2, report);
    lemma_pass_onwards(job, heard, report);
    lemma_pass_onwards(job, r1, report);
    lemma_pass_onwards(job, r2, report);
    report
}

/// Whether there is nothing to be edited once all files have been read.
spec fn nothing_to_edit(job: Job, run: Run) -> bool {
    match run.stage {
        StageFacts::Applying { edits, .. } => edits.len() == 0,
        _ => create::late_edits(job, run.contents).len() == 0,
    }
}

/// Where a run can go that has heard nothing in its stage.
proof fn lemma_pass_onwards(job: Job, run: Run, report: Seq<char>)
    requires
        create::consistent(run),
        create::contents_fit(job, run),
    ensures
        ({
            let next = create::pass(job, run, report);
            &&& create::consistent(next)
            &&& create::contents_fit(job, next)
            &&& next == run && create::talk(job, run, report) is Ask || next.heard.len() == 0
                && !(next.stage is Drafting) || next == run && run.stage is Finished
            &&& run.stage is Finished || create::talk(job, run, report) is Ask ==> next == run
            &&& run.heard.len() == 0 && !(run.stage is Drafting) ==> {
                ||| next == run
                ||| (run.stage is Reading && next.stage is Applying || run.stage is Applying
                    && next.stage is Staging && nothing_to_edit(job, run)) && (
                nothing_to_edit(job, run) <==> next.stage is Staging || nothing_to_edit(
                    job,
                    next,
                )) && next.undo == run.undo && next.contents == run.contents
            }
        }),
{
    reveal(create::pass);
    if !(run.stage is Finished) && create::talk(job, run, report) is Done {
        create::lemma_pass(job, run, report);
        if run.heard.len() == 0 && !(run.stage is Drafting) && !(run.stage is Reading) && !(
        run.stage is Applying) {
            create::lemma_new_stage(job, run, report);
        }
    }
}

/// Whether a run has failed.
pub open spec fn has_failed(run: Run) -> bool {
    match run.stage {
        StageFacts::RollingBack { outcome: Err(_) } => true,
        StageFacts::Finished { outcome: Err(_) } => true,
        _ => false,
    }
}

/// Whether a run has failed with these words.
pub open spec fn has_failed_with(run: Run, words: Seq<char>) -> bool {
    match run.stage {
        StageFacts::RollingBack { outcome: Err(e) } => e == words,
        StageFacts::Finished { outcome: Err(e) } => e == words,
        _ => false,
    }
}

/// Whether a stage has to go well for the run to go on.
pub open spec fn must_go_well(stage: StageFacts) -> bool {
    match stage {
        StageFacts::Stashing => true,
        StageFacts::FindingBranch { .. } => true,
        StageFacts::Switching { .. } => true,
        StageFacts::FindingBase => true,
        StageFacts::Pulling { .. } => true,
        StageFacts::LocalCommit => true,
        StageFacts::LocalDelete { .. } => true,
        StageFacts::FindingOldPr { .. } => true,
        StageFacts::RemoteDelete { .. } => true,
        StageFacts::FindingOrigin => true,
        StageFacts::Branching { .. } => true,
        StageFacts::Staging { .. } => true,
        StageFacts::Committing { .. } => true,
        StageFacts::Pushing { .. } => true,
        StageFacts::FindingPr { .. } => true,
        StageFacts::ClosingPr { .. } => true,
        StageFacts::Opening { .. } => true,
        _ => false,
    }
}

/// A run of a change fails as soon as a request goes wrong that it has to rely on.
pub proof fn law_runs_stop_when_something_goes_wrong(
    job: Job,
    runs: Seq<Run>,
    replies: Seq<Reply>,
    i: int,
)
    requires
        create_laws::history(job, runs, replies),
        0 <= i < replies.len(),
        must_go_well(runs[i].stage),
        !requests::went_well(replies[i]),
    ensures
        has_failed(runs[i + 1]),
        runs[i + 1].undo == runs[i].undo,
{
    create_laws::lemma_history(job, runs, replies, i);
    assert(!(runs[i].stage is Finished));
    let now = runs[i];
    let report = lemma_step(job, now, replies[i], runs[i + 1]);
    lemma_waits_anew(job, now);
    reveal(create::pass);
}

/// A run that waits in a stage with one request has heard nothing in it.
proof fn lemma_waits_anew(job: Job, run: Run)
    requires
        create::waits(job, run),
        must_go_well(run.stage) || run.stage is Untracked || run.stage is Modified
            || run.stage is LocalCheck || run.stage is RemoteCheck || run.stage is Reading
            || run.stage is Rewriting,
    ensures
        run.heard.len() == 0,
{
}

/// What the answers decide. Files that git does not know end a run. Other changes
/// are put aside if there are any, and only then. A branch of that name is deleted,
/// and an open pull request closed, if there is one, and only then; a dry run does
/// not ask for those of the remote.
pub proof fn law_findings_decide(job: Job, runs: Seq<Run>, replies: Seq<Reply>, i: int)
    requires
        create_laws::history(job, runs, replies),
        0 <= i < replies.len(),
        replies[i] is Ok,
    ensures
        ({
            let dir = place(job);
            let branch = create::branch_for(job.repo.change_id);
            let now = runs[i];
            let next = runs[i + 1];
            let well = requests::went_well(replies[i]);
            &&& now.stage is Untracked ==> {
                &&& asked(job, now) == Some(
                    requests::run_in(dir, "git"@, seq!["status"@, "--porcelain"@]),
                )
                &&& if git::some_line_begins(text::lines(requests::printed(replies[i])), "??"@) {
                    has_failed_with(next, "Untracked files exist in '"@ + dir + "'. Aborting."@)
                } else {
                    next.stage is Modified
                }
            }
            &&& now.stage is Modified ==> {
                &&& asked(job, now) == Some(
                    requests::run_in(
                        dir,
                        "git"@,
                        seq!["diff-index"@, "--quiet"@, "HEAD"@, "--"@],
                    ),
                )
                &&& if well {
                    next.stage is FindingHead
                } else {
                    next.stage is Stashing
                }
            }
            &&& now.stage is LocalCheck ==> {
                &&& asked(job, now) == Some(
                    requests::run_in(
                        dir,
                        "git"@,
                        seq!["rev-parse"@, "--verify"@, "refs/heads/"@ + branch],
                    ),
                )
                &&& if well {
                    next.stage is LocalCommit
                } else if job.commit_msg is Some {
                    next.stage is RemoteCheck
                } else {
                    next.stage is FindingOrigin
                }
            }
            &&& now.stage is RemoteCheck ==> {
                &&& asked(job, now) == Some(
                    requests::run_in(
                        dir,
                        "git"@,
                        seq![
                            "ls-remote"@, "--exit-code"@, "--heads"@, "origin"@,
                            "refs/heads/"@ + branch,
                        ],
                    ),
                )
                &&& if well {
                    next.stage is FindingOldPr
                } else {
                    next.stage is FindingOrigin
                }
            }
        }),
{
    create_laws::lemma_history(job, runs, replies, i);
    assert(!(runs[i].stage is Finished));
    let now = runs[i];
    let report = lemma_step(job, now, replies[i], runs[i + 1]);
    if now.stage is Untracked || now.stage is Modified || now.stage is LocalCheck
        || now.stage is RemoteCheck {
        lemma_waits_anew(job, now);
        reveal(create::pass);
    }
}

// ---------------------------------------------------------------------------
// What is done, and what takes it back
// ---------------------------------------------------------------------------

/// Whether this is the request that takes something back.
pub open spec fn takes_back(job: Job, undo: UndoFacts, wish: Wish) -> bool {
    requests::asks(create::undo_turn(job, undo, Seq::empty()), wish)
}

/// Whether a run has learnt of one more thing to be taken back, by this request.
pub open spec fn can_take_back(job: Job, now: Run, next: Run, wish: Wish) -> bool {
    &&& next.undo.len() == now.undo.len() + 1
    &&& next.undo.drop_last() == now.undo
    &&& takes_back(job, next.undo.last(), wish)
}

/// The answer before the one at `i`, as the word that it is.
pub open spec fn word_before(replies: Seq<Reply>, i: int) -> Seq<char> {
    requests::answered(replies[i - 1])
}

proof fn lemma_start(job: Job, start: Run)
    requires
        create::begins(job, start),
    ensures
        start.stage is Drafting || start.stage is Untracked || start.stage is Finished,
{
    let report = lemma_settles(job, create::fresh(), start);
    let r1 = create::pass(job, create::fresh(), report);
    let r2 = create::pass(job, r1, report);
    lemma_pass_onwards(job, create::fresh(), report);
    assert(r1.stage is Drafting || r1.stage is Untracked || r1.stage is Finished) by {
        reveal(create::pass);
    }
    if !(r1.stage is Drafting) {
        lemma_pass_onwards(job, r1, report);
        lemma_pass_onwards(job, r2, report);
    }
}

proof fn lemma_number_is_open(slug: Seq<char>, branch: Seq<char>, heard: Seq<Reply>)
    requires
        heard.len() > 0,
    ensures
        github::get_pr_number_for_repo_turn(slug, branch, heard) matches Turn::Done(Ok(number), _)
            ==> is_open(heard[0], number),
{
    if let Turn::Done(Ok(number), _) = github::get_pr_number_for_repo_turn(slug, branch, heard) {
        if let Ok(out) = heard[0] {
            let document = json::json_in(out.stdout@)->Ok_0;
            assert(number == github::first_number(document));
            if !starts_with_number(document, number) {
                assert(number == 0);
                assert forall|n: u64| !starts_with_number(document, n) by {}
            }
        }
    }
}

/// What a stage knows that comes right after this one.
spec fn comes_after(now: Run, reply: Reply, stage: StageFacts) -> bool {
    let word = requests::answered(reply);
    match stage {
        StageFacts::Switching { head, original } => now.stage == (StageFacts::FindingBranch {
            head,
        }) && original == word && original != head,
        StageFacts::Pulling { base } => now.stage is FindingBase && base == word,
        StageFacts::LocalDelete { commit } => now.stage is LocalCommit && commit == word,
        StageFacts::FindingOldPr { commit } => now.stage is RemoteCheck && commit
            == git::first_field(requests::printed(reply)),
        StageFacts::RemoteDelete { commit, number } => now.stage == (StageFacts::FindingOldPr {
            commit,
        }) && is_open(reply, number),
        StageFacts::Branching { origin } => now.stage is FindingOrigin && origin == word,
        StageFacts::ClosingPr { number, .. } => now.stage is FindingPr && number != 0 && is_open(
            reply,
            number,
        ),
        _ => true,
    }
}

proof fn lemma_pass_origin(job: Job, now: Run, reply: Reply, report: Seq<char>)
    requires
        create::waits(job, now),
        !(now.stage is Finished),
    ensures
        comes_after(
            now,
            reply,
            create::pass(job, Run { heard: now.heard.push(reply), ..now }, report).stage,
        ),
{
    let heard = Run { heard: now.heard.push(reply), ..now };
    if now.stage is FindingOldPr || now.stage is FindingPr {
        lemma_waits_anew(job, now);
        lemma_number_is_open(job.repo.reposlug, job.branch(), heard.heard);
        assert(heard.heard[0] == reply);
        lemma_pass_number(job, heard, report);
    } else if must_go_well(now.stage) || now.stage is RemoteCheck {
        lemma_waits_anew(job, now);
        assert(heard.heard[0] == reply);
        assert(requests::printed(reply) == command::said(reply));
        lemma_pass_word(job, heard, report);
    } else {
        lemma_pass_other(job, heard, report);
    }
}

proof fn lemma_pass_number(job: Job, heard: Run, report: Seq<char>)
    requires
        heard.stage is FindingOldPr || heard.stage is FindingPr,
        heard.heard.len() == 1,
        github::get_pr_number_for_repo_turn(
            job.repo.reposlug,
            job.branch(),
            heard.heard,
        ) matches Turn::Done(Ok(number), _) ==> is_open(heard.heard[0], number),
    ensures
        comes_after(heard, heard.heard[0], create::pass(job, heard, report).stage),
{
    reveal(create::pass);
    let turn = github::get_pr_number_for_repo_turn(
        job.repo.reposlug,
        job.branch(),
        heard.heard,
    );
}

proof fn lemma_pass_word(job: Job, heard: Run, report: Seq<char>)
    requires
        must_go_well(heard.stage) || heard.stage is RemoteCheck,
        !(heard.stage is FindingOldPr),
        !(heard.stage is FindingPr),
        heard.heard.len() == 1,
        requests::printed(heard.heard[0]) == command::said(heard.heard[0]),
    ensures
        comes_after(heard, heard.heard[0], create::pass(job, heard, report).stage),
{
    reveal(create::pass);
}

proof fn lemma_pass_other(job: Job, heard: Run, report: Seq<char>)
    requires
        !must_go_well(heard.stage),
        !(heard.stage is RemoteCheck),
    ensures
        ({
            let stage = create::pass(job, heard, report).stage;
            !(stage is Switching) && !(stage is Pulling) && !(stage is LocalDelete) && !(
            stage is FindingOldPr) && !(stage is RemoteDelete) && !(stage is Branching) && !(
            stage is ClosingPr)
        }),
{
    reveal(create::pass);
}

proof fn lemma_origin(job: Job, runs: Seq<Run>, replies: Seq<Reply>, i: int)
    requires
        create_laws::history(job, runs, replies),
        0 <= i < runs.len(),
        must_go_well(runs[i].stage),
    ensures
        i > 0,
        comes_after(runs[i - 1], replies[i - 1], runs[i].stage),
{
    if i == 0 {
        lemma_start(job, runs[0]);
    } else {
        create_laws::lemma_history(job, runs, replies, i - 1);
        let now = runs[i - 1];
        assert(!(now.stage is Finished));
        let report = lemma_step(job, now, replies[i - 1], runs[i]);
        lemma_pass_origin(job, now, replies[i - 1], report);
    }
}

/// A step that went well leaves behind what undoes it.
proof fn lemma_did(job: Job, runs: Seq<Run>, replies: Seq<Reply>, i: int)
    requires
        create_laws::history(job, runs, replies),
        0 <= i < replies.len(),
        must_go_well(runs[i].stage),
        requests::went_well(replies[i]),
        create_laws::inverse(job, runs[i].stage).len() > 0,
    ensures
        runs[i + 1].undo == runs[i].undo + create_laws::inverse(job, runs[i].stage),
        runs[i].heard.len() == 0,
{
    create_laws::lemma_history(job, runs, replies, i);
    let now = runs[i];
    assert(!(now.stage is Finished));
    let report = lemma_step(job, now, replies[i], runs[i + 1]);
    lemma_waits_anew(job, now);
    reveal(create::pass);
}

/// Whether a document lists pull requests of which the first has a number.
pub open spec fn starts_with_number(document: Document, number: u64) -> bool {
    document matches Document::List(prs) && prs.len() > 0 && json::at(prs[0], "number"@)
        == Document::Number(Some(number))
}

/// Whether an answer names this as the number of the first pull request that is
/// open, or none where the number is 0.
pub open spec fn is_open(reply: Reply, number: u64) -> bool {
    &&& requests::went_well(reply)
    &&& reply matches Ok(out) && json::json_in(out.stdout@) matches Ok(document) && (
    starts_with_number(document, number) || number == 0 && forall|n: u64|
        !starts_with_number(document, n))
}

/// Changes that are put aside can be taken up again.
pub proof fn law_stashed_changes_can_be_taken_up(
    job: Job,
    runs: Seq<Run>,
    replies: Seq<Reply>,
    i: int,
)
    requires
        create_laws::history(job, runs, replies),
        0 <= i < replies.len(),
        requests::went_well(replies[i]),
    ensures
        ({
            let dir = place(job);
            let branch = create::branch_for(job.repo.change_id);
            let now = runs[i];
            let next = runs[i + 1];
            now.stage is Stashing ==> {
                &&& asked(job, now) == Some(
                    requests::run_in(
                        dir,
                        "git"@,
                        seq!["stash"@, "push"@, "-m"@, "SLAM pre-branch-stash"@],
                    ),
                )
                &&& can_take_back(
                    job,
                    now,
                    next,
                    requests::run_in(dir, "git"@, seq!["stash"@, "pop"@, "stash@{0}"@]),
                )
            }
        }),
{
    let now = runs[i];
    create_laws::lemma_history(job, runs, replies, i);
    if now.stage is Stashing {
        lemma_did(job, runs, replies, i);
        lemma_origin(job, runs, replies, i);
        create_laws::lemma_history(job, runs, replies, i - 1);
        let more = create_laws::inverse(job, now.stage);
        assert((now.undo + more).drop_last() =~= now.undo);
    }
}

/// The branch that was checked out before, as git named it, can be checked out again.
pub proof fn law_the_branch_at_hand_can_be_returned_to(
    job: Job,
    runs: Seq<Run>,
    replies: Seq<Reply>,
    i: int,
)
    requires
        create_laws::history(job, runs, replies),
        0 <= i < replies.len(),
        requests::went_well(replies[i]),
    ensures
        ({
            let dir = place(job);
            let now = runs[i];
            let next = runs[i + 1];
            now.stage matches StageFacts::Switching { head, .. } ==> {
                &&& i > 0
                &&& asked(job, runs[i - 1]) == Some(
                    requests::run_in(dir, "git"@, seq!["symbolic-ref"@, "--short"@, "HEAD"@]),
                )
                &&& asked(job, now) == Some(
                    requests::run_in(dir, "git"@, seq!["checkout"@, head]),
                )
                &&& can_take_back(
                    job,
                    now,
                    next,
                    requests::run_in(dir, "git"@, seq!["checkout"@, word_before(replies, i)]),
                )
            }
        }),
{
    let now = runs[i];
    create_laws::lemma_history(job, runs, replies, i);
    if now.stage is Switching {
        lemma_did(job, runs, replies, i);
        lemma_origin(job, runs, replies, i);
        create_laws::lemma_history(job, runs, replies, i - 1);
        let more = create_laws::inverse(job, now.stage);
        lemma_waits_anew(job, runs[i - 1]);
        assert((now.undo + more).drop_last() =~= now.undo);
    }
}

/// What is pulled can be dropped for the commit that git said the branch was at.
pub proof fn law_pulled_commits_can_be_dropped(
    job: Job,
    runs: Seq<Run>,
    replies: Seq<Reply>,
    i: int,
)
    requires
        create_laws::history(job, runs, replies),
        0 <= i < replies.len(),
        requests::went_well(replies[i]),
    ensures
        ({
            let dir = place(job);
            let now = runs[i];
            let next = runs[i + 1];
            now.stage is Pulling ==> {
                &&& i > 0
                &&& asked(job, runs[i - 1]) == Some(
                    requests::run_in(dir, "git"@, seq!["rev-parse"@, "HEAD"@]),
                )
                &&& asked(job, now) == Some(requests::run_in(dir, "git"@, seq!["pull"@]))
                &&& can_take_back(
                    job,
                    now,
                    next,
                    requests::run_in(
                        dir,
                        "git"@,
                        seq!["reset"@, "--hard"@, word_before(replies, i)],
                    ),
                )
            }
        }),
{
    let now = runs[i];
    create_laws::lemma_history(job, runs, replies, i);
    if now.stage is Pulling {
        lemma_did(job, runs, replies, i);
        lemma_origin(job, runs, replies, i);
        create_laws::lemma_history(job, runs, replies, i - 1);
        let more = create_laws::inverse(job, now.stage);
        lemma_waits_anew(job, runs[i - 1]);
        assert((now.undo + more).drop_last() =~= now.undo);
    }
}

/// A branch that is deleted can be restored at the commit that git said it was at.
pub proof fn law_deleted_branches_can_be_restored(
    job: Job,
    runs: Seq<Run>,
    replies: Seq<Reply>,
    i: int,
)
    requires
        create_laws::history(job, runs, replies),
        0 <= i < replies.len(),
        requests::went_well(replies[i]),
    ensures
        ({
            let dir = place(job);
            let branch = create::branch_for(job.repo.change_id);
            let now = runs[i];
            let next = runs[i + 1];
            now.stage is LocalDelete ==> {
                &&& i > 0
                &&& asked(job, runs[i - 1]) == Some(
                    requests::run_in(dir, "git"@, seq!["rev-parse"@, "refs/heads/"@ + branch]),
                )
                &&& asked(job, now) == Some(
                    requests::run_in(dir, "git"@, seq!["branch"@, "-D"@, branch]),
                )
                &&& can_take_back(
                    job,
                    now,
                    next,
                    requests::run_in(
                        dir,
                        "git"@,
                        seq!["branch"@, branch, word_before(replies, i)],
                    ),
                )
            }
        }),
{
    let now = runs[i];
    create_laws::lemma_history(job, runs, replies, i);
    if now.stage is LocalDelete {
        lemma_did(job, runs, replies, i);
        lemma_origin(job, runs, replies, i);
        create_laws::lemma_history(job, runs, replies, i - 1);
        let more = create_laws::inverse(job, now.stage);
        lemma_waits_anew(job, runs[i - 1]);
        assert((now.undo + more).drop_last() =~= now.undo);
    }
}

/// A branch of the remote that is deleted can be restored at the commit that git said it
/// was at, and the pull request that was open on it reopened after that.
pub proof fn law_unpublished_branches_can_be_restored(
    job: Job,
    runs: Seq<Run>,
    replies: Seq<Reply>,
    i: int,
)
    requires
        create_laws::history(job, runs, replies),
        0 <= i < replies.len(),
        requests::went_well(replies[i]),
    ensures
        ({
            let dir = place(job);
            let branch = create::branch_for(job.repo.change_id);
            let slug = job.repo.reposlug;
            let now = runs[i];
            let next = runs[i + 1];
            now.stage matches StageFacts::RemoteDelete { number, .. } ==> {
                &&& i > 1
                &&& asked(job, runs[i - 1]) == Some(asking_for_open(slug, branch))
                &&& is_open(replies[i - 1], number)
                &&& asked(job, now) == Some(
                    requests::run_in(dir, "git"@, seq!["push"@, "origin"@, ":"@ + branch]),
                )
                &&& next.undo.len() == now.undo.len() + (if number == 0 {
                    1int
                } else {
                    2
                })
                &&& takes_back(
                    job,
                    next.undo.last(),
                    requests::run_in(
                        dir,
                        "git"@,
                        seq![
                            "push"@, "origin"@,
                            git::first_field(requests::printed(replies[i - 2])) + ":refs/heads/"@
                                + branch,
                        ],
                    ),
                )
                &&& number != 0 ==> takes_back(
                    job,
                    next.undo[now.undo.len() as int],
                    reopening(slug, number),
                )
            }
        }),
{
    let now = runs[i];
    create_laws::lemma_history(job, runs, replies, i);
    if now.stage is RemoteDelete {
        lemma_did(job, runs, replies, i);
        lemma_origin(job, runs, replies, i);
        create_laws::lemma_history(job, runs, replies, i - 1);
        lemma_waits_anew(job, runs[i - 1]);
        lemma_origin(job, runs, replies, i - 1);
    }
}

/// A new branch can be left for the one before it, as git named it, and deleted, after
/// all changes to files are staged and dropped.
pub proof fn law_new_branches_can_be_left(
    job: Job,
    runs: Seq<Run>,
    replies: Seq<Reply>,
    i: int,
)
    requires
        create_laws::history(job, runs, replies),
        0 <= i < replies.len(),
        requests::went_well(replies[i]),
    ensures
        ({
            let dir = place(job);
            let branch = create::branch_for(job.repo.change_id);
            let now = runs[i];
            let next = runs[i + 1];
            now.stage is Branching ==> {
                &&& i > 0
                &&& asked(job, runs[i - 1]) == Some(
                    requests::run_in(dir, "git"@, seq!["symbolic-ref"@, "--short"@, "HEAD"@]),
                )
                &&& asked(job, now) == Some(
                    requests::run_in(
                        dir,
                        "git"@,
                        seq!["checkout"@, "-B"@, branch, "--quiet"@],
                    ),
                )
                &&& next.undo.len() == now.undo.len() + 4
                &&& takes_back(
                    job,
                    next.undo[now.undo.len() + 3int],
                    requests::run_in(dir, "git"@, seq!["add"@, "."@]),
                )
                &&& takes_back(
                    job,
                    next.undo[now.undo.len() + 2int],
                    requests::run_in(dir, "git"@, seq!["reset"@, "--hard"@, "HEAD"@]),
                )
                &&& takes_back(
                    job,
                    next.undo[now.undo.len() + 1int],
                    requests::run_in(dir, "git"@, seq!["checkout"@, word_before(replies, i)]),
                )
                &&& takes_back(
                    job,
                    next.undo[now.undo.len() as int],
                    requests::run_in(dir, "git"@, seq!["branch"@, "-D"@, branch]),
                )
            }
        }),
{
    let now = runs[i];
    create_laws::lemma_history(job, runs, replies, i);
    if now.stage is Branching {
        lemma_did(job, runs, replies, i);
        lemma_origin(job, runs, replies, i);
        create_laws::lemma_history(job, runs, replies, i - 1);
        lemma_waits_anew(job, runs[i - 1]);
    }
}

/// A commit can be taken back.
pub proof fn law_commits_can_be_taken_back(
    job: Job,
    runs: Seq<Run>,
    replies: Seq<Reply>,
    i: int,
)
    requires
        create_laws::history(job, runs, replies),
        0 <= i < replies.len(),
        requests::went_well(replies[i]),
    ensures
        ({
            let dir = place(job);
            let now = runs[i];
            let next = runs[i + 1];
            now.stage is Committing ==> can_take_back(
                job,
                now,
                next,
                requests::run_in(dir, "git"@, seq!["reset"@, "--soft"@, "HEAD~1"@]),
            )
        }),
{
    let now = runs[i];
    create_laws::lemma_history(job, runs, replies, i);
    if now.stage is Committing {
        lemma_did(job, runs, replies, i);
        lemma_origin(job, runs, replies, i);
        create_laws::lemma_history(job, runs, replies, i - 1);
        let more = create_laws::inverse(job, now.stage);
        assert((now.undo + more).drop_last() =~= now.undo);
    }
}

/// A branch that was published can be deleted from the remote.
pub proof fn law_published_branches_can_be_taken_back(
    job: Job,
    runs: Seq<Run>,
    replies: Seq<Reply>,
    i: int,
)
    requires
        create_laws::history(job, runs, replies),
        0 <= i < replies.len(),
        requests::went_well(replies[i]),
    ensures
        ({
            let dir = place(job);
            let branch = create::branch_for(job.repo.change_id);
            let now = runs[i];
            let next = runs[i + 1];
            now.stage is Pushing ==> can_take_back(
                job,
                now,
                next,
                requests::run_in(dir, "git"@, seq!["push"@, "origin"@, ":"@ + branch]),
            )
        }),
{
    let now = runs[i];
    create_laws::lemma_history(job, runs, replies, i);
    if now.stage is Pushing {
        lemma_did(job, runs, replies, i);
        lemma_origin(job, runs, replies, i);
        create_laws::lemma_history(job, runs, replies, i - 1);
        let more = create_laws::inverse(job, now.stage);
        assert((now.undo + more).drop_last() =~= now.undo);
    }
}

/// The pull request that was open, and is closed, can be reopened.
pub proof fn law_closed_pull_requests_can_be_reopened(
    job: Job,
    runs: Seq<Run>,
    replies: Seq<Reply>,
    i: int,
)
    requires
        create_laws::history(job, runs, replies),
        0 <= i < replies.len(),
        requests::went_well(replies[i]),
    ensures
        ({
            let branch = create::branch_for(job.repo.change_id);
            let slug = job.repo.reposlug;
            let now = runs[i];
            let next = runs[i + 1];
            now.stage matches StageFacts::ClosingPr { number, .. } ==> {
                &&& i > 0
                &&& asked(job, runs[i - 1]) == Some(asking_for_open(slug, branch))
                &&& is_open(replies[i - 1], number)
                &&& asked(job, now) == Some(
                    requests::run_here(
                        "gh"@,
                        seq![
                            "pr"@, "close"@, numbers::decimal(number as nat), "--repo"@, slug,
                            "--delete-branch"@, "--comment"@,
                            "Closing old PR in favor of new changes"@,
                        ],
                    ),
                )
                &&& can_take_back(job, now, next, reopening(slug, number))
            }
        }),
{
    let now = runs[i];
    create_laws::lemma_history(job, runs, replies, i);
    if now.stage is ClosingPr {
        lemma_did(job, runs, replies, i);
        lemma_origin(job, runs, replies, i);
        create_laws::lemma_history(job, runs, replies, i - 1);
        let more = create_laws::inverse(job, now.stage);
        lemma_waits_anew(job, runs[i - 1]);
        assert((now.undo + more).drop_last() =~= now.undo);
    }
}

/// The request for the open pull request of a branch.
pub open spec fn asking_for_open(slug: Seq<char>, branch: Seq<char>) -> Wish {
    requests::run_here(
        "gh"@,
        seq![
            "pr"@, "list"@, "--repo"@, slug, "--head"@, branch, "--state"@, "open"@, "--json"@,
            "number"@, "--limit"@, "1"@,
        ],
    )
}

/// The request to reopen a pull request.
pub open spec fn reopening(slug: Seq<char>, number: u64) -> Wish {
    requests::run_here(
        "gh"@,
        seq!["pr"@, "reopen"@, numbers::decimal(number as nat), "--repo"@, slug],
    )
}

// ---------------------------------------------------------------------------
// What must have gone well before a run succeeds
// ---------------------------------------------------------------------------

/// The requests that a change is made by, in this order: the new branch, the staging
/// of all files, the hooks, the commit, the branch on the remote, and the pull
/// request.
pub open spec fn milestone(job: Job, n: nat) -> Wish {
    let dir = place(job);
    let branch = create::branch_for(job.repo.change_id);
    let message = job.commit_msg.unwrap();
    if n == 1 {
        requests::run_in(dir, "git"@, seq!["checkout"@, "-B"@, branch, "--quiet"@])
    } else if n == 2 {
        requests::run_in(dir, "git"@, seq!["add"@, "."@])
    } else if n == 3 {
        requests::run_in(dir, "pre-commit"@, seq!["run"@, "--all-files"@])
    } else if n == 4 {
        requests::run_in(dir, "git"@, seq!["commit"@, "-am"@, message])
    } else if n == 5 {
        requests::run_in(dir, "git"@, seq!["push"@, "--set-upstream"@, "origin"@, branch])
    } else {
        requests::run_in(
            dir,
            "gh"@,
            seq![
                "pr"@, "create"@, "--title"@, branch, "--body"@, message
                    + "\n\ndocs: https://github.com/scottidler/slam/blob/main/README.md"@,
                "--base"@, "main"@,
            ],
        )
    }
}

/// Whether a request was made at this place, and went well.
pub open spec fn went_well_at(
    job: Job,
    runs: Seq<Run>,
    replies: Seq<Reply>,
    at: int,
    wish: Wish,
) -> bool {
    0 <= at < replies.len() && asked(job, runs[at]) == Some(wish) && requests::went_well(
        replies[at],
    )
}

/// Whether the first `n` of the requests that a change is made by went well, one
/// after the other and before the place `end`.
pub open spec fn reached(
    job: Job,
    runs: Seq<Run>,
    replies: Seq<Reply>,
    end: int,
    n: nat,
) -> bool
    decreases n,
{
    n == 0 || exists|at: int|
        at < end && #[trigger] went_well_at(job, runs, replies, at, milestone(job, n)) && reached(
            job,
            runs,
            replies,
            at,
            (n - 1) as nat,
        )
}

/// How many of the requests that a change is made by went well.
spec fn level(job: Job, stage: StageFacts) -> nat {
    match stage {
        StageFacts::Reading => 1,
        StageFacts::Rewriting { .. } => 1,
        StageFacts::Applying { .. } => 1,
        StageFacts::Staging { .. } => 1,
        StageFacts::Hooks { .. } => 2,
        StageFacts::Committing { .. } => 3,
        StageFacts::Pushing { .. } => 4,
        StageFacts::FindingPr { .. } => 5,
        StageFacts::ClosingPr { .. } => 5,
        StageFacts::Opening { .. } => 5,
        StageFacts::RollingBack { outcome: Ok(Some(_)) } => 3,
        StageFacts::Finished { outcome: Ok(Some(_)) } => if job.commit_msg is Some {
            6
        } else {
            3
        },
        _ => 0,
    }
}

proof fn lemma_last_attempt(
    path: Seq<char>,
    retries: nat,
    made: nat,
    identical: nat,
    last: hooks::Attempt,
    replies: Seq<Reply>,
    reply: Reply,
)
    requires
        hooks::retry_turn(path, retries, made, identical, last, replies) is Ask,
    ensures
        hooks::retry_turn(path, retries, made, identical, last, replies.push(reply)) matches
            Turn::Done(Ok(_), _) ==> requests::went_well(reply),
    decreases hooks::MAX_RETRY - made,
{
    if made < hooks::MAX_RETRY {
        let more = replies.push(reply);
        if replies.len() == 0 {
            assert(more[0] == reply);
            if reply is Ok && !requests::went_well(reply) {
                lemma_nothing_heard(path, retries, made + 1, 0, hooks::attempt(reply), more.skip(1));
                lemma_nothing_heard(path, retries, made + 1, identical + 1, last, more.skip(1));
            }
        } else {
            let r = replies[0];
            assert(more[0] == r);
            assert(more.skip(1) =~= replies.skip(1).push(reply));
            if !requests::went_well(r) && r is Ok {
                if made == 0 || hooks::attempt(r) != last {
                    lemma_last_attempt(
                        path,
                        retries,
                        made + 1,
                        0,
                        hooks::attempt(r),
                        replies.skip(1),
                        reply,
                    );
                } else if identical + 1 < retries {
                    lemma_last_attempt(
                        path,
                        retries,
                        made + 1,
                        identical + 1,
                        last,
                        replies.skip(1),
                        reply,
                    );
                }
            }
        }
    }
}

proof fn lemma_nothing_heard(
    path: Seq<char>,
    retries: nat,
    made: nat,
    identical: nat,
    last: hooks::Attempt,
    replies: Seq<Reply>,
)
    requires
        replies.len() == 0,
    ensures
        !(hooks::retry_turn(path, retries, made, identical, last, replies) matches Turn::Done(
            Ok(_),
            _,
        )),
{
}

proof fn lemma_level(job: Job, now: Run, reply: Reply, next: Run)
    requires
        create_laws::lawful(job, now),
        create::waits(job, now),
        !(now.stage is Finished),
        create::hears(job, now, reply, next),
    ensures
        ({
            ||| level(job, next.stage) <= level(job, now.stage)
            ||| level(job, next.stage) == level(job, now.stage) + 1 && asked(job, now) == Some(
                milestone(job, level(job, next.stage)),
            ) && requests::went_well(reply)
        }),
{
    let report = lemma_step(job, now, reply, next);
    let heard = Run { heard: now.heard.push(reply), ..now };
    if now.stage is Hooks {
        let none = hooks::Attempt { code: None, stdout: Seq::empty(), stderr: Seq::empty() };
        lemma_last_attempt(job.path(), 2, 0, 0, none, now.heard, reply);
        git_laws::lemma_retries_run_hooks(job.path(), 2, 0, 0, none, now.heard);
        lemma_level_of_hooks(job, now, reply, report);
    } else if must_go_well(now.stage) {
        lemma_waits_anew(job, now);
        reveal(create::pass);
    } else {
        lemma_level_of_others(job, heard, report);
    }
}

proof fn lemma_level_of_hooks(job: Job, now: Run, reply: Reply, report: Seq<char>)
    requires
        now.stage is Hooks,
        hooks::run_pre_commit_with_retry_turn(job.path(), 2, now.heard.push(reply)) matches
            Turn::Done(Ok(_), _) ==> requests::went_well(reply),
        create_laws::lawful(job, now),
    ensures
        ({
            let next = create::pass(job, Run { heard: now.heard.push(reply), ..now }, report);
            level(job, next.stage) <= 2 || level(job, next.stage) == 3 && requests::went_well(reply)
        }),
{
    reveal(create::pass);
    let turn = hooks::run_pre_commit_with_retry_turn(job.path(), 2, now.heard.push(reply));
}

proof fn lemma_level_of_others(job: Job, heard: Run, report: Seq<char>)
    requires
        create_laws::lawful(job, heard),
        !must_go_well(heard.stage),
        !(heard.stage is Hooks),
    ensures
        level(job, create::pass(job, heard, report).stage) <= level(job, heard.stage),
{
    reveal(create::pass);
}

proof fn lemma_reached_earlier(
    job: Job,
    runs: Seq<Run>,
    replies: Seq<Reply>,
    end: int,
    n: nat,
    later: int,
    fewer: nat,
)
    requires
        reached(job, runs, replies, end, n),
        end <= later,
        fewer <= n,
    ensures
        reached(job, runs, replies, later, fewer),
    decreases n,
{
    if fewer > 0 {
        let at = choose|at: int|
            at < end && #[trigger] went_well_at(job, runs, replies, at, milestone(job, n))
                && reached(job, runs, replies, at, (n - 1) as nat);
        if fewer < n {
            lemma_reached_earlier(job, runs, replies, at, (n - 1) as nat, later, fewer);
        } else {
            assert(went_well_at(job, runs, replies, at, milestone(job, fewer)));
        }
    }
}

proof fn lemma_history_reached(job: Job, runs: Seq<Run>, replies: Seq<Reply>, i: int)
    requires
        create_laws::history(job, runs, replies),
        0 <= i < runs.len(),
        i == 0 ==> !(create::outcome_of(runs[0].stage) matches Ok(Some(_))),
    ensures
        reached(job, runs, replies, i, level(job, runs[i].stage)),
    decreases i,
{
    if i == 0 {
        lemma_start(job, runs[0]);
    } else {
        if create::outcome_of(runs[0].stage) matches Ok(Some(_)) {
            lemma_start(job, runs[0]);
            assert(!(runs[0].stage is Finished));
        }
        lemma_history_reached(job, runs, replies, i - 1);
        create_laws::lemma_history(job, runs, replies, i - 1);
        assert(!(runs[i - 1].stage is Finished));
        let now = runs[i - 1];
        let next = runs[i];
        lemma_level(job, now, replies[i - 1], next);
        let before = level(job, now.stage);
        let after = level(job, next.stage);
        if after <= before {
            lemma_reached_earlier(job, runs, replies, i - 1, before, i, after);
        } else {
            assert(went_well_at(job, runs, replies, i - 1, milestone(job, after)));
        }
    }
}

proof fn lemma_start_has_no_report(job: Job, start: Run)
    requires
        create::begins(job, start),
    ensures
        !(create::outcome_of(start.stage) matches Ok(Some(_))),
{
    let report = lemma_settles(job, create::fresh(), start);
    let r1 = create::pass(job, create::fresh(), report);
    let r2 = create::pass(job, r1, report);
    lemma_pass_onwards(job, create::fresh(), report);
    assert(!(create::outcome_of(r1.stage) matches Ok(Some(_)))) by {
        reveal(create::pass);
    }
    lemma_pass_onwards(job, r1, report);
    lemma_pass_onwards(job, r2, report);
}

/// A run that succeeds has made its change: on a new branch, with all files staged
/// and the hooks passed; and unless it is a dry run, committed with the message of
/// the job, published under the name of the branch, with a pull request opened last,
/// under that name and with that message. Each of these went well, in this order, in
/// the directory of the repository.
pub proof fn law_success_takes_every_step(
    job: Job,
    runs: Seq<Run>,
    replies: Seq<Reply>,
    report: Seq<char>,
)
    requires
        create_laws::history(job, runs, replies),
        runs.last().stage is Finished,
        create::outcome_of(runs.last().stage) == Ok::<Option<Seq<char>>, Seq<char>>(Some(report)),
    ensures
        job.commit_msg is None ==> reached(job, runs, replies, replies.len() as int, 3),
        job.commit_msg is Some ==> reached(job, runs, replies, replies.len() as int, 6),
{
    lemma_start_has_no_report(job, runs[0]);
    lemma_history_reached(job, runs, replies, runs.len() - 1);
}

// ---------------------------------------------------------------------------
// What becomes of the files
// ---------------------------------------------------------------------------

/// Whether a request was made before the place `end`.
pub open spec fn asked_before(job: Job, runs: Seq<Run>, end: int, wish: Wish) -> bool {
    exists|at: int| 0 <= at < end && #[trigger] asked(job, runs[at]) == Some(wish)
}

spec fn all_asked(job: Job, runs: Seq<Run>, end: int, wishes: Seq<Wish>, m: nat) -> bool {
    forall|j: int|
        0 <= j < m && j < wishes.len() ==> asked_before(job, runs, end, #[trigger] wishes[j])
}

spec fn edits_asked(job: Job, runs: Seq<Run>, i: int) -> bool {
    let run = runs[i];
    match run.stage {
        StageFacts::Applying { edits, .. } => all_asked(job, runs, i, edits, run.heard.len()),
        _ => create_laws::report_in(run.stage) is Some ==> {
            let edits = create::late_edits(job, run.contents);
            all_asked(job, runs, i, edits, edits.len())
        },
    }
}

proof fn lemma_pass_after_edits(job: Job, heard: Run, report: Seq<char>)
    requires
        create::contents_fit(job, heard),
    ensures
        ({
            let next = create::pass(job, heard, report);
            &&& next.stage is Applying ==> next.heard.len() == 0 || next == heard
            &&& create_laws::report_in(next.stage) is Some && !(next.stage is Applying) && !(
            next.stage is Staging) ==> create_laws::report_in(heard.stage) is Some && !(
            heard.stage is Applying) && next.contents == heard.contents
            &&& next.stage is Staging ==> next.contents == heard.contents && (heard.stage is Staging
                || (heard.stage matches StageFacts::Applying { edits, .. } && heard.heard.len()
                >= edits.len()))
        }),
{
    reveal(create::pass);
}

proof fn lemma_all_asked_later(
    job: Job,
    runs: Seq<Run>,
    end: int,
    wishes: Seq<Wish>,
    m: nat,
    extra: nat,
)
    requires
        all_asked(job, runs, end, wishes, m),
        extra <= m || extra == m + 1 && 0 <= end && asked(job, runs[end]) == Some(
            wishes[m as int],
        ) || extra >= m && m >= wishes.len(),
    ensures
        all_asked(job, runs, end + 1, wishes, extra),
{
    assert forall|j: int| 0 <= j < extra && j < wishes.len() implies asked_before(
        job,
        runs,
        end + 1,
        #[trigger] wishes[j],
    ) by {
        if j < m {
            assert(asked_before(job, runs, end, wishes[j]));
            let at = choose|at: int|
                0 <= at < end && #[trigger] asked(job, runs[at]) == Some(wishes[j]);
            assert(asked(job, runs[at]) == Some(wishes[j]));
        } else {
            assert(asked(job, runs[end]) == Some(wishes[j]));
        }
    }
}

proof fn lemma_edits_asked(job: Job, runs: Seq<Run>, replies: Seq<Reply>, i: int)
    requires
        create_laws::history(job, runs, replies),
        0 <= i < runs.len(),
    ensures
        edits_asked(job, runs, i),
    decreases i,
{
    if i == 0 {
        lemma_start(job, runs[0]);
        lemma_start_has_no_report(job, runs[0]);
    } else {
        lemma_edits_asked(job, runs, replies, i - 1);
        create_laws::lemma_history(job, runs, replies, i - 1);
        lemma_history_is_sound(job, runs, replies, i - 1);
        lemma_history_is_sound(job, runs, replies, i);
        let now = runs[i - 1];
        let next = runs[i];
        assert(!(now.stage is Finished));
        let report = lemma_step(job, now, replies[i - 1], next);
        let heard = Run { heard: now.heard.push(replies[i - 1]), ..now };
        let first = create::pass(job, heard, report);
        lemma_pass_after_edits(job, heard, report);
        lemma_pass_is_sound(job, heard, report);
        let late = create::late_edits(job, now.contents);
        if next == first {
            if now.stage is Applying {
                let edits = now.stage->edits;
                assert(asked(job, now) == Some(edits[now.heard.len() as int]));
                lemma_all_asked_later(
                    job,
                    runs,
                    i - 1,
                    edits,
                    now.heard.len(),
                    now.heard.len() + 1,
                );
            } else if create_laws::report_in(now.stage) is Some {
                lemma_all_asked_later(job, runs, i - 1, late, late.len(), late.len());
            }
        }
    }
}

proof fn lemma_deletions(path: Seq<char>, files: Seq<Seq<char>>, contents: Seq<ContentFacts>, k: int)
    requires
        0 <= k < files.len(),
    ensures
        ({
            let edits = repo::read_edits(ChangeFacts::Delete, path, files, contents);
            edits.len() == files.len() && edits[k] == Wish::Remove(paths::join(path, files[k]))
        }),
    decreases files.len(),
{
    let front = files.drop_last();
    let before = repo::read_edits(ChangeFacts::Delete, path, front, contents);
    if front.len() == 0 {
        assert(before.len() == 0);
    } else if k < front.len() {
        lemma_deletions(path, front, contents, k);
    } else {
        lemma_deletions(path, front, contents, 0);
    }
}

/// Whether a change substitutes something.
pub open spec fn is_substitution(change: Option<ChangeFacts>) -> bool {
    match change {
        Some(ChangeFacts::Sub(_, _)) => true,
        Some(ChangeFacts::Regex(_, _)) => true,
        _ => false,
    }
}

/// Whether a file is read and, where it holds what is to be substituted and would
/// become something else, written at once with every occurrence replaced.
pub open spec fn substituted(
    job: Job,
    runs: Seq<Run>,
    replies: Seq<Reply>,
    at: int,
    path: Seq<char>,
) -> bool {
    &&& 0 <= at < replies.len()
    &&& asked(job, runs[at]) == Some(Wish::Read(path))
    &&& replies[at] is Ok ==> {
        let old = requests::printed(replies[at]);
        match job.repo.change {
            Some(ChangeFacts::Sub(pattern, replacement)) => {
                let new = text::replace(old, pattern, replacement);
                text::holds(old, pattern) && new != old ==> asked(job, runs[at + 1]) == Some(
                    Wish::Write(path, new),
                )
            },
            Some(ChangeFacts::Regex(pattern, replacement)) => {
                let new = patterns::regex_replaced(pattern, old, replacement);
                patterns::regex_valid(pattern) && patterns::regex_found(pattern, old) && new != old
                    ==> asked(job, runs[at + 1]) == Some(Wish::Write(path, new))
            },
            _ => true,
        }
    }
}

/// Whether at some time a file is read, and written at once with what is to be
/// substituted.
pub open spec fn is_substituted(
    job: Job,
    runs: Seq<Run>,
    replies: Seq<Reply>,
    path: Seq<char>,
) -> bool {
    exists|at: int| #[trigger] substituted(job, runs, replies, at, path)
}

/// A run that succeeds has had its change made to every file of the job. Each file
/// that is to be deleted was to be removed. The file that is to be added was to be
/// written, with a newline at its end. Each file in which something is to be
/// substituted was read, and written at once with it substituted.
pub proof fn law_success_edits_every_file(
    job: Job,
    runs: Seq<Run>,
    replies: Seq<Reply>,
    report: Seq<char>,
)
    requires
        create_laws::history(job, runs, replies),
        runs.last().stage is Finished,
        create::outcome_of(runs.last().stage) == Ok::<Option<Seq<char>>, Seq<char>>(Some(report)),
    ensures
        job.repo.change == Some(ChangeFacts::Delete) ==> forall|k: int|
            0 <= k < job.repo.files.len() ==> asked_before(
                job,
                runs,
                replies.len() as int,
                Wish::Remove(paths::join(place(job), #[trigger] job.repo.files[k])),
            ),
        job.repo.change matches Some(ChangeFacts::Add(file, content)) ==> {
            let path = paths::join(place(job), file);
            &&& asked_before(
                job,
                runs,
                replies.len() as int,
                Wish::Write(
                    path,
                    if content.len() > 0 && content.last() == '\n' {
                        content
                    } else {
                        content.push('\n')
                    },
                ),
            )
            &&& paths::parent(path) matches Some(dir) ==> asked_before(
                job,
                runs,
                replies.len() as int,
                Wish::MakeDirs(dir),
            )
        },
        is_substitution(job.repo.change) ==> forall|k: int|
            0 <= k < job.repo.files.len() ==> is_substituted(
                job,
                runs,
                replies,
                paths::join(place(job), #[trigger] job.repo.files[k]),
            ),
{
    match job.repo.change {
        Some(ChangeFacts::Delete) => {
            lemma_success_deletes(job, runs, replies);
        },
        Some(ChangeFacts::Add(file, content)) => {
            lemma_success_adds(job, runs, replies, file, content);
        },
        Some(_) => {
            assert forall|k: int| 0 <= k < job.repo.files.len() implies is_substituted(
                job,
                runs,
                replies,
                paths::join(place(job), #[trigger] job.repo.files[k]),
            ) by {
                lemma_success_substitutes(job, runs, replies, report, k);
            }
        },
        None => {},
    }
}

proof fn lemma_success_deletes(job: Job, runs: Seq<Run>, replies: Seq<Reply>)
    requires
        create_laws::history(job, runs, replies),
        runs.last().stage is Finished,
        create::outcome_of(runs.last().stage) matches Ok(Some(_)),
        job.repo.change == Some(ChangeFacts::Delete),
    ensures
        forall|k: int|
            0 <= k < job.repo.files.len() ==> asked_before(
                job,
                runs,
                replies.len() as int,
                Wish::Remove(paths::join(place(job), #[trigger] job.repo.files[k])),
            ),
{
    let n = runs.len() - 1;
    lemma_edits_asked(job, runs, replies, n);
    let contents = runs.last().contents;
    let edits = create::late_edits(job, contents);
    assert(all_asked(job, runs, n, edits, edits.len()));
    assert forall|k: int| 0 <= k < job.repo.files.len() implies asked_before(
        job,
        runs,
        replies.len() as int,
        Wish::Remove(paths::join(place(job), #[trigger] job.repo.files[k])),
    ) by {
        lemma_deletions(place(job), job.repo.files, contents, k);
        assert(asked_before(job, runs, n, edits[k]));
    }
}

proof fn lemma_success_adds(
    job: Job,
    runs: Seq<Run>,
    replies: Seq<Reply>,
    file: Seq<char>,
    content: Seq<char>,
)
    requires
        create_laws::history(job, runs, replies),
        runs.last().stage is Finished,
        create::outcome_of(runs.last().stage) matches Ok(Some(_)),
        job.repo.change == Some(ChangeFacts::Add(file, content)),
    ensures
        asked_before(
            job,
            runs,
            replies.len() as int,
            Wish::Write(
                paths::join(place(job), file),
                if content.len() > 0 && content.last() == '\n' {
                    content
                } else {
                    content.push('\n')
                },
            ),
        ),
        paths::parent(paths::join(place(job), file)) matches Some(dir) ==> asked_before(
            job,
            runs,
            replies.len() as int,
            Wish::MakeDirs(dir),
        ),
{
    let n = runs.len() - 1;
    lemma_edits_asked(job, runs, replies, n);
    let edits = create::late_edits(job, runs.last().contents);
    assert(all_asked(job, runs, n, edits, edits.len()));
    lemma_ends_with_newline(content);
    match paths::parent(paths::join(place(job), file)) {
        Some(dir) => {
            assert(asked_before(job, runs, n, edits[0]));
            assert(asked_before(job, runs, n, edits[1]));
        },
        None => {
            assert(asked_before(job, runs, n, edits[0]));
        },
    }
}

proof fn lemma_success_substitutes(
    job: Job,
    runs: Seq<Run>,
    replies: Seq<Reply>,
    report: Seq<char>,
    k: int,
)
    requires
        create_laws::history(job, runs, replies),
        runs.last().stage is Finished,
        create::outcome_of(runs.last().stage) == Ok::<Option<Seq<char>>, Seq<char>>(Some(report)),
        is_substitution(job.repo.change),
        0 <= k < job.repo.files.len(),
    ensures
        is_substituted(job, runs, replies, paths::join(place(job), job.repo.files[k])),
{
    let n = runs.len() - 1;
    let contents = runs.last().contents;
    create_laws::law_success_reports_the_change(job, runs, replies, report);
    let places = choose|places: Seq<int>| #[trigger]
        create_laws::read_in_turn(job, runs, replies, places, contents, n);
    lemma_files(job, k);
    let at = places[k];
    assert(create_laws::read_at(job, runs, replies, at, k, contents[k]));
    create_laws::lemma_history(job, runs, replies, at);
    assert(!(runs[at].stage is Finished));
    lemma_substituted(job, runs, replies, at, job.files()[k]);
}

proof fn lemma_ends_with_newline(content: Seq<char>)
    ensures
        repo::with_newline(content) == if content.len() > 0 && content.last() == '\n' {
            content
        } else {
            content.push('\n')
        },
{
    reveal_strlit("\n");
}

proof fn lemma_substituted(
    job: Job,
    runs: Seq<Run>,
    replies: Seq<Reply>,
    at: int,
    path: Seq<char>,
)
    requires
        create_laws::history(job, runs, replies),
        0 <= at < replies.len(),
        runs[at].stage is Reading,
        create::waits(job, runs[at]),
        asked(job, runs[at]) == Some(Wish::Read(path)),
        create::hears(job, runs[at], replies[at], runs[at + 1]),
    ensures
        substituted(job, runs, replies, at, path),
{
    let reply = replies[at];
    assert(requests::printed(reply) == command::said(reply));
    if let Some(new) = create::rewritten(job, create::content_said(reply)) {
        create_laws::law_substitutions_are_written_at_once(
            job,
            runs[at],
            reply,
            runs[at + 1],
            new,
        );
        lemma_waits_anew(job, runs[at]);
        assert(runs[at].contents.len() < job.files().len());
    }
}

/// Whether a request stays within the repository at hand: it commits nothing, pushes
/// nothing and asks nothing of GitHub.
pub open spec fn is_local(wish: Wish) -> bool {
    match wish {
        Wish::Run(call) => {
            &&& call.program == "git"@ || call.program == "pre-commit"@
            &&& call.args.len() > 0
            &&& call.args[0] != "commit"@
            &&& call.args[0] != "push"@
        },
        _ => true,
    }
}

proof fn lemma_words()
    ensures
        "status"@ != "commit"@ && "status"@ != "push"@,
        "diff-index"@ != "commit"@ && "diff-index"@ != "push"@,
        "stash"@ != "commit"@ && "stash"@ != "push"@,
        "symbolic-ref"@ != "commit"@ && "symbolic-ref"@ != "push"@,
        "rev-parse"@ != "commit"@ && "rev-parse"@ != "push"@,
        "checkout"@ != "commit"@ && "checkout"@ != "push"@,
        "pull"@ != "commit"@ && "pull"@ != "push"@,
        "branch"@ != "commit"@ && "branch"@ != "push"@,
        "add"@ != "commit"@ && "add"@ != "push"@,
        "reset"@ != "commit"@ && "reset"@ != "push"@,
        "run"@ != "commit"@ && "run"@ != "push"@,
{
    reveal_strlit("status");
    reveal_strlit("diff-index");
    reveal_strlit("stash");
    reveal_strlit("symbolic-ref");
    reveal_strlit("rev-parse");
    reveal_strlit("checkout");
    reveal_strlit("pull");
    reveal_strlit("branch");
    reveal_strlit("add");
    reveal_strlit("reset");
    reveal_strlit("run");
    reveal_strlit("commit");
    reveal_strlit("push");
    assert("status"@[0] != "commit"@[0] && "branch"@[0] != "commit"@[0]);
    assert("pull"@[2] != "push"@[2]);
    assert("commit"@.len() == 6 && "push"@.len() == 4);
    assert("diff-index"@.len() == 10 && "stash"@.len() == 5 && "symbolic-ref"@.len() == 12);
    assert("rev-parse"@.len() == 9 && "checkout"@.len() == 8 && "add"@.len() == 3);
    assert("reset"@.len() == 5 && "run"@.len() == 3 && "status"@.len() == 6);
    assert("branch"@.len() == 6 && "pull"@.len() == 4);
}

/// A dry run commits nothing, pushes nothing and asks nothing of GitHub, neither
/// while it makes its change nor while it takes it back.
pub proof fn law_dry_runs_stay_local(job: Job, runs: Seq<Run>, replies: Seq<Reply>, i: int)
    requires
        create_laws::history(job, runs, replies),
        0 <= i < runs.len(),
        job.commit_msg is None,
    ensures
        asked(job, runs[i]) matches Some(wish) ==> is_local(wish),
{
    create_laws::lemma_history(job, runs, replies, i);
    lemma_history_is_sound(job, runs, replies, i);
    let run = runs[i];
    match run.stage {
        StageFacts::Hooks { .. } => {
            lemma_words();
            git_laws::lemma_retries_run_hooks(
                job.path(),
                2,
                0,
                0,
                hooks::Attempt { code: None, stdout: Seq::empty(), stderr: Seq::empty() },
                run.heard,
            );
        },
        StageFacts::FindingHead => {
            lemma_finding_is_local(job, run);
        },
        StageFacts::Applying { edits, .. } => {
            if run.heard.len() < edits.len() {
                lemma_late_edits_are_no_runs(job, run.contents, run.heard.len() as int);
            }
        },
        StageFacts::RollingBack { .. } => {
            assert(!create_laws::undoes_more_than_files(run.undo.last()));
            lemma_undo_is_local(job, run);
        },
        _ => {
            lemma_stage_is_local(job, run);
        },
    }
}

proof fn lemma_finding_is_local(job: Job, run: Run)
    requires
        run.stage is FindingHead,
    ensures
        asked(job, run) matches Some(wish) ==> is_local(wish),
{
    lemma_words();
    reveal_with_fuel(git::common_branch_turn, 3);
}

proof fn lemma_undo_is_local(job: Job, run: Run)
    requires
        run.stage is RollingBack,
        !create_laws::undoes_more_than_files(run.undo.last()),
    ensures
        asked(job, run) matches Some(wish) ==> is_local(wish),
{
    lemma_words();
}

proof fn lemma_stage_is_local(job: Job, run: Run)
    requires
        !create_laws::commits(run.stage),
        !(run.stage is Hooks),
        !(run.stage is FindingHead),
        !(run.stage is Applying),
        !(run.stage is RollingBack),
    ensures
        asked(job, run) matches Some(wish) ==> is_local(wish),
{
    lemma_words();
}

proof fn lemma_late_edits_are_no_runs(job: Job, contents: Seq<ContentFacts>, j: int)
    requires
        0 <= j < create::late_edits(job, contents).len(),
    ensures
        !(create::late_edits(job, contents)[j] is Run),
{
    if job.repo.change == Some(ChangeFacts::Delete) {
        lemma_read_edits(ChangeFacts::Delete, place(job), job.repo.files, contents, j);
    }
}

/// A pull request that cannot be opened fails the run, with words that name the
/// repository.
pub proof fn law_failure_to_open_is_told(
    job: Job,
    runs: Seq<Run>,
    replies: Seq<Reply>,
    i: int,
)
    requires
        create_laws::history(job, runs, replies),
        0 <= i < replies.len(),
        runs[i].stage is Opening,
        !requests::went_well(replies[i]),
    ensures
        has_failed_with(
            runs[i + 1],
            "Failed to create PR for repo '"@ + job.repo.reposlug + "'"@,
        ),
{
    create_laws::lemma_history(job, runs, replies, i);
    assert(!(runs[i].stage is Finished));
    let report = lemma_step(job, runs[i], replies[i], runs[i + 1]);
    lemma_waits_anew(job, runs[i]);
    reveal(create::pass);
}

/// Whether a run asks for a directory to be made, or for a file to be written.
pub open spec fn asks_to_add(job: Job, run: Run) -> Option<Seq<char>> {
    match asked(job, run) {
        Some(Wish::MakeDirs(_)) => Some("failed to create directories for "@),
        Some(Wish::Write(_, _)) => Some("failed to write "@),
        _ => None,
    }
}

/// A new file that cannot be written is complained of, with its path and the reason.
/// Nothing else is.
pub proof fn law_complaints_are_about_new_files(
    job: Job,
    run: Run,
    reply: Reply,
)
    ensures
        job.repo.change matches Some(ChangeFacts::Add(file, _)) ==> (reply matches Err(e) ==> (
        create::complaint(job, run, reply) == match asks_to_add(job, run) {
            Some(words) => Some(words + paths::join(place(job), file) + ": "@ + e@),
            None => None,
        })),
        reply is Ok ==> create::complaint(job, run, reply) is None,
        !(job.repo.change matches Some(ChangeFacts::Add(_, _))) ==> create::complaint(
            job,
            run,
            reply,
        ) is None,
{
}

/// Hooks that fail three times in the same way end the run; after two such failures they
/// are run once more.
pub proof fn law_hooks_that_fail_alike_end_the_run(
    job: Job,
    runs: Seq<Run>,
    replies: Seq<Reply>,
    i: int,
)
    requires
        create_laws::history(job, runs, replies),
        0 <= i,
        i + 2 < replies.len(),
        runs[i].stage is Hooks,
        runs[i].heard.len() == 0,
        replies[i] is Ok,
        !requests::went_well(replies[i]),
        git_laws::ended_alike(replies[i], replies[i + 1]),
        git_laws::ended_alike(replies[i], replies[i + 2]),
    ensures
        runs[i + 1].stage is Hooks,
        runs[i + 2].stage is Hooks,
        has_failed(runs[i + 3]),
{
    let a = replies[i];
    let b = replies[i + 1];
    let c = replies[i + 2];
    assert(runs[i].heard =~= Seq::empty());
    assert(Seq::<Reply>::empty().push(a) =~= seq![a]);
    assert(seq![a].push(b) =~= seq![a, b]);
    assert(seq![a, b].push(c) =~= seq![a, b, c]);
    assert(hooks::attempt(a) == hooks::attempt(b) && hooks::attempt(a) == hooks::attempt(c));
    lemma_alike(job.path(), a, b, c);
    create_laws::lemma_history(job, runs, replies, i);
    create_laws::lemma_history(job, runs, replies, i + 1);
    create_laws::lemma_history(job, runs, replies, i + 2);
    assert(create::hears(job, runs[i], a, runs[i + 1]));
    let next = i + 1;
    assert(!(runs[next].stage is Finished) && create::hears(job, runs[next], b, runs[next + 1]));
    let last = i + 2;
    assert(!(runs[last].stage is Finished) && create::hears(job, runs[last], c, runs[last + 1]));
    lemma_hooks_fail_alike(job, runs[i], runs[i + 1], runs[i + 2], runs[i + 3], a, b, c);
}

#[verifier::opaque]
spec fn hooks_turn(path: Seq<char>, heard: Seq<Reply>) -> Turn<Result<(), Seq<char>>> {
    hooks::run_pre_commit_with_retry_turn(path, 2, heard)
}

proof fn lemma_hooks_fail_alike(
    job: Job,
    run0: Run,
    run1: Run,
    run2: Run,
    run3: Run,
    a: Reply,
    b: Reply,
    c: Reply,
)
    requires
        create_laws::lawful(job, run0),
        create_laws::lawful(job, run1),
        create_laws::lawful(job, run2),
        create::waits(job, run0),
        create::waits(job, run1),
        create::waits(job, run2),
        create::hears(job, run0, a, run1),
        create::hears(job, run1, b, run2),
        create::hears(job, run2, c, run3),
        run0.stage is Hooks,
        run0.heard == Seq::<Reply>::empty(),
        hooks_turn(job.path(), Seq::empty().push(a)) is Ask,
        hooks_turn(job.path(), Seq::empty().push(a).push(b)) is Ask,
        requests::fails(hooks_turn(job.path(), Seq::empty().push(a).push(b).push(c))),
    ensures
        run1.stage is Hooks,
        run2.stage is Hooks,
        has_failed(run3),
{
    lemma_hooks_go_on(job, run0, a, run1);
    lemma_hooks_go_on(job, run1, b, run2);
    lemma_hooks_go_on(job, run2, c, run3);
}

proof fn lemma_alike(path: Seq<char>, a: Reply, b: Reply, c: Reply)
    requires
        a is Ok,
        b is Ok,
        c is Ok,
        !requests::went_well(a),
        !requests::went_well(b),
        !requests::went_well(c),
        hooks::attempt(a) == hooks::attempt(b),
        hooks::attempt(a) == hooks::attempt(c),
    ensures
        hooks_turn(path, seq![a]) is Ask,
        hooks_turn(path, seq![a, b]) is Ask,
        requests::fails(hooks_turn(path, seq![a, b, c])),
{
    reveal(hooks_turn);
    reveal_with_fuel(hooks::retry_turn, 4);
    assert(seq![a].skip(1) =~= Seq::empty());
    assert(seq![a, b].skip(1) =~= seq![b]);
    assert(seq![b].skip(1) =~= Seq::empty());
    let all = seq![a, b, c];
    assert(all.skip(1) =~= seq![b, c]);
    assert(seq![b, c].skip(1) =~= seq![c]);
    assert forall|k: int| 0 <= k <= 2 implies hooks::failed(#[trigger] all[k]) && hooks::attempt(
        all[k],
    ) == hooks::attempt(all[0]) by {}
    hooks::law_identical_failures_end_the_runs(path, 2, all);
}

proof fn lemma_hooks_go_on(job: Job, now: Run, reply: Reply, next: Run)
    requires
        create_laws::lawful(job, now),
        create::waits(job, now),
        now.stage is Hooks,
        create::hears(job, now, reply, next),
    ensures
        hooks_turn(job.path(), now.heard.push(reply)) is Ask ==> next.stage is Hooks && next.heard == now.heard.push(reply),
        requests::fails(hooks_turn(job.path(), now.heard.push(reply))) ==> has_failed(next),
{
    let report = lemma_step(job, now, reply, next);
    reveal(create::pass);
    reveal(hooks_turn);
    let turn = hooks::run_pre_commit_with_retry_turn(job.path(), 2, now.heard.push(reply));
}

} // verus!
