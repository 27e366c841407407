//! Making a change in a repository, so that it can be undone.
//!
//! A run goes through its stages one by one. Each stage is a conversation with
//! the outside, and its end decides the next stage. A stage that changes
//! something leaves behind what undoes it. Where a stage fails, and after a dry
//! run, all that has been left behind is carried out, the latest first. A dry run
//! does not touch the remote.
//!
//! Where a change is a substitution, each file is written before the next is read.
use crate::command;
use crate::command::{Meaning, Reply, Request, Step, Turn, Wish};
use crate::git;
use crate::git::{
    branch_exists, checkout, checkout_branch, commit_all, current_branch, delete_local_branch,
    delete_remote_branch, get_head_branch, get_head_sha, has_modified_files, has_untracked_files,
    local_branch_commit, publish_branch, pull, remote_branch_commit, reset_commit, reset_hard,
    reset_to, restore_branch, restore_remote_branch, stage_all, stash_pop, stash_save,
    unpublish_branch,
};
use crate::github;
use crate::github::{close_pr, create_pr, get_pr_number_for_repo, reopen_pr};
use crate::hooks;
use crate::hooks::run_pre_commit_with_retry;
use crate::paths;
use crate::paths::joined_path;
use crate::repo;
use crate::repo::{update, Change, ChangeFacts, Content, ContentFacts, Repo, RepoFacts};
use crate::text;
use crate::text::{cat2, cat3, cat4, owned, same, starts_with};
use crate::transaction::Transaction;
use vstd::prelude::*;

verus! {

// ---------------------------------------------------------------------------
// What a run consists of
// ---------------------------------------------------------------------------

/// What undoes a stage.
#[derive(Debug)]
pub enum Undo {
    /// Bring back what was stashed.
    StashPop(String),
    /// Go back to a branch.
    Checkout(String),
    /// Bring the current branch back to the commit that it was at.
    ResetTo(String),
    /// Bring back a local branch that was deleted, at its commit.
    RestoreLocal(String, String),
    /// Bring back a branch of the remote that was deleted, at its commit.
    RestoreRemote(String, String),
    /// Delete the local branch that was made.
    DeleteLocal(String),
    /// Forget the changes to the files that git knows of.
    ResetHard,
    /// Let git know of the new files.
    StageAll,
    /// Take back the commit.
    ResetCommit,
    /// Delete the branch that was pushed.
    DeleteRemote(String),
    /// Reopen the pull request that was closed.
    ReopenPr(u64),
}

/// What an `Undo` says.
pub enum UndoFacts {
    StashPop(Seq<char>),
    Checkout(Seq<char>),
    ResetTo(Seq<char>),
    RestoreLocal(Seq<char>, Seq<char>),
    RestoreRemote(Seq<char>, Seq<char>),
    DeleteLocal(Seq<char>),
    ResetHard,
    StageAll,
    ResetCommit,
    DeleteRemote(Seq<char>),
    ReopenPr(u64),
}

impl View for Undo {
    type V = UndoFacts;

    open spec fn view(&self) -> UndoFacts {
        match self {
            Undo::StashPop(s) => UndoFacts::StashPop(s@),
            Undo::Checkout(b) => UndoFacts::Checkout(b@),
            Undo::ResetTo(c) => UndoFacts::ResetTo(c@),
            Undo::RestoreLocal(b, c) => UndoFacts::RestoreLocal(b@, c@),
            Undo::RestoreRemote(b, c) => UndoFacts::RestoreRemote(b@, c@),
            Undo::DeleteLocal(b) => UndoFacts::DeleteLocal(b@),
            Undo::ResetHard => UndoFacts::ResetHard,
            Undo::StageAll => UndoFacts::StageAll,
            Undo::ResetCommit => UndoFacts::ResetCommit,
            Undo::DeleteRemote(b) => UndoFacts::DeleteRemote(b@),
            Undo::ReopenPr(n) => UndoFacts::ReopenPr(*n),
        }
    }
}

/// What a run comes to: the report on the change, if there is one to be made, or
/// what went wrong.
pub type Outcome = Result<Option<String>, String>;

/// What a run comes to, as facts.
pub type OutcomeFacts = Result<Option<Seq<char>>, Seq<char>>;

/// Where a run stands.
#[derive(Debug)]
pub enum Stage {
    /// Reading the files, to see whether anything changes.
    Drafting,
    /// Looking for untracked files.
    Untracked,
    /// Looking for modified files.
    Modified,
    /// Stashing the modified files.
    Stashing,
    /// Finding the head branch.
    FindingHead,
    /// Finding the current branch.
    FindingBranch { head: String },
    /// Switching to the head branch.
    Switching { head: String, original: String },
    /// Finding the commit that the head branch is at.
    FindingBase,
    /// Pulling the latest changes.
    Pulling { base: String },
    /// Looking for a local branch of the same name.
    LocalCheck,
    /// Finding the commit that it is at.
    LocalCommit,
    /// Deleting it.
    LocalDelete { commit: String },
    /// Looking for a remote branch of the same name.
    RemoteCheck,
    /// Looking for an open pull request on it, which goes with it.
    FindingOldPr { commit: String },
    /// Deleting it.
    RemoteDelete { commit: String, number: u64 },
    /// Finding the branch to come back to.
    FindingOrigin,
    /// Checking out the new branch.
    Branching { origin: String },
    /// Reading the next file, to change it.
    Reading,
    /// Writing what the change makes of it.
    Rewriting { file: String, text: String },
    /// Adding or removing files.
    Applying { report: String, edits: Vec<Request> },
    /// Staging the changes, and new files with them.
    Staging { report: String },
    /// Running the hooks.
    Hooks { report: String },
    /// Committing.
    Committing { report: String },
    /// Pushing the branch.
    Pushing { report: String },
    /// Looking for an open pull request.
    FindingPr { report: String },
    /// Closing it.
    ClosingPr { report: String, number: u64 },
    /// Opening a new one.
    Opening { report: String },
    /// Undoing what has been done.
    RollingBack { outcome: Outcome },
    /// The end.
    Finished { outcome: Outcome },
}

/// What a `Stage` says.
#[verifier::ext_equal]
pub enum StageFacts {
    Drafting,
    Untracked,
    Modified,
    Stashing,
    FindingHead,
    FindingBranch { head: Seq<char> },
    Switching { head: Seq<char>, original: Seq<char> },
    FindingBase,
    Pulling { base: Seq<char> },
    LocalCheck,
    LocalCommit,
    LocalDelete { commit: Seq<char> },
    RemoteCheck,
    FindingOldPr { commit: Seq<char> },
    RemoteDelete { commit: Seq<char>, number: u64 },
    FindingOrigin,
    Branching { origin: Seq<char> },
    Reading,
    Rewriting { file: Seq<char>, text: Seq<char> },
    Applying { report: Seq<char>, edits: Seq<Wish> },
    Staging { report: Seq<char> },
    Hooks { report: Seq<char> },
    Committing { report: Seq<char> },
    Pushing { report: Seq<char> },
    FindingPr { report: Seq<char> },
    ClosingPr { report: Seq<char>, number: u64 },
    Opening { report: Seq<char> },
    RollingBack { outcome: OutcomeFacts },
    Finished { outcome: OutcomeFacts },
}

impl View for Stage {
    type V = StageFacts;

    open spec fn view(&self) -> StageFacts {
        match self {
            Stage::Drafting => StageFacts::Drafting,
            Stage::Untracked => StageFacts::Untracked,
            Stage::Modified => StageFacts::Modified,
            Stage::Stashing => StageFacts::Stashing,
            Stage::FindingHead => StageFacts::FindingHead,
            Stage::FindingBranch { head } => StageFacts::FindingBranch { head: head@ },
            Stage::Switching { head, original } => StageFacts::Switching {
                head: head@,
                original: original@,
            },
            Stage::FindingBase => StageFacts::FindingBase,
            Stage::Pulling { base } => StageFacts::Pulling { base: base@ },
            Stage::LocalCheck => StageFacts::LocalCheck,
            Stage::LocalCommit => StageFacts::LocalCommit,
            Stage::LocalDelete { commit } => StageFacts::LocalDelete { commit: commit@ },
            Stage::RemoteCheck => StageFacts::RemoteCheck,
            Stage::FindingOldPr { commit } => StageFacts::FindingOldPr { commit: commit@ },
            Stage::RemoteDelete { commit, number } => StageFacts::RemoteDelete {
                commit: commit@,
                number: *number,
            },
            Stage::FindingOrigin => StageFacts::FindingOrigin,
            Stage::Branching { origin } => StageFacts::Branching { origin: origin@ },
            Stage::Reading => StageFacts::Reading,
            Stage::Rewriting { file, text } => StageFacts::Rewriting { file: file@, text: text@ },
            Stage::Applying { report, edits } => StageFacts::Applying {
                report: report@,
                edits: repo::wishes(edits@),
            },
            Stage::Staging { report } => StageFacts::Staging { report: report@ },
            Stage::Hooks { report } => StageFacts::Hooks { report: report@ },
            Stage::Committing { report } => StageFacts::Committing { report: report@ },
            Stage::Pushing { report } => StageFacts::Pushing { report: report@ },
            Stage::FindingPr { report } => StageFacts::FindingPr { report: report@ },
            Stage::ClosingPr { report, number } => StageFacts::ClosingPr {
                report: report@,
                number: *number,
            },
            Stage::Opening { report } => StageFacts::Opening { report: report@ },
            Stage::RollingBack { outcome } => StageFacts::RollingBack {
                outcome: outcome.meaning(),
            },
            Stage::Finished { outcome } => StageFacts::Finished { outcome: outcome.meaning() },
        }
    }
}

/// What the end of a stage does to a run.
#[derive(Debug)]
pub enum Move {
    /// Nothing.
    Stay,
    /// It goes on with another stage.
    Go(Stage),
    /// Something has been done or is about to be, and this undoes it, the last of
    /// it first; it goes on with another stage.
    Did(Stage, Vec<Undo>),
    /// A file has been read, and holds this; it goes on with another stage.
    Keep(Stage, Content),
    /// It comes to an end, after what has been done is undone.
    End(Outcome),
    /// The latest of what has been done is undone.
    Undone,
    /// It comes to an end, and what has been done stays.
    Commit(Outcome),
}

/// What a `Move` says.
#[verifier::ext_equal]
pub enum MoveFacts {
    Stay,
    Go(StageFacts),
    Did(StageFacts, Seq<UndoFacts>),
    Keep(StageFacts, ContentFacts),
    End(OutcomeFacts),
    Undone,
    Commit(OutcomeFacts),
}

impl Meaning for Move {
    type Of = MoveFacts;

    open spec fn meaning(&self) -> MoveFacts {
        match self {
            Move::Stay => MoveFacts::Stay,
            Move::Go(stage) => MoveFacts::Go(stage@),
            Move::Did(stage, undo) => MoveFacts::Did(stage@, undos(undo@)),
            Move::Keep(stage, content) => MoveFacts::Keep(stage@, content.meaning()),
            Move::End(outcome) => MoveFacts::End(outcome.meaning()),
            Move::Undone => MoveFacts::Undone,
            Move::Commit(outcome) => MoveFacts::Commit(outcome.meaning()),
        }
    }
}

/// What a run is about.
#[verifier::ext_equal]
pub struct Job {
    pub repo: RepoFacts,
    pub root: Seq<char>,
    pub buffer: usize,
    pub commit_msg: Option<Seq<char>>,
    pub simplified: bool,
}

/// The branch for a change: its name always starts with "SLAM".
pub open spec fn branch_for(change_id: Seq<char>) -> Seq<char> {
    if text::begins_with(change_id, "SLAM"@) {
        change_id
    } else {
        "SLAM-"@ + change_id
    }
}

impl Job {
    /// Where the repository is.
    pub open spec fn path(self) -> Seq<char> {
        paths::join(self.root, self.repo.reposlug)
    }

    /// The branch for the change.
    pub open spec fn branch(self) -> Seq<char> {
        branch_for(self.repo.change_id)
    }

    /// The files to be read, as whole paths.
    pub open spec fn files(self) -> Seq<Seq<char>> {
        repo::files_to_read(self.repo).map_values(
            |file: Seq<char>| paths::join(self.path(), file),
        )
    }

    /// The report on the change, given what the files hold.
    pub open spec fn sections(self, contents: Seq<ContentFacts>) -> Seq<crate::report::Section> {
        repo::create_sections(self.repo, contents, self.buffer, self.simplified)
    }
}

/// A run: its stage, what undoes what has been done so far, the answers that were
/// heard in this stage, and what the files hold that have been read to be changed.
#[verifier::ext_equal]
pub struct Run {
    pub stage: StageFacts,
    pub undo: Seq<UndoFacts>,
    pub heard: Seq<Reply>,
    pub contents: Seq<ContentFacts>,
}

// ---------------------------------------------------------------------------
// The course of a run
// ---------------------------------------------------------------------------

/// What a file holds, by the answer to the request to read it.
pub open spec fn content_said(reply: Reply) -> ContentFacts {
    match reply {
        Ok(_) => Ok(command::said(reply)),
        Err(e) => Err(e@),
    }
}

/// What several files hold.
pub open spec fn contents_said(replies: Seq<Reply>) -> Seq<ContentFacts> {
    replies.map_values(|r: Reply| content_said(r))
}

/// A conversation with another result.
pub open spec fn giving<A, B>(turn: Turn<A>, f: spec_fn(A) -> B) -> Turn<B> {
    match turn {
        Turn::Ask(wish) => Turn::Ask(wish),
        Turn::Done(a, n) => Turn::Done(f(a), n),
    }
}

/// A conversation whose error ends the run.
pub open spec fn or_end<A>(
    turn: Turn<Result<A, Seq<char>>>,
    f: spec_fn(A) -> MoveFacts,
) -> Turn<MoveFacts> {
    giving(
        turn,
        |r: Result<A, Seq<char>>|
            match r {
                Ok(a) => f(a),
                Err(e) => MoveFacts::End(Err(e)),
            },
    )
}

/// The conversation that has one request after the other carried out.
pub open spec fn each<T>(wishes: Seq<Wish>, heard: Seq<Reply>, result: T) -> Turn<T> {
    if heard.len() < wishes.len() {
        Turn::Ask(wishes[heard.len() as int])
    } else {
        Turn::Done(result, heard.len())
    }
}

/// The requests to read files.
pub open spec fn reads(files: Seq<Seq<char>>) -> Seq<Wish> {
    files.map_values(|file: Seq<char>| Wish::Read(file))
}

/// The conversation that undoes something.
pub open spec fn undo_turn(job: Job, undo: UndoFacts, replies: Seq<Reply>) -> Turn<
    Result<(), Seq<char>>,
> {
    let path = job.path();
    match undo {
        UndoFacts::StashPop(stash_ref) => git::stash_pop_turn(path, stash_ref, replies),
        UndoFacts::Checkout(branch) => git::checkout_turn(path, branch, replies),
        UndoFacts::ResetTo(commit) => git::reset_to_turn(path, commit, replies),
        UndoFacts::RestoreLocal(branch, commit) => git::restore_branch_turn(
            path,
            branch,
            commit,
            replies,
        ),
        UndoFacts::RestoreRemote(branch, commit) => git::restore_remote_branch_turn(
            path,
            branch,
            commit,
            replies,
        ),
        UndoFacts::DeleteLocal(branch) => git::delete_local_branch_turn(path, branch, replies),
        UndoFacts::ResetHard => git::reset_hard_turn(path, replies),
        UndoFacts::StageAll => git::stage_all_turn(path, replies),
        UndoFacts::ResetCommit => git::reset_commit_turn(path, replies),
        UndoFacts::DeleteRemote(branch) => git::delete_remote_branch_turn(path, branch, replies),
        UndoFacts::ReopenPr(number) => github::reopen_turn(job.repo.reposlug, number, replies),
    }
}

/// The stage after the local branches are looked after. A dry run leaves the
/// remote alone.
pub open spec fn after_local(job: Job) -> StageFacts {
    if job.commit_msg is Some {
        StageFacts::RemoteCheck
    } else {
        StageFacts::FindingOrigin
    }
}

/// What a file becomes right after it has been read, if it becomes something else.
pub open spec fn rewritten(job: Job, content: ContentFacts) -> Option<Seq<char>> {
    match (job.repo.change, content) {
        (Some(change), Ok(old)) => repo::updated(change, old),
        _ => None,
    }
}

/// The stage after a file has been read: a substitution is written at once, before
/// the next file is read.
pub open spec fn after_read(job: Job, file: Seq<char>, content: ContentFacts) -> StageFacts {
    match rewritten(job, content) {
        Some(text) => StageFacts::Rewriting { file, text },
        None => StageFacts::Reading,
    }
}

/// Whether a change is made to each file right after it has been read.
pub open spec fn rewrites(change: Option<ChangeFacts>) -> bool {
    change matches Some(c) && (c is Sub || c is Regex)
}

/// What is to be done once all files have been read.
pub open spec fn late_edits(job: Job, contents: Seq<ContentFacts>) -> Seq<Wish> {
    if rewrites(job.repo.change) {
        Seq::empty()
    } else {
        repo::create_edits(job.repo, job.root, contents)
    }
}

/// The conversation that reads the next file, or goes on once all have been read.
pub open spec fn reading_turn(
    job: Job,
    contents: Seq<ContentFacts>,
    heard: Seq<Reply>,
    report: Seq<char>,
) -> Turn<MoveFacts> {
    if contents.len() < job.files().len() {
        let file = job.files()[contents.len() as int];
        command::once(
            Wish::Read(file),
            heard,
            |r: Reply| MoveFacts::Keep(after_read(job, file, content_said(r)), content_said(r)),
        )
    } else {
        Turn::Done(
            MoveFacts::Go(StageFacts::Applying { report, edits: late_edits(job, contents) }),
            0,
        )
    }
}

/// What undoes the deletion of a branch of the remote. A pull request on it is
/// closed along with it; it can be reopened once the branch is there again.
pub open spec fn restoring_remote(branch: Seq<char>, commit: Seq<char>, number: u64) -> Seq<
    UndoFacts,
> {
    if number != 0 {
        seq![UndoFacts::ReopenPr(number), UndoFacts::RestoreRemote(branch, commit)]
    } else {
        seq![UndoFacts::RestoreRemote(branch, commit)]
    }
}

/// What undoes a new branch and all changes to the files on it, those of the hooks
/// among them.
pub open spec fn branch_undone(branch: Seq<char>, origin: Seq<char>) -> Seq<UndoFacts> {
    seq![
        UndoFacts::DeleteLocal(branch),
        UndoFacts::Checkout(origin),
        UndoFacts::ResetHard,
        UndoFacts::StageAll,
    ]
}

/// The conversation of the stage that a run is in, and what its end does to the
/// run. `report` is the report on the change, as it is shown, where this stage
/// draws it up.
pub open spec fn talk(job: Job, run: Run, report: Seq<char>) -> Turn<MoveFacts> {
    let path = job.path();
    let branch = job.branch();
    let heard = run.heard;
    match run.stage {
        StageFacts::Drafting => each(
            reads(job.files()),
            heard,
            if job.sections(contents_said(heard)).len() == 0 {
                MoveFacts::End(Ok(None))
            } else {
                MoveFacts::Go(StageFacts::Untracked)
            },
        ),
        StageFacts::Untracked => or_end(
            git::has_untracked_files_turn(path, heard),
            |untracked: bool|
                if untracked {
                    MoveFacts::End(
                        Err("Untracked files exist in '"@ + path + "'. Aborting."@),
                    )
                } else {
                    MoveFacts::Go(StageFacts::Modified)
                },
        ),
        StageFacts::Modified => or_end(
            git::has_modified_files_turn(path, heard),
            |modified: bool|
                if modified {
                    MoveFacts::Go(StageFacts::Stashing)
                } else {
                    MoveFacts::Go(StageFacts::FindingHead)
                },
        ),
        StageFacts::Stashing => or_end(
            git::stash_save_turn(path, heard),
            |stash_ref: Seq<char>|
                MoveFacts::Did(StageFacts::FindingHead, seq![UndoFacts::StashPop(stash_ref)]),
        ),
        StageFacts::FindingHead => or_end(
            git::get_head_branch_turn(path, heard),
            |head: Seq<char>| MoveFacts::Go(StageFacts::FindingBranch { head }),
        ),
        StageFacts::FindingBranch { head } => or_end(
            git::current_branch_turn(path, heard),
            |original: Seq<char>|
                if original != head {
                    MoveFacts::Go(StageFacts::Switching { head, original })
                } else {
                    MoveFacts::Go(StageFacts::FindingBase)
                },
        ),
        StageFacts::Switching { head, original } => or_end(
            git::checkout_turn(path, head, heard),
            |done: ()|
                MoveFacts::Did(StageFacts::FindingBase, seq![UndoFacts::Checkout(original)]),
        ),
        StageFacts::FindingBase => or_end(
            git::get_head_sha_turn(path, heard),
            |base: Seq<char>| MoveFacts::Go(StageFacts::Pulling { base }),
        ),
        StageFacts::Pulling { base } => or_end(
            git::pull_turn(path, heard),
            |done: ()| MoveFacts::Did(StageFacts::LocalCheck, seq![UndoFacts::ResetTo(base)]),
        ),
        StageFacts::LocalCheck => or_end(
            git::branch_exists_turn(path, branch, heard),
            |there: bool|
                if there {
                    MoveFacts::Go(StageFacts::LocalCommit)
                } else {
                    MoveFacts::Go(after_local(job))
                },
        ),
        StageFacts::LocalCommit => or_end(
            git::local_branch_commit_turn(path, branch, heard),
            |commit: Seq<char>| MoveFacts::Go(StageFacts::LocalDelete { commit }),
        ),
        StageFacts::LocalDelete { commit } => or_end(
            git::delete_local_branch_turn(path, branch, heard),
            |done: ()|
                MoveFacts::Did(after_local(job), seq![UndoFacts::RestoreLocal(branch, commit)]),
        ),
        StageFacts::RemoteCheck => or_end(
            git::remote_branch_commit_turn(path, branch, heard),
            |there: Option<Seq<char>>|
                match there {
                    Some(commit) => MoveFacts::Go(StageFacts::FindingOldPr { commit }),
                    None => MoveFacts::Go(StageFacts::FindingOrigin),
                },
        ),
        StageFacts::FindingOldPr { commit } => or_end(
            github::get_pr_number_for_repo_turn(job.repo.reposlug, branch, heard),
            |number: u64| MoveFacts::Go(StageFacts::RemoteDelete { commit, number }),
        ),
        StageFacts::RemoteDelete { commit, number } => or_end(
            git::unpublish_branch_turn(path, branch, heard),
            |done: ()|
                MoveFacts::Did(
                    StageFacts::FindingOrigin,
                    restoring_remote(branch, commit, number),
                ),
        ),
        StageFacts::FindingOrigin => or_end(
            git::current_branch_turn(path, heard),
            |origin: Seq<char>| MoveFacts::Go(StageFacts::Branching { origin }),
        ),
        StageFacts::Branching { origin } => or_end(
            git::checkout_branch_turn(path, branch, heard),
            |done: ()|
                MoveFacts::Did(
                    StageFacts::Reading,
                    branch_undone(branch, origin),
                ),
        ),
        StageFacts::Reading => reading_turn(job, run.contents, heard, report),
        StageFacts::Rewriting { file, text } => command::once(
            Wish::Write(file, text),
            heard,
            |r: Reply| MoveFacts::Go(StageFacts::Reading),
        ),
        StageFacts::Applying { report, edits } => each(
            edits,
            heard,
            MoveFacts::Go(StageFacts::Staging { report }),
        ),
        StageFacts::Staging { report } => or_end(
            git::stage_all_turn(path, heard),
            |done: ()| MoveFacts::Go(StageFacts::Hooks { report }),
        ),
        StageFacts::Hooks { report } => or_end(
            hooks::run_pre_commit_with_retry_turn(path, 2, heard),
            |done: ()|
                match job.commit_msg {
                    Some(_) => MoveFacts::Go(StageFacts::Committing { report }),
                    None => MoveFacts::End(Ok(Some(report))),
                },
        ),
        StageFacts::Committing { report } => or_end(
            git::commit_all_turn(path, message(job), heard),
            |done: ()|
                MoveFacts::Did(StageFacts::Pushing { report }, seq![UndoFacts::ResetCommit]),
        ),
        StageFacts::Pushing { report } => or_end(
            git::publish_branch_turn(path, branch, heard),
            |done: ()|
                MoveFacts::Did(
                    StageFacts::FindingPr { report },
                    seq![UndoFacts::DeleteRemote(branch)],
                ),
        ),
        StageFacts::FindingPr { report } => or_end(
            github::get_pr_number_for_repo_turn(job.repo.reposlug, branch, heard),
            |number: u64|
                if number != 0 {
                    MoveFacts::Go(StageFacts::ClosingPr { report, number })
                } else {
                    MoveFacts::Go(StageFacts::Opening { report })
                },
        ),
        StageFacts::ClosingPr { report, number } => or_end(
            github::close_pr_turn(job.repo.reposlug, number, heard),
            |done: ()|
                MoveFacts::Did(StageFacts::Opening { report }, seq![UndoFacts::ReopenPr(number)]),
        ),
        StageFacts::Opening { report } => giving(
            github::create_pr_turn(path, branch, message(job), heard),
            |url: Option<Seq<char>>|
                match url {
                    Some(_) => MoveFacts::Commit(Ok(Some(report))),
                    None => MoveFacts::End(
                        Err("Failed to create PR for repo '"@ + job.repo.reposlug + "'"@),
                    ),
                },
        ),
        StageFacts::RollingBack { .. } => giving(
            undo_turn(job, run.undo.last(), heard),
            |done: Result<(), Seq<char>>| MoveFacts::Undone,
        ),
        StageFacts::Finished { .. } => Turn::Done(MoveFacts::Stay, 0),
    }
}

/// What is said of the answer to the request that a run waits for. A run goes on
/// where a file could not be changed. It says so where that file is a new one.
pub open spec fn complaint(job: Job, run: Run, reply: Reply) -> Option<Seq<char>> {
    match (job.repo.change, talk(job, run, Seq::empty()), reply) {
        (Some(ChangeFacts::Add(file, _)), Turn::Ask(Wish::MakeDirs(_)), Err(e)) => Some(
            "failed to create directories for "@ + paths::join(job.path(), file) + ": "@ + e@,
        ),
        (Some(ChangeFacts::Add(file, _)), Turn::Ask(Wish::Write(_, _)), Err(e)) => Some(
            "failed to write "@ + paths::join(job.path(), file) + ": "@ + e@,
        ),
        _ => None,
    }
}

/// The message to commit with.
pub open spec fn message(job: Job) -> Seq<char> {
    match job.commit_msg {
        Some(m) => m,
        None => Seq::empty(),
    }
}

/// The stage of a run that undoes what is left to be undone, and then ends.
pub open spec fn ending(undo: Seq<UndoFacts>, outcome: OutcomeFacts) -> StageFacts {
    if undo.len() == 0 {
        StageFacts::Finished { outcome }
    } else {
        StageFacts::RollingBack { outcome }
    }
}

/// What a run comes to, once it has come to an end.
pub open spec fn outcome_of(stage: StageFacts) -> OutcomeFacts {
    match stage {
        StageFacts::RollingBack { outcome } => outcome,
        StageFacts::Finished { outcome } => outcome,
        _ => Ok(None),
    }
}

/// A run after the end of a stage.
pub open spec fn moved(run: Run, m: MoveFacts) -> Run {
    let none = Seq::<Reply>::empty();
    match m {
        MoveFacts::Stay => run,
        MoveFacts::Go(stage) => Run { stage, heard: none, ..run },
        MoveFacts::Did(stage, undo) => Run { stage, undo: run.undo + undo, heard: none, ..run },
        MoveFacts::Keep(stage, content) => Run {
            stage,
            heard: none,
            contents: run.contents.push(content),
            ..run
        },
        MoveFacts::End(outcome) => Run { stage: ending(run.undo, outcome), heard: none, ..run },
        MoveFacts::Undone => Run {
            stage: ending(run.undo.drop_last(), outcome_of(run.stage)),
            undo: run.undo.drop_last(),
            heard: none,
            ..run
        },
        MoveFacts::Commit(outcome) => Run {
            stage: StageFacts::Finished { outcome },
            undo: Seq::empty(),
            heard: none,
            ..run
        },
    }
}

/// A run, with its stage left behind if that has come to its end.
#[verifier::opaque]
pub open spec fn pass(job: Job, run: Run, report: Seq<char>) -> Run {
    match talk(job, run, report) {
        Turn::Ask(_) => run,
        Turn::Done(m, _) => moved(run, m),
    }
}

/// A run, with all stages left behind that have come to their end. No more than
/// three do so at once.
pub open spec fn settled(job: Job, run: Run, report: Seq<char>) -> Run {
    pass(job, pass(job, pass(job, run, report), report), report)
}

// ---------------------------------------------------------------------------
// Runs that can be carried out
// ---------------------------------------------------------------------------

/// A run that is being carried out.
pub struct CreateRun {
    pub repo: Repo,
    pub root: String,
    pub path: String,
    pub branch: String,
    pub buffer: usize,
    pub commit_msg: Option<String>,
    pub simplified: bool,
    pub stage: Stage,
    pub undo: Transaction<Undo>,
    pub heard: Vec<Reply>,
    pub contents: Vec<Content>,
}

/// What several `Undo`s say.
pub open spec fn undos(v: Seq<Undo>) -> Seq<UndoFacts> {
    v.map_values(|u: Undo| u@)
}

/// Whether a run waits for an answer, or has come to its end.
pub open spec fn waits(job: Job, run: Run) -> bool {
    run.stage is Finished || talk(job, run, Seq::empty()) is Ask
}

/// Whether what is left to be undone fits the stage.
pub open spec fn consistent(run: Run) -> bool {
    &&& run.stage is RollingBack ==> run.undo.len() > 0
    &&& run.stage is Finished ==> run.undo.len() == 0
}

/// Whether no more files have been read than there are.
pub open spec fn contents_fit(job: Job, run: Run) -> bool {
    run.contents.len() <= job.files().len()
}

/// Whether `report` is the report that a run draws up once its files are read.
pub open spec fn reports(job: Job, contents: Seq<ContentFacts>, report: Seq<char>) -> bool {
    repo::is_report(report, job.repo.reposlug, job.sections(contents))
}

/// Whether all files have been read that are to be changed, so that the report is
/// due.
pub open spec fn report_due(job: Job, run: Run) -> bool {
    run.stage is Reading && run.contents.len() >= job.files().len()
}

proof fn lemma_report_is_irrelevant(job: Job, run: Run, a: Seq<char>, b: Seq<char>)
    ensures
        talk(job, run, a) is Ask <==> talk(job, run, b) is Ask,
        talk(job, run, a) is Ask ==> talk(job, run, a) == talk(job, run, b),
        !report_due(job, run) ==> talk(job, run, a) == talk(job, run, b),
{
}

/// A stage that has just begun asks for something, unless there is nothing to
/// read or to change.
pub proof fn lemma_new_stage(job: Job, run: Run, report: Seq<char>)
    requires
        run.heard.len() == 0,
        consistent(run),
        !(run.stage is Drafting),
        !(run.stage is Reading),
        !(run.stage is Applying),
        !(run.stage is Finished),
    ensures
        talk(job, run, report) is Ask,
{
    reveal_with_fuel(hooks::retry_turn, 2);
}

/// Where a run can go from a stage that has come to its end.
pub proof fn lemma_pass(job: Job, run: Run, report: Seq<char>)
    requires
        consistent(run),
        !(run.stage is Finished),
        talk(job, run, report) is Done,
    ensures
        consistent(pass(job, run, report)),
        pass(job, run, report).heard.len() == 0,
        !(pass(job, run, report).stage is Drafting),
        pass(job, run, report).stage is Reading ==> run.stage is Branching
            || run.stage is Rewriting || (run.stage is Reading && !report_due(job, run)
            && run.heard.len() > 0),
        pass(job, run, report).stage is Applying ==> report_due(job, run),
        report_due(job, run) ==> pass(job, run, report).stage is Applying,
        contents_fit(job, run) ==> contents_fit(job, pass(job, run, report)),
{
    reveal(pass);
}

pub proof fn lemma_settled(job: Job, run: Run, report: Seq<char>)
    requires
        consistent(run),
        !(run.stage is Finished),
    ensures
        consistent(settled(job, run, report)),
        waits(job, settled(job, run, report)),
{
    reveal(pass);
    let r1 = pass(job, run, report);
    let r2 = pass(job, r1, report);
    let r3 = pass(job, r2, report);
    lemma_report_is_irrelevant(job, run, report, Seq::empty());
    lemma_report_is_irrelevant(job, r1, report, Seq::empty());
    lemma_report_is_irrelevant(job, r2, report, Seq::empty());
    lemma_report_is_irrelevant(job, r3, report, Seq::empty());
    if talk(job, run, report) is Done {
        lemma_pass(job, run, report);
        if !(r1.stage is Reading) && !(r1.stage is Applying) && !(r1.stage is Finished) {
            lemma_new_stage(job, r1, report);
        } else if !(r1.stage is Finished) && talk(job, r1, report) is Done {
            lemma_pass(job, r1, report);
            assert(r1.stage is Reading ==> report_due(job, r1));
            if !(r2.stage is Reading) && !(r2.stage is Applying) && !(r2.stage is Finished) {
                lemma_new_stage(job, r2, report);
            } else if !(r2.stage is Finished) && talk(job, r2, report) is Done {
                lemma_pass(job, r2, report);
                if !(r3.stage is Finished) {
                    lemma_new_stage(job, r3, report);
                }
            }
        }
    }
}

/// What a file holds, by the answer to the request to read it.
fn content_of(reply: &Reply) -> (r: Content)
    ensures
        r.meaning() == content_said(*reply),
{
    match reply {
        Ok(out) => Ok(out.out_text()),
        Err(e) => Err(owned(e)),
    }
}

/// What several files hold.
fn contents_of(replies: &Vec<Reply>) -> (r: Vec<Content>)
    ensures
        repo::contents_facts(r@) == contents_said(replies@),
        r@.len() == replies@.len(),
{
    let mut r: Vec<Content> = Vec::new();
    let mut i: usize = 0;
    while i < replies.len()
        invariant
            i <= replies@.len(),
            r@.len() == i,
            forall|k: int| 0 <= k < i ==> (#[trigger] r@[k]).meaning() == content_said(replies@[k]),
        decreases replies@.len() - i,
    {
        r.push(content_of(&replies[i]));
        i += 1;
    }
    assert(repo::contents_facts(r@) =~= contents_said(replies@));
    r
}

/// What the end of a stage does where it leaves one thing to be undone.
fn did(stage: Stage, undo: Undo) -> (r: Move)
    ensures
        r.meaning() == MoveFacts::Did(stage@, seq![undo@]),
{
    let r = Move::Did(stage, vec![undo]);
    assert(r.meaning() =~= MoveFacts::Did(stage@, seq![undo@]));
    r
}

/// What the end of a stage does where it leaves two things to be undone, the
/// second before the first.
fn did_both(stage: Stage, first: Undo, second: Undo) -> (r: Move)
    ensures
        r.meaning() == MoveFacts::Did(stage@, seq![first@, second@]),
{
    let r = Move::Did(stage, vec![first, second]);
    assert(r.meaning() =~= MoveFacts::Did(stage@, seq![first@, second@]));
    r
}

/// What a new branch does to a run.
fn did_branch(branch: String, origin: String) -> (r: Move)
    ensures
        r.meaning() == MoveFacts::Did(StageFacts::Reading, branch_undone(branch@, origin@)),
{
    let r = Move::Did(
        Stage::Reading,
        vec![
            Undo::DeleteLocal(branch),
            Undo::Checkout(origin),
            Undo::ResetHard,
            Undo::StageAll,
        ],
    );
    assert(r.meaning() =~= MoveFacts::Did(StageFacts::Reading, branch_undone(branch@, origin@)));
    r
}

/// A stage that ends well or ends the run.
fn when_done(step: Step<Result<(), String>>, next: Move) -> (r: Step<Move>)
    ensures
        r.meaning() == or_end(step.meaning(), |done: ()| next.meaning()),
{
    match step {
        Step::Ask(r) => Step::Ask(r),
        Step::Done(Ok(_), n) => Step::Done(next, n),
        Step::Done(Err(e), n) => Step::Done(Move::End(Err(e)), n),
    }
}

/// A stage that decides between two others, or ends the run.
fn when_told(step: Step<Result<bool, String>>, yes: Move, no: Move) -> (r: Step<Move>)
    ensures
        r.meaning() == or_end(
            step.meaning(),
            |answer: bool|
                if answer {
                    yes.meaning()
                } else {
                    no.meaning()
                },
        ),
{
    match step {
        Step::Ask(r) => Step::Ask(r),
        Step::Done(Ok(answer), n) => Step::Done(
            if answer {
                yes
            } else {
                no
            },
            n,
        ),
        Step::Done(Err(e), n) => Step::Done(Move::End(Err(e)), n),
    }
}

/// Undoes something.
fn undo_it(path: &str, reposlug: &str, undo: &Undo, replies: &[Reply]) -> (step: Step<
    Result<(), String>,
>)
    ensures
        forall|job: Job|
            job.path() == path@ && job.repo.reposlug == reposlug@ ==> step.meaning()
                == #[trigger] undo_turn(job, undo@, replies@),
{
    match undo {
        Undo::StashPop(stash_ref) => stash_pop(path, stash_ref, replies),
        Undo::Checkout(branch) => checkout(path, branch, replies),
        Undo::ResetTo(commit) => reset_to(path, commit, replies),
        Undo::RestoreLocal(branch, commit) => restore_branch(path, branch, commit, replies),
        Undo::RestoreRemote(branch, commit) => restore_remote_branch(path, branch, commit, replies),
        Undo::DeleteLocal(branch) => delete_local_branch(path, branch, replies),
        Undo::ResetHard => reset_hard(path, replies),
        Undo::StageAll => stage_all(path, replies),
        Undo::ResetCommit => reset_commit(path, replies),
        Undo::DeleteRemote(branch) => delete_remote_branch(path, branch, replies),
        Undo::ReopenPr(number) => reopen_pr(reposlug, *number, replies),
    }
}

impl CreateRun {
    /// What this run is about.
    pub open spec fn job(self) -> Job {
        Job {
            repo: self.repo@,
            root: self.root@,
            buffer: self.buffer,
            commit_msg: command::text_in(self.commit_msg),
            simplified: self.simplified,
        }
    }

    /// Where this run stands.
    pub open spec fn run(self) -> Run {
        Run {
            stage: self.stage@,
            undo: undos(self.undo.rollsbacks@),
            heard: self.heard@,
            contents: repo::contents_facts(self.contents@),
        }
    }

    /// What never changes in a run.
    pub open spec fn set_up(self) -> bool {
        &&& self.path@ == self.job().path()
        &&& self.branch@ == self.job().branch()
        &&& repo::needs_context(self.repo@.change, self.simplified) ==> 2 * self.buffer
            <= usize::MAX
    }

    /// The run can be carried on: it is set up, waits for an answer or has come
    /// to its end, and knows what is left to be undone.
    pub open spec fn wf(self) -> bool {
        &&& self.set_up()
        &&& consistent(self.run())
        &&& contents_fit(self.job(), self.run())
        &&& waits(self.job(), self.run())
    }

    /// The file that comes after the first `done`, if there is one.
    fn file_after(&self, done: usize) -> (r: Option<String>)
        requires
            self.set_up(),
        ensures
            r is Some <==> done < self.job().files().len(),
            r matches Some(file) ==> file@ == self.job().files()[done as int],
    {
        let files = self.repo.files_to_read(&self.root);
        assert(text::views(files@) =~= self.job().files());
        assert(text::views(files@).len() == files@.len());
        if done < files.len() {
            assert(self.job().files()[done as int] == files@[done as int]@);
            Some(owned(&files[done]))
        } else {
            None
        }
    }

    /// The stage after a file has been read.
    fn after_read(&self, file: String, content: &Content) -> (r: Stage)
        ensures
            r@ == after_read(self.job(), file@, content.meaning()),
    {
        match (&self.repo.change, content) {
            (Some(change), Ok(old)) => match update(change, old) {
                Some(text) => Stage::Rewriting { file, text },
                None => Stage::Reading,
            },
            _ => Stage::Reading,
        }
    }

    /// Whether the change is made to each file right after it has been read.
    fn rewrites(&self) -> (r: bool)
        ensures
            r == rewrites(self.job().repo.change),
    {
        match &self.repo.change {
            Some(Change::Sub(_, _)) => true,
            Some(Change::Regex(_, _)) => true,
            _ => false,
        }
    }

    /// The stage after the local branches are looked after.
    fn after_local(&self) -> (r: Stage)
        ensures
            r@ == after_local(self.job()),
    {
        match &self.commit_msg {
            Some(_) => Stage::RemoteCheck,
            None => Stage::FindingOrigin,
        }
    }

    /// The message to commit with.
    fn message(&self) -> (r: String)
        ensures
            r@ == message(self.job()),
    {
        match &self.commit_msg {
            Some(m) => owned(m),
            None => {
                let r = String::new();
                assert(r@ =~= Seq::empty());
                r
            },
        }
    }

    /// The conversation of the current stage, and the report where it draws one
    /// up.
    fn talk(&self) -> (r: (Step<Move>, Ghost<Seq<char>>))
        requires
            self.set_up(),
            consistent(self.run()),
            contents_fit(self.job(), self.run()),
            self.stage is Drafting ==> self.heard@.len() <= self.job().files().len(),
        ensures
            r.0.meaning() == talk(self.job(), self.run(), r.1@),
            drawn(self.job(), self.run(), r.1@),
    {
        let path = self.path.as_str();
        let branch = self.branch.as_str();
        let heard = self.heard.as_slice();
        let ghost job = self.job();
        let ghost run = self.run();
        let step: Step<Move> = match &self.stage {
            Stage::Drafting => match self.file_after(self.heard.len()) {
                Some(file) => Step::Ask(Request::Read(file)),
                None => {
                    let contents = contents_of(&self.heard);
                    let (report, _) = self.repo.create_diff(
                        &self.root,
                        self.buffer,
                        false,
                        self.simplified,
                        &contents,
                    );
                    let n = self.heard.len();
                    proof {
                        repo::lemma_report_is_empty(
                            report@,
                            job.repo.reposlug,
                            job.sections(contents_said(run.heard)),
                        );
                    }
                    if report.as_str().is_empty() {
                        Step::Done(Move::End(Ok(None)), n)
                    } else {
                        Step::Done(Move::Go(Stage::Untracked), n)
                    }
                },
            },
            Stage::Untracked => when_told(
                has_untracked_files(path, heard),
                Move::End(Err(cat3("Untracked files exist in '", path, "'. Aborting."))),
                Move::Go(Stage::Modified),
            ),
            Stage::Modified => when_told(
                has_modified_files(path, heard),
                Move::Go(Stage::Stashing),
                Move::Go(Stage::FindingHead),
            ),
            Stage::Stashing => match stash_save(path, heard) {
                Step::Ask(r) => Step::Ask(r),
                Step::Done(Ok(stash_ref), n) => Step::Done(
                    did(Stage::FindingHead, Undo::StashPop(stash_ref)),
                    n,
                ),
                Step::Done(Err(e), n) => Step::Done(Move::End(Err(e)), n),
            },
            Stage::FindingHead => match get_head_branch(path, heard) {
                Step::Ask(r) => Step::Ask(r),
                Step::Done(Ok(head), n) => Step::Done(Move::Go(Stage::FindingBranch { head }), n),
                Step::Done(Err(e), n) => Step::Done(Move::End(Err(e)), n),
            },
            Stage::FindingBranch { head } => match current_branch(path, heard) {
                Step::Ask(r) => Step::Ask(r),
                Step::Done(Ok(original), n) => Step::Done(
                    if same(&original, head) {
                        Move::Go(Stage::FindingBase)
                    } else {
                        Move::Go(Stage::Switching { head: owned(head), original })
                    },
                    n,
                ),
                Step::Done(Err(e), n) => Step::Done(Move::End(Err(e)), n),
            },
            Stage::Switching { head, original } => when_done(
                checkout(path, head, heard),
                did(Stage::FindingBase, Undo::Checkout(owned(original))),
            ),
            Stage::FindingBase => match get_head_sha(path, heard) {
                Step::Ask(r) => Step::Ask(r),
                Step::Done(Ok(base), n) => Step::Done(Move::Go(Stage::Pulling { base }), n),
                Step::Done(Err(e), n) => Step::Done(Move::End(Err(e)), n),
            },
            Stage::Pulling { base } => when_done(
                pull(path, heard),
                did(Stage::LocalCheck, Undo::ResetTo(owned(base))),
            ),
            Stage::LocalCheck => when_told(
                branch_exists(path, branch, heard),
                Move::Go(Stage::LocalCommit),
                Move::Go(self.after_local()),
            ),
            Stage::LocalCommit => match local_branch_commit(path, branch, heard) {
                Step::Ask(r) => Step::Ask(r),
                Step::Done(Ok(commit), n) => Step::Done(Move::Go(Stage::LocalDelete { commit }), n),
                Step::Done(Err(e), n) => Step::Done(Move::End(Err(e)), n),
            },
            Stage::LocalDelete { commit } => when_done(
                delete_local_branch(path, branch, heard),
                did(self.after_local(), Undo::RestoreLocal(owned(branch), owned(commit))),
            ),
            Stage::RemoteCheck => match remote_branch_commit(path, branch, heard) {
                Step::Ask(r) => Step::Ask(r),
                Step::Done(Ok(Some(commit)), n) => Step::Done(
                    Move::Go(Stage::FindingOldPr { commit }),
                    n,
                ),
                Step::Done(Ok(None), n) => Step::Done(Move::Go(Stage::FindingOrigin), n),
                Step::Done(Err(e), n) => Step::Done(Move::End(Err(e)), n),
            },
            Stage::FindingOldPr { commit } => match get_pr_number_for_repo(
                &self.repo.reposlug,
                branch,
                heard,
            ) {
                Step::Ask(r) => Step::Ask(r),
                Step::Done(Ok(number), n) => Step::Done(
                    Move::Go(Stage::RemoteDelete { commit: owned(commit), number }),
                    n,
                ),
                Step::Done(Err(e), n) => Step::Done(Move::End(Err(e)), n),
            },
            Stage::RemoteDelete { commit, number } => {
                let restore = Undo::RestoreRemote(owned(branch), owned(commit));
                when_done(
                    unpublish_branch(path, branch, heard),
                    if *number != 0 {
                        did_both(Stage::FindingOrigin, Undo::ReopenPr(*number), restore)
                    } else {
                        did(Stage::FindingOrigin, restore)
                    },
                )
            },
            Stage::FindingOrigin => match current_branch(path, heard) {
                Step::Ask(r) => Step::Ask(r),
                Step::Done(Ok(origin), n) => Step::Done(Move::Go(Stage::Branching { origin }), n),
                Step::Done(Err(e), n) => Step::Done(Move::End(Err(e)), n),
            },
            Stage::Branching { origin } => when_done(
                checkout_branch(path, branch, heard),
                did_branch(owned(branch), owned(origin)),
            ),
            Stage::Reading => match self.file_after(self.contents.len()) {
                Some(file) => if self.heard.len() == 0 {
                    Step::Ask(Request::Read(file))
                } else {
                    let content = content_of(&self.heard[0]);
                    let stage = self.after_read(file, &content);
                    Step::Done(Move::Keep(stage, content), 1)
                },
                None => {
                    let (report, edits) = self.repo.create_diff(
                        &self.root,
                        self.buffer,
                        !self.rewrites(),
                        self.simplified,
                        &self.contents,
                    );
                    let ghost shown = report@;
                    let step = Step::Done(Move::Go(Stage::Applying { report, edits }), 0);
                    return (step, Ghost(shown));
                },
            },
            Stage::Rewriting { file, text } => if self.heard.len() == 0 {
                Step::Ask(Request::Write(owned(file), owned(text)))
            } else {
                Step::Done(Move::Go(Stage::Reading), 1)
            },
            Stage::Applying { report, edits } => {
                let i = self.heard.len();
                if i < edits.len() {
                    Step::Ask(edits[i].copy())
                } else {
                    Step::Done(Move::Go(Stage::Staging { report: owned(report) }), i)
                }
            },
            Stage::Staging { report } => when_done(
                stage_all(path, heard),
                Move::Go(Stage::Hooks { report: owned(report) }),
            ),
            Stage::Hooks { report } => when_done(
                run_pre_commit_with_retry(path, 2, heard),
                match &self.commit_msg {
                    Some(_) => Move::Go(Stage::Committing { report: owned(report) }),
                    None => Move::End(Ok(Some(owned(report)))),
                },
            ),
            Stage::Committing { report } => when_done(
                commit_all(path, &self.message(), heard),
                did(Stage::Pushing { report: owned(report) }, Undo::ResetCommit),
            ),
            Stage::Pushing { report } => when_done(
                publish_branch(path, branch, heard),
                did(Stage::FindingPr { report: owned(report) }, Undo::DeleteRemote(owned(branch))),
            ),
            Stage::FindingPr { report } => match get_pr_number_for_repo(
                &self.repo.reposlug,
                branch,
                heard,
            ) {
                Step::Ask(r) => Step::Ask(r),
                Step::Done(Ok(number), n) => Step::Done(
                    if number != 0 {
                        Move::Go(Stage::ClosingPr { report: owned(report), number })
                    } else {
                        Move::Go(Stage::Opening { report: owned(report) })
                    },
                    n,
                ),
                Step::Done(Err(e), n) => Step::Done(Move::End(Err(e)), n),
            },
            Stage::ClosingPr { report, number } => when_done(
                close_pr(&self.repo.reposlug, *number, heard),
                did(Stage::Opening { report: owned(report) }, Undo::ReopenPr(*number)),
            ),
            Stage::Opening { report } => match create_pr(path, branch, &self.message(), heard) {
                Step::Ask(r) => Step::Ask(r),
                Step::Done(Some(_), n) => Step::Done(Move::Commit(Ok(Some(owned(report)))), n),
                Step::Done(None, n) => Step::Done(
                    Move::End(
                        Err(cat3("Failed to create PR for repo '", &self.repo.reposlug, "'")),
                    ),
                    n,
                ),
            },
            Stage::RollingBack { .. } => {
                let last = self.undo.rollsbacks.len() - 1;
                match undo_it(path, &self.repo.reposlug, &self.undo.rollsbacks[last], heard) {
                    Step::Ask(r) => Step::Ask(r),
                    Step::Done(_, n) => Step::Done(Move::Undone, n),
                }
            },
            Stage::Finished { .. } => Step::Done(Move::Stay, 0),
        };
        (step, Ghost(Seq::empty()))
    }

    /// Leaves the current stage.
    fn apply(&mut self, m: Move)
        requires
            old(self).set_up(),
            m is Undone ==> old(self).undo.rollsbacks@.len() > 0,
        ensures
            final(self).set_up(),
            final(self).job() == old(self).job(),
            final(self).run() == moved(old(self).run(), m.meaning()),
    {
        let ghost before = undos(self.undo.rollsbacks@);
        match m {
            Move::Stay => {
                return ;
            },
            Move::Go(stage) => {
                self.stage = stage;
            },
            Move::Did(stage, undo) => {
                self.stage = stage;
                self.leave(undo);
            },
            Move::Keep(stage, content) => {
                let ghost kept = repo::contents_facts(self.contents@);
                self.stage = stage;
                self.contents.push(content);
                assert(repo::contents_facts(self.contents@) =~= kept.push(content.meaning()));
            },
            Move::End(outcome) => {
                self.end(outcome);
            },
            Move::Undone => {
                let outcome = match &self.stage {
                    Stage::RollingBack { outcome } => copy_outcome(outcome),
                    Stage::Finished { outcome } => copy_outcome(outcome),
                    _ => Ok(None),
                };
                let _ = self.undo.next_rollback();
                assert(undos(self.undo.rollsbacks@) =~= before.drop_last());
                self.end(outcome);
            },
            Move::Commit(outcome) => {
                self.undo.commit();
                assert(undos(self.undo.rollsbacks@) =~= Seq::empty());
                self.stage = Stage::Finished { outcome };
            },
        }
        self.heard = Vec::new();
        assert(self.heard@ =~= Seq::empty());
    }

    /// Leaves behind what undoes something.
    fn leave(&mut self, undo: Vec<Undo>)
        ensures
            *final(self) == (CreateRun { undo: final(self).undo, ..*old(self) }),
            undos(final(self).undo.rollsbacks@) == undos(old(self).undo.rollsbacks@) + undos(undo@),
    {
        let ghost start = *self;
        let ghost base = undos(self.undo.rollsbacks@);
        let ghost all = undos(undo@);
        let mut left = undo;
        while left.len() > 0
            invariant
                *self == (CreateRun { undo: self.undo, ..start }),
                undos(self.undo.rollsbacks@) + undos(left@) == base + all,
            decreases left@.len(),
        {
            let ghost before = undos(self.undo.rollsbacks@);
            let ghost rest = undos(left@);
            let u = left.remove(0);
            self.undo.add_rollback(u);
            assert(undos(self.undo.rollsbacks@) =~= before.push(u@));
            assert(before.push(u@) + undos(left@) =~= before + rest);
        }
        assert(undos(self.undo.rollsbacks@) =~= base + all);
    }

    /// Undoes what is left to be undone, and then ends.
    fn end(&mut self, outcome: Outcome)
        ensures
            final(self).stage@ == ending(undos(old(self).undo.rollsbacks@), outcome.meaning()),
            *final(self) == (CreateRun { stage: final(self).stage, ..*old(self) }),
    {
        if self.undo.rollsbacks.len() == 0 {
            self.stage = Stage::Finished { outcome };
        } else {
            self.stage = Stage::RollingBack { outcome };
        }
    }

    /// Leaves the current stage behind, if it has come to its end.
    fn pass(&mut self) -> (report: Ghost<Seq<char>>)
        requires
            old(self).set_up(),
            consistent(old(self).run()),
            contents_fit(old(self).job(), old(self).run()),
            old(self).stage is Drafting ==> old(self).heard@.len() <= old(
                self,
            ).job().files().len(),
        ensures
            final(self).set_up(),
            final(self).job() == old(self).job(),
            final(self).run() == pass(old(self).job(), old(self).run(), report@),
            drawn(old(self).job(), old(self).run(), report@),
    {
        let (step, report) = self.talk();
        proof {
            reveal(pass);
        }
        match step {
            Step::Ask(_) => {},
            Step::Done(m, _) => {
                self.apply(m);
            },
        }
        report
    }

    /// Leaves all stages behind that have come to their end.
    fn settle(&mut self)
        requires
            old(self).set_up(),
            consistent(old(self).run()),
            !(old(self).stage is Finished),
            contents_fit(old(self).job(), old(self).run()),
            old(self).stage is Drafting ==> old(self).heard@.len() <= old(
                self,
            ).job().files().len(),
        ensures
            final(self).wf(),
            final(self).job() == old(self).job(),
            settles(old(self).job(), old(self).run(), final(self).run()),
    {
        let ghost job = self.job();
        let ghost r0 = self.run();
        let a = self.pass();
        let ghost r1 = self.run();
        proof {
            lemma_can_pass(job, r0, a@);
        }
        let b = self.pass();
        let ghost r2 = self.run();
        proof {
            lemma_can_pass(job, r1, b@);
        }
        let c = self.pass();
        proof {
            lemma_can_pass(job, r2, c@);
            let report = if report_due(job, r0) {
                a@
            } else {
                b@
            };
            lemma_same_passes(job, r0, a@, b@, c@, report);
            lemma_settled(job, r0, report);
        }
    }

    /// The next thing to be done; nothing once the run has come to its end.
    pub fn next(&self) -> (r: Option<Request>)
        requires
            self.wf(),
        ensures
            r is None <==> self.stage is Finished,
            r matches Some(request) ==> talk(self.job(), self.run(), Seq::empty()) == Turn::<
                MoveFacts,
            >::Ask(request@),
    {
        proof {
            if self.stage is Drafting {
                assert(self.heard@.len() < reads(self.job().files()).len());
            }
        }
        let (step, report) = self.talk();
        proof {
            lemma_report_is_irrelevant(self.job(), self.run(), report@, Seq::empty());
        }
        match step {
            Step::Ask(r) => Some(r),
            Step::Done(_, _) => None,
        }
    }

    /// What is said of the answer to the last request, if there is anything to be
    /// said.
    pub fn complaint(&self, reply: &Reply) -> (r: Option<String>)
        requires
            self.wf(),
        ensures
            command::text_in(r) == complaint(self.job(), self.run(), *reply),
    {
        let request = self.next();
        match (&self.repo.change, request, reply) {
            (Some(Change::Add(file, _)), Some(Request::MakeDirs(_)), Err(e)) => Some(
                cat4(
                    "failed to create directories for ",
                    &joined_path(&self.path, file),
                    ": ",
                    e,
                ),
            ),
            (Some(Change::Add(file, _)), Some(Request::Write(_, _)), Err(e)) => Some(
                cat4("failed to write ", &joined_path(&self.path, file), ": ", e),
            ),
            _ => None,
        }
    }

    /// Takes in the answer to the last request.
    pub fn hear(&mut self, reply: Reply)
        requires
            old(self).wf(),
            !(old(self).stage is Finished),
        ensures
            final(self).wf(),
            final(self).job() == old(self).job(),
            hears(old(self).job(), old(self).run(), reply, final(self).run()),
    {
        proof {
            if self.stage is Drafting {
                assert(self.heard@.len() < reads(self.job().files()).len());
            }
        }
        self.heard.push(reply);
        self.settle();
    }

    /// What the run came to, once it has come to its end.
    pub fn outcome(&self) -> (r: Option<&Outcome>)
        ensures
            r is Some <==> self.stage is Finished,
            r matches Some(outcome) ==> self.stage@ == (StageFacts::Finished {
                outcome: outcome.meaning(),
            }),
    {
        match &self.stage {
            Stage::Finished { outcome } => Some(outcome),
            _ => None,
        }
    }
}

/// The same outcome once more.
fn copy_outcome(outcome: &Outcome) -> (r: Outcome)
    ensures
        r.meaning() == outcome.meaning(),
{
    match outcome {
        Ok(Some(report)) => Ok(Some(owned(report))),
        Ok(None) => Ok(None),
        Err(e) => Err(owned(e)),
    }
}

/// Whether `report` is the report on the change, where the stage of a run draws
/// it up.
pub open spec fn drawn(job: Job, run: Run, report: Seq<char>) -> bool {
    report_due(job, run) ==> reports(job, run.contents, report)
}

/// Whether `next` is the run `now` with all stages left behind that have come to
/// their end. The report is drawn up on the way where the files have been read.
pub open spec fn settles(job: Job, now: Run, next: Run) -> bool {
    exists|report: Seq<char>|
        drawn(job, now, report) && drawn(job, pass(job, now, report), report) && next
            == #[trigger] settled(job, now, report)
}

/// Whether `next` is the run `now` after one more answer.
pub open spec fn hears(job: Job, now: Run, reply: Reply, next: Run) -> bool {
    settles(job, Run { heard: now.heard.push(reply), ..now }, next)
}

/// A run of which nothing has been done yet.
pub open spec fn fresh() -> Run {
    Run {
        stage: StageFacts::Drafting,
        undo: Seq::empty(),
        heard: Seq::empty(),
        contents: Seq::empty(),
    }
}

/// Whether `start` is the run at its beginning.
pub open spec fn begins(job: Job, start: Run) -> bool {
    settles(job, fresh(), start)
}

proof fn lemma_can_pass(job: Job, run: Run, report: Seq<char>)
    requires
        consistent(run),
        contents_fit(job, run),
        run.stage is Drafting ==> run.heard.len() <= job.files().len(),
    ensures
        consistent(pass(job, run, report)),
        contents_fit(job, pass(job, run, report)),
        ({
            let next = pass(job, run, report);
            next.stage is Drafting ==> next.heard.len() <= job.files().len()
        }),
{
    reveal(pass);
    if !(run.stage is Finished) && talk(job, run, report) is Done {
        lemma_pass(job, run, report);
    }
}

proof fn lemma_same_passes(
    job: Job,
    r0: Run,
    a: Seq<char>,
    b: Seq<char>,
    c: Seq<char>,
    report: Seq<char>,
)
    requires
        consistent(r0),
        !(r0.stage is Finished),
        drawn(job, r0, a),
        drawn(job, pass(job, r0, a), b),
        report == (if report_due(job, r0) {
            a
        } else {
            b
        }),
    ensures
        pass(job, r0, a) == pass(job, r0, report),
        pass(job, pass(job, r0, a), b) == pass(job, pass(job, r0, a), report),
        pass(job, pass(job, pass(job, r0, a), b), c) == pass(
            job,
            pass(job, pass(job, r0, a), b),
            report,
        ),
        drawn(job, r0, report),
        drawn(job, pass(job, r0, report), report),
{
    reveal(pass);
    let r1 = pass(job, r0, a);
    let r2 = pass(job, r1, b);
    lemma_report_is_irrelevant(job, r0, a, report);
    lemma_report_is_irrelevant(job, r1, b, report);
    lemma_report_is_irrelevant(job, r2, c, report);
    if talk(job, r0, a) is Done {
        lemma_pass(job, r0, a);
        if !(r1.stage is Finished) && talk(job, r1, b) is Done {
            lemma_pass(job, r1, b);
            if r2.stage is Reading && !(r1.stage is Reading) {
                lemma_new_stage(job, r1, b);
            }
        }
    }
}

impl Repo {
    /// The transactional create function performs all necessary Git operations
    /// (branch deletion, checkout, staging, commit, push, etc.) in a reversible way.
    ///
    /// If any step fails, the previously completed steps are rolled back.
    ///
    /// Note that the diff output is generated before making changes. When no commit
    /// message is provided, the diff output is returned as a dry run.
    pub fn create(
        &self,
        root: &str,
        buffer: usize,
        commit_msg: &Option<String>,
        simplified: bool,
    ) -> (r: CreateRun)
        requires
            repo::needs_context(self@.change, simplified) ==> 2 * buffer <= usize::MAX,
        ensures
            r.wf(),
            r.job() == (Job {
                repo: self@,
                root: root@,
                buffer,
                commit_msg: command::text_in(*commit_msg),
                simplified,
            }),
            begins(r.job(), r.run()),
    {
        let branch = if starts_with(&self.change_id, "SLAM") {
            owned(&self.change_id)
        } else {
            cat2("SLAM-", &self.change_id)
        };
        let mut r = CreateRun {
            repo: self.copy(),
            root: owned(root),
            path: joined_path(root, &self.reposlug),
            branch,
            buffer,
            commit_msg: match commit_msg {
                Some(m) => Some(owned(m)),
                None => None,
            },
            simplified,
            stage: Stage::Drafting,
            undo: Transaction::new(),
            heard: Vec::new(),
            contents: Vec::new(),
        };
        assert(r.run().contents =~= Seq::empty());
        assert(r.run().undo =~= Seq::empty());
        assert(r.run().heard =~= Seq::empty());
        r.settle();
        r
    }
}

} // verus!
