//! What holds of every run of a change, whatever the outside answers.
use crate::command::{Reply, Turn, Wish};
use crate::create;
use crate::create::{Job, OutcomeFacts, Run, StageFacts, UndoFacts};
use crate::git;
use crate::github;
use crate::hooks;
use crate::repo;
use crate::repo::ContentFacts;
use crate::text;
use vstd::prelude::*;

verus! {

/// The branch for a change always starts with "SLAM".
pub proof fn law_branch_starts_with_slam(change_id: Seq<char>)
    ensures
        text::begins_with(create::branch_for(change_id), "SLAM"@),
{
    reveal_strlit("SLAM");
    reveal_strlit("SLAM-");
    if !text::begins_with(change_id, "SLAM"@) {
        assert(("SLAM-"@ + change_id).subrange(0, 4) =~= "SLAM"@);
    }
}

/// Whether a run is still making its change.
pub open spec fn works(run: Run) -> bool {
    !(run.stage is RollingBack) && !(run.stage is Finished)
}

/// What undoes a stage, the last of it first. Nothing undoes a stage that only
/// looks at something. What undoes the changes to the files, those of the hooks
/// among them, is laid down along with the new branch, before the first of them is
/// made: they are undone whichever of them could be made.
pub open spec fn inverse(job: Job, stage: StageFacts) -> Seq<UndoFacts> {
    match stage {
        StageFacts::Stashing => seq![UndoFacts::StashPop("stash@{0}"@)],
        StageFacts::Switching { original, .. } => seq![UndoFacts::Checkout(original)],
        StageFacts::Pulling { base } => seq![UndoFacts::ResetTo(base)],
        StageFacts::LocalDelete { commit } => seq![UndoFacts::RestoreLocal(job.branch(), commit)],
        StageFacts::RemoteDelete { commit, number } => create::restoring_remote(
            job.branch(),
            commit,
            number,
        ),
        StageFacts::Branching { origin } => create::branch_undone(job.branch(), origin),
        StageFacts::Committing { .. } => seq![UndoFacts::ResetCommit],
        StageFacts::Pushing { .. } => seq![UndoFacts::DeleteRemote(job.branch())],
        StageFacts::ClosingPr { number, .. } => seq![UndoFacts::ReopenPr(number)],
        _ => Seq::empty(),
    }
}

/// A stage that is completed leaves behind what undoes it, and nothing else. A
/// stage that fails, and one that completes a dry run, leaves all that has been
/// left behind so far to be undone. Nothing is forgotten before the pull request
/// is open.
pub proof fn law_completed_stages_can_be_undone(job: Job, run: Run, report: Seq<char>)
    requires
        works(run),
        create::talk(job, run, report) is Done,
    ensures
        ({
            let next = create::pass(job, run, report);
            ||| works(next) && next.undo == run.undo + inverse(job, run.stage)
            ||| next.stage is RollingBack && next.undo == run.undo
            ||| next.stage is Finished && next.undo == run.undo && run.undo.len() == 0
            ||| run.stage is Opening && next.stage is Finished && next.undo.len() == 0
                && create::outcome_of(next.stage) matches Ok(Some(_))
        }),
{
    reveal(create::pass);
    let next = create::pass(job, run, report);
    if works(next) {
        assert(next.undo =~= run.undo + inverse(job, run.stage));
    }
}

/// A run that is rolling back asks for what undoes the latest stage that has not
/// been undone yet. After the answer, be it good or bad, that stage counts as
/// undone; once all are, the run ends with the outcome that it had before.
pub proof fn law_rollback_undoes_the_latest(job: Job, run: Run, report: Seq<char>, reply: Reply)
    requires
        run.stage is RollingBack,
        run.undo.len() > 0,
        run.heard.len() == 0,
    ensures
        create::talk(job, run, report) matches Turn::Ask(wish) && create::undo_turn(
            job,
            run.undo.last(),
            Seq::empty(),
        ) == Turn::<Result<(), Seq<char>>>::Ask(wish),
        ({
            let next = create::pass(job, Run { heard: run.heard.push(reply), ..run }, report);
            &&& next.undo == run.undo.drop_last()
            &&& next.stage is Finished <==> next.undo.len() == 0
            &&& next.stage is RollingBack <==> next.undo.len() > 0
            &&& create::outcome_of(next.stage) == create::outcome_of(run.stage)
        }),
{
    reveal(create::pass);
    assert(run.heard =~= Seq::empty());
}

// ---------------------------------------------------------------------------
// Whole runs
// ---------------------------------------------------------------------------

/// Whether a run can stand where it stands: how much there is to be undone fits
/// its stage, and a dry run neither reaches for the remote nor goes further than
/// the hooks.
pub open spec fn lawful(job: Job, run: Run) -> bool {
    &&& create::consistent(run)
    &&& create::contents_fit(job, run)
    &&& run.undo.len() <= most_undos(run.stage)
    &&& job.commit_msg is None ==> !commits(run.stage)
    &&& job.commit_msg is None ==> stays_local(run.undo)
    &&& run.stage is RollingBack && create::outcome_of(run.stage) is Ok ==> job.commit_msg is None
    &&& run.stage matches StageFacts::Applying { edits, .. } ==> edits.len() <= job.files().len()
        + 2
}

/// The stages that a dry run does not reach.
pub open spec fn commits(stage: StageFacts) -> bool {
    stage is RemoteCheck || stage is FindingOldPr || stage is RemoteDelete || stage is Committing
        || stage is Pushing || stage is FindingPr || stage is ClosingPr || stage is Opening
}

/// Whether an `Undo` reaches for the remote, or takes back a commit.
pub open spec fn undoes_more_than_files(undo: UndoFacts) -> bool {
    undo is RestoreRemote || undo is DeleteRemote || undo is ReopenPr || undo is ResetCommit
}

/// Whether nothing of what is left to be undone reaches for the remote, or takes
/// back a commit.
pub open spec fn stays_local(undo: Seq<UndoFacts>) -> bool {
    forall|k: int| 0 <= k < undo.len() ==> !undoes_more_than_files(#[trigger] undo[k])
}

/// How much there can be to be undone.
pub open spec fn most_undos(stage: StageFacts) -> nat {
    match stage {
        StageFacts::Drafting => 0,
        StageFacts::Untracked => 0,
        StageFacts::Modified => 0,
        StageFacts::Stashing => 0,
        StageFacts::FindingHead => 1,
        StageFacts::FindingBranch { .. } => 1,
        StageFacts::Switching { .. } => 1,
        StageFacts::FindingBase => 2,
        StageFacts::Pulling { .. } => 2,
        StageFacts::LocalCheck => 3,
        StageFacts::LocalCommit => 3,
        StageFacts::LocalDelete { .. } => 3,
        StageFacts::RemoteCheck => 4,
        StageFacts::FindingOldPr { .. } => 4,
        StageFacts::RemoteDelete { .. } => 4,
        StageFacts::FindingOrigin => 6,
        StageFacts::Branching { .. } => 6,
        StageFacts::Reading => 10,
        StageFacts::Rewriting { .. } => 10,
        StageFacts::Applying { .. } => 10,
        StageFacts::Staging { .. } => 10,
        StageFacts::Hooks { .. } => 10,
        StageFacts::Committing { .. } => 10,
        StageFacts::Pushing { .. } => 11,
        StageFacts::FindingPr { .. } => 12,
        StageFacts::ClosingPr { .. } => 12,
        _ => 13,
    }
}

proof fn lemma_edits(
    change: repo::ChangeFacts,
    path: Seq<char>,
    files: Seq<Seq<char>>,
    contents: Seq<repo::ContentFacts>,
)
    requires
        !(change is Add),
    ensures
        repo::read_edits(change, path, files, contents).len() <= files.len(),
    decreases files.len(),
{
    if files.len() > 0 {
        lemma_edits(change, path, files.drop_last(), contents);
    }
}

proof fn lemma_create_edits(job: Job, contents: Seq<repo::ContentFacts>)
    ensures
        repo::create_edits(job.repo, job.root, contents).len() <= job.files().len() + 2,
{
    match job.repo.change {
        None => {},
        Some(change) => {
            if !(change is Add) {
                lemma_edits(change, job.path(), job.repo.files, contents);
            }
        },
    }
}

proof fn lemma_pass_is_lawful(job: Job, run: Run, report: Seq<char>)
    requires
        lawful(job, run),
        !(run.stage is Finished),
    ensures
        lawful(job, create::pass(job, run, report)),
{
    reveal(create::pass);
    if run.stage is Reading {
        lemma_create_edits(job, run.contents);
    }
}

/// How what is left to be undone changes from one run to the next: it only grows
/// while the run works, it loses its latest while the run is rolling back, and it
/// is dropped as a whole only where the change is complete.
pub open spec fn stack_moves(now: Run, next: Run) -> bool {
    ||| works(now) && now.undo.is_prefix_of(next.undo)
    ||| now.stage is RollingBack && now.undo.len() > 0 && next.undo == now.undo.drop_last()
        && create::outcome_of(next.stage) == create::outcome_of(now.stage)
    ||| completes(now, next)
}

/// Whether the pull request was opened.
pub open spec fn completes(now: Run, next: Run) -> bool {
    &&& now.stage is Opening
    &&& next.stage is Finished
    &&& create::outcome_of(next.stage) matches Ok(Some(_))
}

proof fn lemma_pass_moves(job: Job, run: Run, report: Seq<char>)
    requires
        lawful(job, run),
        !(run.stage is Finished),
        create::talk(job, run, report) is Done,
    ensures
        stack_moves(run, create::pass(job, run, report)),
        create::pass(job, run, report).heard.len() == 0,
{
    reveal(create::pass);
    let next = create::pass(job, run, report);
    if works(run) {
        law_completed_stages_can_be_undone(job, run, report);
        assert(run.undo.is_prefix_of(run.undo));
        assert(run.undo.is_prefix_of(run.undo + inverse(job, run.stage)));
    }
}

proof fn lemma_settled_moves(job: Job, run: Run, report: Seq<char>)
    requires
        lawful(job, run),
        !(run.stage is Finished),
        run.stage is RollingBack ==> create::talk(job, run, report) is Done,
    ensures
        lawful(job, create::settled(job, run, report)),
        stack_moves(run, create::settled(job, run, report)),
{
    reveal(create::pass);
    let r1 = create::pass(job, run, report);
    let r2 = create::pass(job, r1, report);
    let r3 = create::pass(job, r2, report);
    lemma_pass_is_lawful(job, run, report);
    if create::talk(job, run, report) is Ask {
        assert(r1 == run && r2 == run && r3 == run);
        assert(run.undo.is_prefix_of(run.undo));
    } else {
        lemma_pass_moves(job, run, report);
        if r1.stage is Finished {
            assert(r2 == r1 && r3 == r1);
        } else if !(r1.stage is Reading) && !(r1.stage is Applying) && !(r1.stage is Drafting) {
            create::lemma_new_stage(job, r1, report);
            assert(r2 == r1 && r3 == r1);
        } else {
            assert(works(run) && works(r1));
            lemma_pass_is_lawful(job, r1, report);
            if create::talk(job, r1, report) is Ask {
                assert(r2 == r1 && r3 == r1);
            } else {
                lemma_pass_moves(job, r1, report);
                assert(works(r2));
                assert(run.undo.is_prefix_of(r2.undo));
                lemma_pass_is_lawful(job, r2, report);
                if create::talk(job, r2, report) is Ask {
                    assert(r3 == r2);
                } else {
                    if !(r2.stage is Reading) && !(r2.stage is Applying) {
                        create::lemma_new_stage(job, r2, report);
                    }
                    lemma_pass_moves(job, r2, report);
                    assert(run.undo.is_prefix_of(r3.undo));
                }
            }
        }
    }
}

proof fn lemma_hearing(job: Job, now: Run, reply: Reply, next: Run)
    requires
        lawful(job, now),
        create::waits(job, now),
        !(now.stage is Finished),
        create::hears(job, now, reply, next),
    ensures
        lawful(job, next),
        create::waits(job, next),
        stack_moves(now, next),
{
    let heard = Run { heard: now.heard.push(reply), ..now };
    let report = choose|report: Seq<char>|
        create::drawn(job, heard, report) && create::drawn(
            job,
            create::pass(job, heard, report),
            report,
        ) && next == #[trigger] create::settled(job, heard, report);
    if now.stage is RollingBack {
        assert(now.heard.len() == 0);
        assert(now.heard =~= Seq::empty());
        law_rollback_undoes_the_latest(job, now, report, reply);
    }
    lemma_settled_moves(job, heard, report);
    create::lemma_settled(job, heard, report);
}

/// Whether `runs` is what becomes of a job with these answers.
pub open spec fn history(job: Job, runs: Seq<Run>, replies: Seq<Reply>) -> bool {
    &&& runs.len() == replies.len() + 1
    &&& create::begins(job, runs[0])
    &&& forall|i: int|
        0 <= i < replies.len() ==> !((#[trigger] runs[i]).stage is Finished) && create::hears(
            job,
            runs[i],
            replies[i],
            runs[i + 1],
        )
}

pub proof fn lemma_history(job: Job, runs: Seq<Run>, replies: Seq<Reply>, i: int)
    requires
        history(job, runs, replies),
        0 <= i < runs.len(),
    ensures
        lawful(job, runs[i]),
        create::waits(job, runs[i]),
        i < replies.len() ==> stack_moves(runs[i], runs[i + 1]),
        0 < i ==> stack_moves(runs[i - 1], runs[i]),
    decreases i,
{
    if i == 0 {
        let start = create::fresh();
        let report = choose|report: Seq<char>|
            create::drawn(job, start, report) && create::drawn(
                job,
                create::pass(job, start, report),
                report,
            ) && runs[0] == #[trigger] create::settled(job, start, report);
        lemma_settled_moves(job, start, report);
        create::lemma_settled(job, start, report);
    } else {
        lemma_history(job, runs, replies, i - 1);
        assert(!(runs[i - 1].stage is Finished));
        lemma_hearing(job, runs[i - 1], replies[i - 1], runs[i]);
    }
    if i < replies.len() {
        assert(!(runs[i].stage is Finished));
        lemma_hearing(job, runs[i], replies[i], runs[i + 1]);
    }
}

/// Whether the outcome of a run calls for all that was done to be undone: it
/// failed, it found nothing to change, or it was a dry run.
pub open spec fn leaves_nothing(job: Job, outcome: OutcomeFacts) -> bool {
    outcome is Err || outcome == Ok::<Option<Seq<char>>, Seq<char>>(None) || job.commit_msg is None
}

/// Whether from `now` to `next` the `k`th of what is in `stack` was undone, at a
/// time when it was the latest that was left.
pub open spec fn undoes(now: Run, next: Run, stack: Seq<UndoFacts>, k: int) -> bool {
    &&& now.stage is RollingBack
    &&& now.undo == stack.take(k + 1)
    &&& next.undo == stack.take(k)
}

/// Whether what is left to be undone only grows or loses its latest.
spec fn stacks_only(runs: Seq<Run>) -> bool {
    forall|m: int|
        0 <= m < runs.len() - 1 ==> stack_moves(#[trigger] runs[m], runs[m + 1]) && !completes(
            runs[m],
            runs[m + 1],
        )
}

proof fn lemma_popped(runs: Seq<Run>, i: int, k: int, j: int) -> (found: int)
    requires
        stacks_only(runs),
        0 <= i <= j < runs.len(),
        0 <= k < runs[i].undo.len(),
    ensures
        ({
            ||| i <= found < j && undoes(runs[found], runs[found + 1], runs[i].undo, k)
            ||| k < runs[j].undo.len() && runs[j].undo.take(k + 1) == runs[i].undo.take(k + 1)
        }),
    decreases j - i,
{
    if j == i {
        i
    } else {
        let found = lemma_popped(runs, i, k, j - 1);
        if i <= found < j - 1 && undoes(runs[found], runs[found + 1], runs[i].undo, k) {
            found
        } else {
            let a = runs[j - 1];
            let b = runs[j];
            assert(stack_moves(a, b) && !completes(a, b));
            if works(a) {
                assert(a.undo.is_prefix_of(b.undo));
                assert(b.undo.take(k + 1) =~= a.undo.take(k + 1));
            } else if a.undo.len() == k + 1 {
                assert(a.undo.take(k + 1) =~= a.undo);
                assert(b.undo =~= runs[i].undo.take(k)) by {
                    assert(runs[i].undo.take(k + 1).drop_last() =~= runs[i].undo.take(k));
                }
            } else {
                assert(b.undo.take(k + 1) =~= a.undo.take(k + 1));
            }
            j - 1
        }
    }
}

proof fn lemma_not_completed(job: Job, runs: Seq<Run>, replies: Seq<Reply>, m: int)
    requires
        history(job, runs, replies),
        runs.last().stage is Finished,
        leaves_nothing(job, create::outcome_of(runs.last().stage)),
        0 <= m < replies.len(),
    ensures
        !completes(runs[m], runs[m + 1]),
{
    lemma_history(job, runs, replies, m);
    if completes(runs[m], runs[m + 1]) {
        if m + 1 < replies.len() {
            assert(!(runs[m + 1].stage is Finished));
        }
    }
}

/// A run that fails, or that is a dry run, undoes everything: whatever was left
/// to be undone at some time is undone later, at a time when exactly what was
/// done before it is left. So all steps that were completed are rolled back, the
/// latest first.
pub proof fn law_everything_is_rolled_back(
    job: Job,
    runs: Seq<Run>,
    replies: Seq<Reply>,
    i: int,
    k: int,
)
    requires
        history(job, runs, replies),
        runs.last().stage is Finished,
        leaves_nothing(job, create::outcome_of(runs.last().stage)),
        0 <= i < runs.len(),
        0 <= k < runs[i].undo.len(),
    ensures
        exists|j: int|
            i <= j < replies.len() && undoes(#[trigger] runs[j], runs[j + 1], runs[i].undo, k),
{
    assert forall|m: int| 0 <= m < runs.len() - 1 implies stack_moves(
        #[trigger] runs[m],
        runs[m + 1],
    ) && !completes(runs[m], runs[m + 1]) by {
        lemma_history(job, runs, replies, m);
        lemma_not_completed(job, runs, replies, m);
    }
    let found = lemma_popped(runs, i, k, runs.len() - 1);
    lemma_history(job, runs, replies, runs.len() - 1);
    assert(undoes(runs[found], runs[found + 1], runs[i].undo, k));
}

/// A run that is to be committed and succeeds never rolls anything back.
pub proof fn law_success_rolls_nothing_back(
    job: Job,
    runs: Seq<Run>,
    replies: Seq<Reply>,
    i: int,
)
    requires
        history(job, runs, replies),
        runs.last().stage is Finished,
        create::outcome_of(runs.last().stage) matches Ok(Some(_)),
        job.commit_msg is Some,
        0 <= i < runs.len(),
    ensures
        !(runs[i].stage is RollingBack),
    decreases runs.len() - i,
{
    lemma_history(job, runs, replies, i);
    if runs[i].stage is RollingBack {
        lemma_keeps_outcome(job, runs, replies, i, runs.len() - 1);
    }
}

proof fn lemma_keeps_outcome(job: Job, runs: Seq<Run>, replies: Seq<Reply>, i: int, j: int)
    requires
        history(job, runs, replies),
        0 <= i <= j < runs.len(),
        runs[i].stage is RollingBack,
    ensures
        !works(runs[j]),
        create::outcome_of(runs[j].stage) == create::outcome_of(runs[i].stage),
    decreases j - i,
{
    if i < j {
        lemma_keeps_outcome(job, runs, replies, i, j - 1);
        assert(!(runs[j - 1].stage is Finished));
        lemma_history(job, runs, replies, j - 1);
        lemma_rolling_stays(job, runs[j - 1], replies[j - 1], runs[j]);
    }
}

proof fn lemma_rolling_stays(job: Job, now: Run, reply: Reply, next: Run)
    requires
        lawful(job, now),
        create::waits(job, now),
        now.stage is RollingBack,
        create::hears(job, now, reply, next),
    ensures
        !works(next),
        create::outcome_of(next.stage) == create::outcome_of(now.stage),
{
    reveal(create::pass);
    let heard = Run { heard: now.heard.push(reply), ..now };
    let report = choose|report: Seq<char>|
        create::drawn(job, heard, report) && create::drawn(
            job,
            create::pass(job, heard, report),
            report,
        ) && next == #[trigger] create::settled(job, heard, report);
    assert(now.heard =~= Seq::empty());
    law_rollback_undoes_the_latest(job, now, report, reply);
    let r1 = create::pass(job, heard, report);
    if r1.stage is RollingBack {
        create::lemma_new_stage(job, r1, report);
    }
}

// ---------------------------------------------------------------------------
// What runs come to
// ---------------------------------------------------------------------------

/// A dry run neither commits nor pushes the change, neither closes nor opens a
/// pull request, and does not touch the branches of the remote. Nor does it do any
/// of that when it is undone.
pub proof fn law_dry_run_never_commits(job: Job, runs: Seq<Run>, replies: Seq<Reply>, i: int)
    requires
        history(job, runs, replies),
        job.commit_msg is None,
        0 <= i < runs.len(),
    ensures
        !commits(runs[i].stage),
        stays_local(runs[i].undo),
{
    lemma_history(job, runs, replies, i);
}

/// Whether a run has found something to change.
spec fn found_change(run: Run) -> bool {
    !(run.stage is Drafting) && (works(run) || create::outcome_of(run.stage) != Ok::<
        Option<Seq<char>>,
        Seq<char>,
    >(None))
}

proof fn lemma_pass_has_found(job: Job, run: Run, report: Seq<char>)
    requires
        found_change(run),
    ensures
        found_change(create::pass(job, run, report)),
{
    reveal(create::pass);
}

proof fn lemma_hearing_has_found(job: Job, now: Run, reply: Reply, next: Run)
    requires
        found_change(now),
        create::hears(job, now, reply, next),
    ensures
        found_change(next),
{
    let heard = Run { heard: now.heard.push(reply), ..now };
    let report = choose|report: Seq<char>|
        create::drawn(job, heard, report) && create::drawn(
            job,
            create::pass(job, heard, report),
            report,
        ) && next == #[trigger] create::settled(job, heard, report);
    let r1 = create::pass(job, heard, report);
    lemma_pass_has_found(job, heard, report);
    lemma_pass_has_found(job, r1, report);
    lemma_pass_has_found(job, create::pass(job, r1, report), report);
}

proof fn lemma_found_or_not(job: Job, runs: Seq<Run>, replies: Seq<Reply>, i: int)
    requires
        history(job, runs, replies),
        0 <= i < runs.len(),
    ensures
        runs[i].stage is Drafting || runs[i].stage is Finished || found_change(runs[i]),
    decreases i,
{
    if i == 0 {
        let start = create::fresh();
        let report = choose|report: Seq<char>|
            create::drawn(job, start, report) && create::drawn(
                job,
                create::pass(job, start, report),
                report,
            ) && runs[0] == #[trigger] create::settled(job, start, report);
        lemma_drafting(job, start, report);
    } else {
        lemma_found_or_not(job, runs, replies, i - 1);
        lemma_history(job, runs, replies, i - 1);
        let now = runs[i - 1];
        assert(!(now.stage is Finished));
        if found_change(now) {
            lemma_hearing_has_found(job, now, replies[i - 1], runs[i]);
        } else {
            let heard = Run { heard: now.heard.push(replies[i - 1]), ..now };
            let report = choose|report: Seq<char>|
                create::drawn(job, heard, report) && create::drawn(
                    job,
                    create::pass(job, heard, report),
                    report,
                ) && runs[i] == #[trigger] create::settled(job, heard, report);
            lemma_drafting(job, heard, report);
        }
    }
}

proof fn lemma_drafting(job: Job, run: Run, report: Seq<char>)
    requires
        run.stage is Drafting,
        run.undo.len() == 0,
    ensures
        ({
            let next = create::settled(job, run, report);
            next.stage is Drafting || next.stage is Finished || found_change(next)
        }),
{
    reveal(create::pass);
    let r1 = create::pass(job, run, report);
    let r2 = create::pass(job, r1, report);
    if create::talk(job, run, report) is Done && !(r1.stage is Finished) {
        lemma_pass_has_found(job, r1, report);
        lemma_pass_has_found(job, r2, report);
    }
}

proof fn lemma_has_found_for_good(
    job: Job,
    runs: Seq<Run>,
    replies: Seq<Reply>,
    i: int,
    j: int,
)
    requires
        history(job, runs, replies),
        0 <= i <= j < runs.len(),
        found_change(runs[i]),
    ensures
        found_change(runs[j]),
    decreases j - i,
{
    if i < j {
        lemma_has_found_for_good(job, runs, replies, i, j - 1);
        assert(!(runs[j - 1].stage is Finished));
        lemma_hearing_has_found(job, runs[j - 1], replies[j - 1], runs[j]);
    }
}

/// A run that finds nothing to change does nothing but read files.
pub proof fn law_without_a_change_files_are_only_read(
    job: Job,
    runs: Seq<Run>,
    replies: Seq<Reply>,
    i: int,
)
    requires
        history(job, runs, replies),
        runs.last().stage is Finished,
        create::outcome_of(runs.last().stage) == Ok::<Option<Seq<char>>, Seq<char>>(None),
        0 <= i < replies.len(),
    ensures
        create::talk(job, runs[i], Seq::empty()) matches Turn::Ask(wish) && wish is Read,
{
    lemma_history(job, runs, replies, i);
    lemma_found_or_not(job, runs, replies, i);
    assert(!(runs[i].stage is Finished));
    if found_change(runs[i]) {
        lemma_has_found_for_good(job, runs, replies, i, runs.len() - 1);
    }
}

proof fn lemma_only_opening_completes(job: Job, run: Run, report: Seq<char>)
    requires
        works(run),
        job.commit_msg is Some,
        create::settled(job, run, report).stage is Finished,
        create::outcome_of(create::settled(job, run, report).stage) matches Ok(Some(_)),
        create::consistent(run),
    ensures
        run.stage is Opening,
        github::create_pr_turn(
            job.path(),
            job.branch(),
            create::message(job),
            run.heard,
        ) matches Turn::Done(Some(_), _),
{
    reveal(create::pass);
    let r1 = create::pass(job, run, report);
    let r2 = create::pass(job, r1, report);
    if create::talk(job, run, report) is Done {
        if !(r1.stage is Reading) && !(r1.stage is Applying) && !(r1.stage is Finished) {
            create::lemma_new_stage(job, r1, report);
        } else if !(r1.stage is Finished) && create::talk(job, r1, report) is Done {
            if !(r2.stage is Applying) {
                create::lemma_new_stage(job, r2, report);
            }
        }
    }
}

/// A run that is to be committed succeeds only with a pull request: its last
/// answer was the address of a new one.
pub proof fn law_success_opens_a_pull_request(job: Job, runs: Seq<Run>, replies: Seq<Reply>)
    requires
        history(job, runs, replies),
        runs.last().stage is Finished,
        create::outcome_of(runs.last().stage) matches Ok(Some(_)),
        job.commit_msg is Some,
    ensures
        replies.len() > 0,
        runs[replies.len() - 1].stage is Opening,
        github::create_pr_turn(
            job.path(),
            job.branch(),
            create::message(job),
            runs[replies.len() - 1].heard.push(replies.last()),
        ) matches Turn::Done(Some(_), _),
{
    let n = replies.len();
    if n == 0 {
        let start = create::fresh();
        let report = choose|report: Seq<char>|
            create::drawn(job, start, report) && create::drawn(
                job,
                create::pass(job, start, report),
                report,
            ) && runs[0] == #[trigger] create::settled(job, start, report);
        lemma_only_opening_completes(job, start, report);
    } else {
        let now = runs[n - 1];
        law_success_rolls_nothing_back(job, runs, replies, n - 1);
        lemma_history(job, runs, replies, n - 1);
        assert(!(now.stage is Finished));
        let heard = Run { heard: now.heard.push(replies[n - 1]), ..now };
        let report = choose|report: Seq<char>|
            create::drawn(job, heard, report) && create::drawn(
                job,
                create::pass(job, heard, report),
                report,
            ) && runs[n as int] == #[trigger] create::settled(job, heard, report);
        lemma_only_opening_completes(job, heard, report);
    }
}

/// The report that a stage knows, if it knows one.
pub open spec fn report_in(stage: StageFacts) -> Option<Seq<char>> {
    match stage {
        StageFacts::Applying { report, .. } => Some(report),
        StageFacts::Staging { report } => Some(report),
        StageFacts::Hooks { report } => Some(report),
        StageFacts::Committing { report } => Some(report),
        StageFacts::Pushing { report } => Some(report),
        StageFacts::FindingPr { report } => Some(report),
        StageFacts::ClosingPr { report, .. } => Some(report),
        StageFacts::Opening { report } => Some(report),
        StageFacts::RollingBack { outcome: Ok(Some(report)) } => Some(report),
        StageFacts::Finished { outcome: Ok(Some(report)) } => Some(report),
        _ => None,
    }
}

/// Whether a report is one on the change to the files, given what they held.
pub open spec fn true_report(job: Job, contents: Seq<ContentFacts>, report: Seq<char>) -> bool {
    contents.len() == job.files().len() && create::reports(job, contents, report)
}

/// Whether the report that a run knows, if it knows one, is one on the change to
/// what its files held.
spec fn tells_the_truth(job: Job, run: Run) -> bool {
    report_in(run.stage) matches Some(report) ==> true_report(job, run.contents, report)
}

/// Whether what a file holds is the answer at `at`, to the request to read the
/// `k`th file.
pub open spec fn read_at(
    job: Job,
    runs: Seq<Run>,
    replies: Seq<Reply>,
    at: int,
    k: int,
    content: ContentFacts,
) -> bool {
    &&& 0 <= at < replies.len()
    &&& runs[at].stage is Reading
    &&& create::talk(job, runs[at], Seq::empty()) == Turn::<create::MoveFacts>::Ask(
        Wish::Read(job.files()[k]),
    )
    &&& content == create::content_said(replies[at])
}

/// Whether what the first files hold are the answers at these places, in this
/// order and before the place `end`, each to the request to read that file.
pub open spec fn read_in_turn(
    job: Job,
    runs: Seq<Run>,
    replies: Seq<Reply>,
    places: Seq<int>,
    contents: Seq<ContentFacts>,
    end: int,
) -> bool {
    &&& places.len() == contents.len()
    &&& forall|k: int|
        0 <= k < places.len() ==> #[trigger] places[k] < end && read_at(
            job,
            runs,
            replies,
            places[k],
            k,
            contents[k],
        )
    &&& forall|j: int, k: int| 0 <= j < k < places.len() ==> places[j] < places[k]
}

/// Whether what the first files hold was answered, before the place `end`, to the
/// requests to read them, one after the other.
pub open spec fn read_off(
    job: Job,
    runs: Seq<Run>,
    replies: Seq<Reply>,
    contents: Seq<ContentFacts>,
    end: int,
) -> bool {
    exists|places: Seq<int>| #[trigger]
        read_in_turn(job, runs, replies, places, contents, end)
}

proof fn lemma_read_one_more(
    job: Job,
    runs: Seq<Run>,
    replies: Seq<Reply>,
    contents: Seq<ContentFacts>,
    at: int,
)
    requires
        read_off(job, runs, replies, contents, at),
        read_at(
            job,
            runs,
            replies,
            at,
            contents.len() as int,
            create::content_said(replies[at]),
        ),
    ensures
        read_off(
            job,
            runs,
            replies,
            contents.push(create::content_said(replies[at])),
            at + 1,
        ),
{
    let places = choose|places: Seq<int>| #[trigger]
        read_in_turn(job, runs, replies, places, contents, at);
    let more = contents.push(create::content_said(replies[at]));
    assert(read_in_turn(job, runs, replies, places.push(at), more, at + 1));
}

proof fn lemma_read_before(
    job: Job,
    runs: Seq<Run>,
    replies: Seq<Reply>,
    contents: Seq<ContentFacts>,
    end: int,
)
    requires
        read_off(job, runs, replies, contents, end),
    ensures
        read_off(job, runs, replies, contents, end + 1),
{
    let places = choose|places: Seq<int>| #[trigger]
        read_in_turn(job, runs, replies, places, contents, end);
    assert(read_in_turn(job, runs, replies, places, contents, end + 1));
}

proof fn lemma_pass_keeps_report(job: Job, run: Run, report: Seq<char>)
    ensures
        ({
            let next = create::pass(job, run, report);
            ||| report_in(next.stage) is None
            ||| report_in(next.stage) == report_in(run.stage) && next.contents == run.contents
            ||| create::report_due(job, run) && report_in(next.stage) == Some(report)
                && next.contents == run.contents
        }),
{
    reveal(create::pass);
}

proof fn lemma_pass_keeps_contents(job: Job, run: Run, report: Seq<char>)
    ensures
        ({
            let next = create::pass(job, run, report);
            ||| next.contents == run.contents
            ||| run.stage is Reading && run.heard.len() > 0 && next.contents == run.contents.push(
                create::content_said(run.heard[0]),
            )
        }),
        create::pass(job, run, report) == run || create::pass(job, run, report).heard.len() == 0,
{
    reveal(create::pass);
}

proof fn lemma_pass_tells_the_truth(job: Job, run: Run, report: Seq<char>)
    requires
        tells_the_truth(job, run),
        create::contents_fit(job, run),
        create::drawn(job, run, report),
    ensures
        tells_the_truth(job, create::pass(job, run, report)),
{
    lemma_pass_keeps_report(job, run, report);
}

proof fn lemma_not_due_twice(job: Job, run: Run, report: Seq<char>)
    requires
        create::consistent(run),
        !(run.stage is Finished),
    ensures
        ({
            let r1 = create::pass(job, run, report);
            !create::report_due(job, create::pass(job, r1, report))
        }),
{
    reveal(create::pass);
    let r1 = create::pass(job, run, report);
    if create::talk(job, run, report) is Done && works(r1) && !(r1.stage is Reading) && !(
    r1.stage is Applying) {
        create::lemma_new_stage(job, r1, report);
    }
}

proof fn lemma_settled_tells_the_truth(job: Job, run: Run, report: Seq<char>)
    requires
        tells_the_truth(job, run),
        lawful(job, run),
        !(run.stage is Finished),
        create::drawn(job, run, report),
        create::drawn(job, create::pass(job, run, report), report),
    ensures
        tells_the_truth(job, create::settled(job, run, report)),
{
    let r1 = create::pass(job, run, report);
    let r2 = create::pass(job, r1, report);
    lemma_pass_is_lawful(job, run, report);
    lemma_pass_tells_the_truth(job, run, report);
    lemma_pass_tells_the_truth(job, r1, report);
    lemma_not_due_twice(job, run, report);
    if r1.stage is Finished {
        lemma_finished_stays(job, r1, report);
    } else {
        lemma_pass_is_lawful(job, r1, report);
    }
    lemma_pass_tells_the_truth(job, r2, report);
}

proof fn lemma_finished_stays(job: Job, run: Run, report: Seq<char>)
    requires
        run.stage is Finished,
    ensures
        create::pass(job, run, report) == run,
{
    reveal(create::pass);
}

proof fn lemma_settled_keeps_contents(job: Job, run: Run, report: Seq<char>)
    ensures
        ({
            let next = create::settled(job, run, report);
            ||| next.contents == run.contents
            ||| run.stage is Reading && run.heard.len() > 0 && next.contents == run.contents.push(
                create::content_said(run.heard[0]),
            )
        }),
{
    let r1 = create::pass(job, run, report);
    let r2 = create::pass(job, r1, report);
    lemma_pass_keeps_contents(job, run, report);
    lemma_pass_keeps_contents(job, r1, report);
    lemma_pass_keeps_contents(job, r2, report);
}

proof fn lemma_hearing_tells_the_truth(job: Job, now: Run, reply: Reply, next: Run)
    requires
        tells_the_truth(job, now),
        lawful(job, now),
        !(now.stage is Finished),
        create::hears(job, now, reply, next),
    ensures
        tells_the_truth(job, next),
        ({
            ||| next.contents == now.contents
            ||| now.stage is Reading && next.contents == now.contents.push(
                create::content_said(now.heard.push(reply)[0]),
            )
        }),
{
    let heard = Run { heard: now.heard.push(reply), ..now };
    let report = choose|report: Seq<char>|
        create::drawn(job, heard, report) && create::drawn(
            job,
            create::pass(job, heard, report),
            report,
        ) && next == #[trigger] create::settled(job, heard, report);
    lemma_settled_tells_the_truth(job, heard, report);
    lemma_settled_keeps_contents(job, heard, report);
}

proof fn lemma_reading_asks(job: Job, run: Run)
    requires
        create::waits(job, run),
        run.stage is Reading,
    ensures
        run.heard.len() == 0,
        create::talk(job, run, Seq::empty()) == Turn::<create::MoveFacts>::Ask(
            Wish::Read(job.files()[run.contents.len() as int]),
        ),
{
}

proof fn lemma_history_tells_the_truth(job: Job, runs: Seq<Run>, replies: Seq<Reply>, i: int)
    requires
        history(job, runs, replies),
        0 <= i < runs.len(),
    ensures
        tells_the_truth(job, runs[i]),
        read_off(job, runs, replies, runs[i].contents, i),
    decreases i,
{
    if i == 0 {
        let start = create::fresh();
        let report = choose|report: Seq<char>|
            create::drawn(job, start, report) && create::drawn(
                job,
                create::pass(job, start, report),
                report,
            ) && runs[0] == #[trigger] create::settled(job, start, report);
        lemma_settled_tells_the_truth(job, start, report);
        lemma_settled_keeps_contents(job, start, report);
        assert(read_in_turn(job, runs, replies, Seq::empty(), start.contents, 0));
    } else {
        let now = runs[i - 1];
        lemma_history_tells_the_truth(job, runs, replies, i - 1);
        lemma_history(job, runs, replies, i - 1);
        assert(!(now.stage is Finished));
        lemma_hearing_tells_the_truth(job, now, replies[i - 1], runs[i]);
        lemma_read_before(job, runs, replies, now.contents, i - 1);
        if now.stage is Reading {
            lemma_reading_asks(job, now);
            lemma_read_one_more(job, runs, replies, now.contents, i - 1);
        }
    }
}

/// A run that succeeds comes back with a report on the change that it has made,
/// or would have made, to what the files held when they were read. Each of them was
/// read after all that was done to those before it.
pub proof fn law_success_reports_the_change(
    job: Job,
    runs: Seq<Run>,
    replies: Seq<Reply>,
    report: Seq<char>,
)
    requires
        history(job, runs, replies),
        runs.last().stage is Finished,
        create::outcome_of(runs.last().stage) == Ok::<Option<Seq<char>>, Seq<char>>(Some(report)),
    ensures
        true_report(job, runs.last().contents, report),
        read_off(job, runs, replies, runs.last().contents, replies.len() as int),
{
    lemma_history_tells_the_truth(job, runs, replies, runs.len() - 1);
}

/// Where a substitution makes something else of a file that has just been read, the
/// file is written before anything else is done.
pub proof fn law_substitutions_are_written_at_once(
    job: Job,
    now: Run,
    reply: Reply,
    next: Run,
    text: Seq<char>,
)
    requires
        now.stage is Reading,
        create::waits(job, now),
        create::hears(job, now, reply, next),
        create::rewritten(job, create::content_said(reply)) == Some(text),
    ensures
        create::talk(job, next, Seq::empty()) == Turn::<create::MoveFacts>::Ask(
            Wish::Write(job.files()[now.contents.len() as int], text),
        ),
{
    reveal(create::pass);
    let heard = Run { heard: now.heard.push(reply), ..now };
    let report = choose|report: Seq<char>|
        create::drawn(job, heard, report) && create::drawn(
            job,
            create::pass(job, heard, report),
            report,
        ) && next == #[trigger] create::settled(job, heard, report);
    lemma_reading_asks(job, now);
    let r1 = create::pass(job, heard, report);
    assert(r1.stage == (StageFacts::Rewriting {
        file: job.files()[now.contents.len() as int],
        text,
    }));
    assert(create::pass(job, r1, report) == r1);
}

// ---------------------------------------------------------------------------
// Runs come to an end
// ---------------------------------------------------------------------------

/// How many answers a stage can take, and those that it is taken up again for.
pub open spec fn budget(job: Job, run: Run) -> int {
    let files = job.files().len() as int;
    let unread = files - run.contents.len();
    match run.stage {
        StageFacts::Drafting => files,
        StageFacts::FindingHead => 3,
        StageFacts::Reading => 2 * unread,
        StageFacts::Rewriting { .. } => 2 * unread + 1,
        StageFacts::Applying { .. } => files + 2,
        StageFacts::Hooks { .. } => 5,
        _ => 1,
    }
}

/// How many answers the stages after this one can take.
pub open spec fn rest(job: Job, stage: StageFacts) -> nat {
    let files = job.files().len();
    match stage {
        StageFacts::Drafting => 3 * files + 31,
        StageFacts::Untracked => 3 * files + 30,
        StageFacts::Modified => 3 * files + 29,
        StageFacts::Stashing => 3 * files + 28,
        StageFacts::FindingHead => 3 * files + 25,
        StageFacts::FindingBranch { .. } => 3 * files + 24,
        StageFacts::Switching { .. } => 3 * files + 23,
        StageFacts::FindingBase => 3 * files + 22,
        StageFacts::Pulling { .. } => 3 * files + 21,
        StageFacts::LocalCheck => 3 * files + 20,
        StageFacts::LocalCommit => 3 * files + 19,
        StageFacts::LocalDelete { .. } => 3 * files + 18,
        StageFacts::RemoteCheck => 3 * files + 17,
        StageFacts::FindingOldPr { .. } => 3 * files + 16,
        StageFacts::RemoteDelete { .. } => 3 * files + 15,
        StageFacts::FindingOrigin => 3 * files + 14,
        StageFacts::Branching { .. } => 3 * files + 13,
        StageFacts::Reading => files + 13,
        StageFacts::Rewriting { .. } => files + 13,
        StageFacts::Applying { .. } => 11,
        StageFacts::Staging { .. } => 10,
        StageFacts::Hooks { .. } => 5,
        StageFacts::Committing { .. } => 4,
        StageFacts::Pushing { .. } => 3,
        StageFacts::FindingPr { .. } => 2,
        StageFacts::ClosingPr { .. } => 1,
        _ => 0,
    }
}

/// How many answers a run can still take.
pub open spec fn most_answers(job: Job, run: Run) -> int {
    match run.stage {
        StageFacts::Finished { .. } => 0,
        StageFacts::RollingBack { .. } => run.undo.len() as int,
        _ => budget(job, run) - run.heard.len() + rest(job, run.stage) + 13,
    }
}

proof fn lemma_stage_goes_on(job: Job, run: Run)
    requires
        lawful(job, run),
        works(run),
        create::talk(job, run, Seq::empty()) is Ask,
    ensures
        run.heard.len() < budget(job, run),
        run.stage is Reading || run.stage is Rewriting ==> run.heard.len() == 0,
{
    match run.stage {
        StageFacts::Hooks { .. } => {
            hooks::law_never_more_than_max_retry(job.path(), 2, run.heard);
        },
        StageFacts::FindingHead => {
            lemma_head_is_found(job.path(), run.heard);
        },
        _ => {},
    }
}

proof fn lemma_head_is_found(path: Seq<char>, heard: Seq<Reply>)
    requires
        git::get_head_branch_turn(path, heard) is Ask,
    ensures
        heard.len() < 3,
{
    reveal_with_fuel(git::common_branch_turn, 3);
    let names = seq!["main"@, "master"@];
    assert(names.drop_first() =~= seq!["master"@]);
    assert(names.drop_first().drop_first() =~= Seq::empty());
}

proof fn lemma_pass_takes_nothing(job: Job, run: Run, report: Seq<char>)
    requires
        lawful(job, run),
        works(run),
        run.heard.len() <= budget(job, run),
        run.stage is Reading || run.stage is Rewriting ==> run.heard.len() <= 1,
        create::talk(job, run, report) is Done,
    ensures
        most_answers(job, create::pass(job, run, report)) <= most_answers(job, run),
        create::pass(job, run, report).heard.len() == 0,
{
    reveal(create::pass);
    let next = create::pass(job, run, report);
    if next.stage is RollingBack {
        assert(run.undo.len() <= 13);
    }
}

proof fn lemma_asking_stays(job: Job, run: Run, report: Seq<char>)
    requires
        create::talk(job, run, report) is Ask,
    ensures
        create::pass(job, run, report) == run,
{
    reveal(create::pass);
}

proof fn lemma_rolling_waits(job: Job, run: Run, report: Seq<char>)
    requires
        create::consistent(run),
        run.heard.len() == 0,
        run.stage is RollingBack,
    ensures
        create::pass(job, run, report) == run,
{
    create::lemma_new_stage(job, run, report);
    lemma_asking_stays(job, run, report);
}

/// A pass over a run that has just left a stage takes no answers.
proof fn lemma_next_pass_takes_nothing(job: Job, run: Run, report: Seq<char>)
    requires
        lawful(job, run),
        run.heard.len() == 0,
    ensures
        lawful(job, create::pass(job, run, report)),
        create::pass(job, run, report).heard.len() == 0,
        most_answers(job, create::pass(job, run, report)) <= most_answers(job, run),
{
    if run.stage is Finished {
        lemma_finished_stays(job, run, report);
    } else if run.stage is RollingBack {
        lemma_rolling_waits(job, run, report);
    } else if create::talk(job, run, report) is Ask {
        lemma_asking_stays(job, run, report);
    } else {
        lemma_pass_is_lawful(job, run, report);
        lemma_pass_takes_nothing(job, run, report);
    }
}

proof fn lemma_settled_takes_nothing(job: Job, run: Run, report: Seq<char>)
    requires
        lawful(job, run),
        works(run),
        run.heard.len() <= budget(job, run),
        run.stage is Reading || run.stage is Rewriting ==> run.heard.len() <= 1,
    ensures
        most_answers(job, create::settled(job, run, report)) <= most_answers(job, run),
{
    if create::talk(job, run, report) is Ask {
        lemma_asking_stays(job, run, report);
    } else {
        let r1 = create::pass(job, run, report);
        lemma_pass_is_lawful(job, run, report);
        lemma_pass_takes_nothing(job, run, report);
        lemma_next_pass_takes_nothing(job, r1, report);
        lemma_next_pass_takes_nothing(job, create::pass(job, r1, report), report);
    }
}

proof fn lemma_hearing_takes_one(job: Job, now: Run, reply: Reply, next: Run)
    requires
        lawful(job, now),
        create::waits(job, now),
        !(now.stage is Finished),
        create::hears(job, now, reply, next),
    ensures
        most_answers(job, next) <= most_answers(job, now) - 1,
{
    let heard = Run { heard: now.heard.push(reply), ..now };
    let report = choose|report: Seq<char>|
        create::drawn(job, heard, report) && create::drawn(
            job,
            create::pass(job, heard, report),
            report,
        ) && next == #[trigger] create::settled(job, heard, report);
    if now.stage is RollingBack {
        assert(now.heard =~= Seq::empty());
        law_rollback_undoes_the_latest(job, now, report, reply);
        let r1 = create::pass(job, heard, report);
        lemma_pass_is_lawful(job, heard, report);
        lemma_pass_moves(job, heard, report);
        lemma_next_pass_takes_nothing(job, r1, report);
        lemma_next_pass_takes_nothing(job, create::pass(job, r1, report), report);
    } else {
        lemma_stage_goes_on(job, now);
        lemma_settled_takes_nothing(job, heard, report);
    }
}

proof fn lemma_history_takes(job: Job, runs: Seq<Run>, replies: Seq<Reply>, i: int)
    requires
        history(job, runs, replies),
        0 <= i < runs.len(),
    ensures
        most_answers(job, runs[i]) <= 4 * job.files().len() + 44 - i,
    decreases i,
{
    if i == 0 {
        let start = create::fresh();
        let report = choose|report: Seq<char>|
            create::drawn(job, start, report) && create::drawn(
                job,
                create::pass(job, start, report),
                report,
            ) && runs[0] == #[trigger] create::settled(job, start, report);
        lemma_settled_takes_nothing(job, start, report);
    } else {
        lemma_history_takes(job, runs, replies, i - 1);
        lemma_history(job, runs, replies, i - 1);
        assert(!(runs[i - 1].stage is Finished));
        lemma_hearing_takes_one(job, runs[i - 1], replies[i - 1], runs[i]);
    }
}

/// A run comes to its end: it takes at most four answers for each file, and 44
/// more.
pub proof fn law_runs_end(job: Job, runs: Seq<Run>, replies: Seq<Reply>)
    requires
        history(job, runs, replies),
    ensures
        replies.len() <= 4 * job.files().len() + 44,
{
    let last = runs.len() - 1;
    lemma_history_takes(job, runs, replies, last);
    lemma_history(job, runs, replies, last);
    if works(runs[last]) {
        lemma_stage_goes_on(job, runs[last]);
    }
}

} // verus!
