//! What holds of the commands as a whole.
use crate::cli::ReviewAction;
use crate::commands;
use crate::commands::{Discovered, ReviewNews, ReviewStageFacts};
use crate::github;
use crate::order;
use crate::paths;
use crate::repo;
use crate::repo::{ChangeFacts, RepoFacts};
use crate::sandbox;
use crate::select;
use crate::text;
use vstd::prelude::*;

verus! {

// ---------------------------------------------------------------------------
// Creating
// ---------------------------------------------------------------------------

/// Whether a repository is a clone below a root, with the files that were found in it,
/// sorted and each once, and with the change that is to be made.
pub open spec fn is_made_of(
    made: RepoFacts,
    clone: Discovered,
    root: Seq<char>,
    change: Option<ChangeFacts>,
    change_id: Seq<char>,
) -> bool {
    &&& paths::relative(clone.path@, root) == Some(made.reposlug)
    &&& made.change == change
    &&& made.change_id == change_id
    &&& made.pr_number == 0
    &&& order::rising(made.files)
    &&& repo::all_found(clone.path@, clone.found@) matches Some(files) && forall|file: Seq<char>|
        #[trigger] made.files.contains(file) <==> files.contains(file)
}

proof fn lemma_made(
    made: RepoFacts,
    clone: Discovered,
    root: Seq<char>,
    change: Option<ChangeFacts>,
    change_id: Seq<char>,
)
    requires
        commands::taken_up(clone, root),
        commands::stands_for(made, clone, root, change, change_id),
    ensures
        is_made_of(made, clone, root, change, change_id),
{
    let files = repo::all_found(clone.path@, clone.found@).unwrap();
    assert forall|file: Seq<char>| #[trigger] made.files.contains(file) <==> files.contains(
        file,
    ) by {
        assert(made.files.to_set().contains(file) <==> files.to_set().contains(file));
    }
}

/// Every repository that is taken up is made of a clone, and every clone that lies below
/// the root, and in which no pattern failed, is made a repository of.
pub proof fn law_clones_become_repositories(
    repos: Seq<RepoFacts>,
    clones: Seq<Discovered>,
    root: Seq<char>,
    change: Option<ChangeFacts>,
    change_id: Seq<char>,
    i: int,
)
    requires
        commands::all_taken_up(repos, clones, root, change, change_id),
    ensures
        repos.len() <= clones.len(),
        0 <= i < repos.len() ==> exists|k: int|
            0 <= k < clones.len() && is_made_of(
                repos[i],
                #[trigger] clones[k],
                root,
                change,
                change_id,
            ),
        0 <= i < clones.len() && paths::relative(clones[i].path@, root) is Some && repo::all_found(
            clones[i].path@,
            clones[i].found@,
        ) is Some ==> exists|k: int|
            0 <= k < repos.len() && is_made_of(
                #[trigger] repos[k],
                clones[i],
                root,
                change,
                change_id,
            ),
    decreases clones.len(),
{
    if clones.len() > 0 {
        let front = clones.drop_last();
        let last = clones.len() - 1;
        if commands::taken_up(clones.last(), root) {
            let before = repos.drop_last();
            lemma_made(repos.last(), clones.last(), root, change, change_id);
            law_clones_become_repositories(before, front, root, change, change_id, i);
            if 0 <= i < repos.len() {
                if i < before.len() {
                    assert(before[i] == repos[i]);
                    let k = choose|k: int|
                        0 <= k < front.len() && is_made_of(
                            before[i],
                            #[trigger] front[k],
                            root,
                            change,
                            change_id,
                        );
                    assert(clones[k] == front[k]);
                } else {
                    assert(is_made_of(repos[i], clones[last], root, change, change_id));
                }
            }
            if 0 <= i < clones.len() && commands::taken_up(clones[i], root) {
                if i < last {
                    assert(front[i] == clones[i]);
                    let k = choose|k: int|
                        0 <= k < before.len() && is_made_of(
                            #[trigger] before[k],
                            front[i],
                            root,
                            change,
                            change_id,
                        );
                    assert(repos[k] == before[k]);
                } else {
                    assert(is_made_of(repos[repos.len() - 1], clones[i], root, change, change_id));
                }
            }
        } else {
            law_clones_become_repositories(repos, front, root, change, change_id, i);
            if 0 <= i < repos.len() {
                let k = choose|k: int|
                    0 <= k < front.len() && is_made_of(
                        repos[i],
                        #[trigger] front[k],
                        root,
                        change,
                        change_id,
                    );
                assert(clones[k] == front[k]);
            }
            if i < last && 0 <= i {
                assert(front[i] == clones[i]);
            }
        }
    }
}

// ---------------------------------------------------------------------------
// Reviewing
// ---------------------------------------------------------------------------

/// Whether a review is told of the repositories themselves, one by one, after any
/// summary.
pub open spec fn tells_one_by_one(action: ReviewAction) -> bool {
    match action {
        ReviewAction::Ls { .. } => true,
        ReviewAction::Clone { .. } => true,
        _ => false,
    }
}

/// A review that cannot be told of the repositories fails. Else it asks for the pull
/// requests of those that its patterns pick, unless it is a purge.
pub proof fn law_reviews_start_with_the_repositories(
    next: (ReviewStageFacts, Seq<Seq<char>>),
    action: ReviewAction,
    ptns: Seq<Seq<char>>,
    news: ReviewNews,
)
    requires
        commands::follows(next, action, ptns, ReviewStageFacts::Listing, news),
    ensures
        news matches ReviewNews::Repos(Err(e)) ==> next.0 == (ReviewStageFacts::Over {
            result: Err(e@),
        }) && next.1.len() == 0,
        news matches ReviewNews::Repos(Ok(slugs)) ==> (!(action is Purge) ==> (next.0
            matches ReviewStageFacts::Asking { slugs: kept } && select::is_filtering(
            kept,
            text::views(slugs@),
            ptns,
        )) && next.1.len() == 0),
        news matches ReviewNews::Repos(Ok(slugs)) ==> !(next.0 matches ReviewStageFacts::Over {
            result: Err(_),
        }),
{
}

/// The repositories that a review goes on with.
pub open spec fn targets_of(stage: ReviewStageFacts) -> Option<Seq<RepoFacts>> {
    match stage {
        ReviewStageFacts::Summing { repos } => Some(repos),
        ReviewStageFacts::Working { repos } => Some(repos),
        _ => None,
    }
}

/// Once the pull requests are known, a review that is about none of them says so and is
/// over. A listing, and the clone of a single repository, goes to work at once on those
/// that it is about. Any other review starts with a summary.
pub proof fn law_reviews_go_on_with_their_targets(
    next: (ReviewStageFacts, Seq<Seq<char>>),
    action: ReviewAction,
    ptns: Seq<Seq<char>>,
    slugs: Seq<Seq<char>>,
    news: ReviewNews,
)
    requires
        commands::follows(next, action, ptns, ReviewStageFacts::Asking { slugs }, news),
    ensures
        news matches ReviewNews::Answers(answers) && ({
            let targets = select::review_targets(
                action,
                github::grouped(github::all_titled(slugs, answers@)),
                slugs,
            );
            &&& targets.len() == 0 ==> next == (
                ReviewStageFacts::Over { result: Ok(()) },
                seq!["No repositories with matching PRs found."@],
            )
            &&& targets.len() > 0 ==> targets_of(next.0) == Some(targets)
            &&& targets.len() > 0 && action is Ls ==> next.0 is Working && next.1.len() == 0
            &&& targets.len() == 1 && action is Clone ==> next.0 is Working && next.1.len() == 0
            &&& targets.len() > 1 && action is Clone ==> next.0 is Summing
            &&& targets.len() > 0 && (action is Approve || action is Delete) ==> next.0 is Summing
            &&& next.0 is Summing ==> next.1 == seq!["Summary:"@]
        }),
{
}

/// A summary has a line on each repository, behind two blanks: what was said of it, or
/// its error. An empty line ends it. Only a clone goes on from there, with the same
/// repositories.
pub proof fn law_summaries_tell_of_each_repository(
    next: (ReviewStageFacts, Seq<Seq<char>>),
    action: ReviewAction,
    ptns: Seq<Seq<char>>,
    repos: Seq<RepoFacts>,
    news: ReviewNews,
    i: int,
)
    requires
        commands::follows(next, action, ptns, ReviewStageFacts::Summing { repos }, news),
    ensures
        tells_one_by_one(action) ==> next.0 == (ReviewStageFacts::Working { repos }),
        !tells_one_by_one(action) ==> next.0 == (ReviewStageFacts::Over { result: Ok(()) }),
        news matches ReviewNews::Said(said) && ({
            &&& next.1.len() == said@.len() + 1
            &&& next.1.last().len() == 0
            &&& 0 <= i < said@.len() ==> next.1[i] == match said@[i] {
                Ok(words) => seq![' ', ' '] + words@,
                Err(e) => seq![' ', ' '] + "Error: "@ + e@,
            }
        }),
{
    reveal_strlit("  ");
    reveal_strlit("");
    assert("  "@ =~= seq![' ', ' ']);
    if let ReviewNews::Said(said) = news {
        if 0 <= i < said@.len() {
            if let Err(e) = said@[i] {
                assert("  "@ + ("Error: "@ + e@) =~= seq![' ', ' '] + "Error: "@ + e@);
            }
        }
    }
}

/// What was said of each repository is told, or its error along with its slug; and then
/// the review is over.
pub proof fn law_reviews_tell_of_each_repository(
    next: (ReviewStageFacts, Seq<Seq<char>>),
    action: ReviewAction,
    ptns: Seq<Seq<char>>,
    repos: Seq<RepoFacts>,
    news: ReviewNews,
    i: int,
)
    requires
        commands::follows(next, action, ptns, ReviewStageFacts::Working { repos }, news),
    ensures
        next.0 == (ReviewStageFacts::Over { result: Ok(()) }),
        news matches ReviewNews::Said(said) && ({
            &&& next.1.len() == said@.len() + (if action is Clone {
                1int
            } else {
                0
            })
            &&& 0 <= i < said@.len() ==> next.1[i] == match said@[i] {
                Ok(words) => words@,
                Err(e) => "Error processing "@ + repos[i].reposlug + ": "@ + e@,
            }
        }),
{
}

/// What an error is told with: first the error itself, and then advice. An answer of
/// GitHub that cannot be read, and a repository that cannot be had, have their own.
pub proof fn law_errors_come_with_advice(error: Seq<char>)
    ensures
        select::advice_text(error)[0] == "Error: "@ + error,
        select::advice_text(error).len() > 2,
        text::holds(error, "Failed to parse open PRs JSON"@) || text::holds(
            error,
            "invalid type: map, expected u64"@,
        ) ==> select::advice_text(error)[2]
            == "💡 This appears to be a JSON parsing issue. To troubleshoot:"@,
        !text::holds(error, "Failed to parse open PRs JSON"@) && !text::holds(
            error,
            "invalid type: map, expected u64"@,
        ) ==> {
            let access = text::holds(error, "Failed to list open PRs"@) || text::holds(
                error,
                "Failed to list remote branches"@,
            );
            &&& access ==> select::advice_text(error)[2]
                == "💡 This appears to be a GitHub CLI or repository access issue:"@
            &&& !access ==> select::advice_text(error)[2]
                == "💡 For detailed troubleshooting information, run with debug logging:"@
        },
{
}

// ---------------------------------------------------------------------------
// The sandbox
// ---------------------------------------------------------------------------

/// The line on a clone names its branch, at least six characters wide, its commit, how
/// it stands with the hooks, and its slug, with a blank between each two. The branch
/// shows in magenta, and the commit in bold green if it is new and else dimmed.
pub proof fn law_clones_are_told_of_in_a_line(
    branch: Seq<char>,
    sha: Seq<char>,
    hooks: Seq<char>,
    slug: Seq<char>,
)
    ensures
        sandbox::status_line(branch, sha, hooks, slug) == branch + seq![' '] + sha + seq![' ']
            + hooks + seq![' '] + slug,
        sandbox::sha_tone(true) is BoldGreen,
        sandbox::sha_tone(false) is Dimmed,
{
    reveal_strlit(" ");
    assert(" "@ =~= seq![' ']);
}

/// A commit is told of by its first seven characters, if they are ASCII.
pub proof fn law_commits_are_told_of_in_short(sha: Seq<char>)
    requires
        forall|k: int| 0 <= k < sha.len() && k < 7 ==> (#[trigger] sha[k] as u32) < 128,
    ensures
        sha.len() >= 7 ==> sandbox::short_sha(sha) == Some(sha.take(7)),
        sha.len() < 7 ==> sandbox::short_sha(sha) is None,
{
    let n: int = if sha.len() < 7 {
        sha.len() as int
    } else {
        7
    };
    lemma_size(sha, n);
    if sha.len() >= 7 {
        assert(sandbox::cut_at(sha, 7));
        let m = choose|m: int| #[trigger] sandbox::cut_at(sha, m);
        sandbox::lemma_one_cut(sha, m, 7);
    } else {
        assert forall|m: int| !#[trigger] sandbox::cut_at(sha, m) by {
            if sandbox::cut_at(sha, m) {
                lemma_size(sha, m);
            }
        }
    }
}

proof fn lemma_size(s: Seq<char>, n: int)
    requires
        0 <= n <= s.len(),
        n <= 7,
        forall|k: int| 0 <= k < s.len() && k < 7 ==> (#[trigger] s[k] as u32) < 128,
    ensures
        sandbox::size(s.take(n)) == n,
    decreases n,
{
    if n > 0 {
        assert(s.take(n).drop_last() =~= s.take(n - 1));
        let last = s[n - 1];
        assert((last as u32) < 128);
        assert(s.take(n).last() == last);
        assert(sandbox::width(last) == 1);
        lemma_size(s, n - 1);
    }
}

} // verus!
