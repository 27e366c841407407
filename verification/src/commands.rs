//! The commands as a whole: what is to be done next, and what there is to say.
use crate::cli::ReviewAction;
use crate::command::{Reply, Request};
use crate::github;
use crate::github::{get_prs_for_repos, pr_list_request};
use crate::order;
use crate::paths;
use crate::repo;
use crate::repo::{Change, ChangeFacts, Found, Repo, RepoFacts};
use crate::select;
use crate::select::{
    asks_for_closed, filter_slugs, list_selection, needs_prs, output_of, review_rounds,
    select_repos, select_targets, summary_of, Selection,
};
use crate::text;
use crate::text::owned;
use vstd::prelude::*;

verus! {

// ---------------------------------------------------------------------------
// Creating
// ---------------------------------------------------------------------------

/// A clone, with what each of the file patterns finds in it.
#[derive(Debug)]
pub struct Discovered {
    pub path: String,
    pub found: Vec<Found>,
}

/// Whether a clone is taken up: it lies below the root, and no pattern has
/// failed.
pub open spec fn taken_up(clone: Discovered, root: Seq<char>) -> bool {
    &&& paths::relative(clone.path@, root) is Some
    &&& repo::all_found(clone.path@, clone.found@) is Some
}

/// Whether a repository is the one that a clone is taken up as.
pub open spec fn stands_for(
    made: RepoFacts,
    clone: Discovered,
    root: Seq<char>,
    change: Option<ChangeFacts>,
    change_id: Seq<char>,
) -> bool {
    &&& paths::relative(clone.path@, root) == Some(made.reposlug)
    &&& made.change_id == change_id
    &&& made.change == change
    &&& made.pr_number == 0
    &&& order::rising(made.files)
    &&& made.files.to_set() == repo::all_found(clone.path@, clone.found@).unwrap().to_set()
}

/// Whether repositories are those that clones are taken up as, in their order.
pub open spec fn all_taken_up(
    repos: Seq<RepoFacts>,
    clones: Seq<Discovered>,
    root: Seq<char>,
    change: Option<ChangeFacts>,
    change_id: Seq<char>,
) -> bool
    decreases clones.len(),
{
    if clones.len() == 0 {
        repos.len() == 0
    } else if taken_up(clones.last(), root) {
        &&& repos.len() > 0
        &&& stands_for(repos.last(), clones.last(), root, change, change_id)
        &&& all_taken_up(repos.drop_last(), clones.drop_last(), root, change, change_id)
    } else {
        all_taken_up(repos, clones.drop_last(), root, change, change_id)
    }
}

/// What a command to create does with the repositories it has selected.
pub enum CreatePlan {
    /// No change was asked for: this is said of them, line by line.
    Listing(Vec<String>),
    /// The change is made to each of them.
    Work(Selection),
}

/// Whether lines list the selection from these repositories.
pub open spec fn lists(
    lines: Seq<Seq<char>>,
    repos: Seq<RepoFacts>,
    ptns: Seq<Seq<char>>,
    files_given: bool,
) -> bool {
    exists|s: Selection|
        select::selects(s, repos, ptns, files_given, false) && lines == #[trigger] select::listing(
            select::repos_facts(s.repos@),
            s.status@,
            files_given,
        )
}

/// Whether a plan is the one for these repositories.
pub open spec fn plans(
    plan: CreatePlan,
    repos: Seq<RepoFacts>,
    ptns: Seq<Seq<char>>,
    files_given: bool,
    change_given: bool,
) -> bool {
    match plan {
        CreatePlan::Listing(lines) => !change_given && lists(
            text::views(lines@),
            repos,
            ptns,
            files_given,
        ),
        CreatePlan::Work(s) => change_given && select::selects(
            s,
            repos,
            ptns,
            files_given,
            true,
        ),
    }
}

/// Takes up clones as repositories.
fn take_up(
    clones: &Vec<Discovered>,
    root: &str,
    change: &Option<Change>,
    change_id: &str,
) -> (repos: Vec<Repo>)
    ensures
        all_taken_up(
            select::repos_facts(repos@),
            clones@,
            root@,
            repo::change_facts(*change),
            change_id@,
        ),
{
    let ghost wanted = repo::change_facts(*change);
    let mut repos: Vec<Repo> = Vec::new();
    let mut i: usize = 0;
    while i < clones.len()
        invariant
            i <= clones@.len(),
            wanted == repo::change_facts(*change),
            all_taken_up(
                select::repos_facts(repos@),
                clones@.take(i as int),
                root@,
                wanted,
                change_id@,
            ),
        decreases clones@.len() - i,
    {
        let clone = &clones[i];
        assert(clones@.take(i + 1).drop_last() =~= clones@.take(i as int));
        let ghost before = select::repos_facts(repos@);
        match Repo::create_repo_from_local(&clone.path, root, change, &clone.found, change_id) {
            Some(made) => {
                repos.push(made);
                assert(select::repos_facts(repos@).drop_last() =~= before);
                assert(select::repos_facts(repos@).last() == made@);
            },
            None => {},
        }
        i += 1;
    }
    assert(clones@.take(i as int) =~= clones@);
    repos
}

/// What a command to create does with the clones below the root: without a
/// change it lists those that it selects, and else it makes the change to each of
/// them.
pub fn process_create_command(
    files_given: bool,
    change_id: &str,
    repo_ptns: &Vec<String>,
    change: &Option<Change>,
    root: &str,
    clones: &Vec<Discovered>,
) -> (plan: CreatePlan)
    ensures
        exists|repos: Seq<RepoFacts>|
            all_taken_up(repos, clones@, root@, repo::change_facts(*change), change_id@)
                && #[trigger] plans(
                plan,
                repos,
                text::views(repo_ptns@),
                files_given,
                change is Some,
            ),
{
    let discovered = take_up(clones, root, change, change_id);
    let ghost repos = select::repos_facts(discovered@);
    let ghost ptns = text::views(repo_ptns@);
    let plan = match change {
        None => {
            let s = select_repos(discovered, repo_ptns, files_given, false);
            let lines = list_selection(&s, files_given);
            assert(text::views(lines@) == select::listing(
                select::repos_facts(s.repos@),
                s.status@,
                files_given,
            ));
            CreatePlan::Listing(lines)
        },
        Some(_) => CreatePlan::Work(select_repos(discovered, repo_ptns, files_given, true)),
    };
    assert(plans(plan, repos, ptns, files_given, change is Some));
    plan
}

// ---------------------------------------------------------------------------
// Reviewing
// ---------------------------------------------------------------------------

/// Where a command to review stands: what it waits for.
#[derive(Debug)]
pub enum ReviewStage {
    /// The repositories of the organisation.
    Listing,
    /// An answer to the request for the pull requests of each repository.
    Asking { slugs: Vec<String> },
    /// A summary of the review of each repository.
    Summing { repos: Vec<Repo> },
    /// The review of each repository.
    Working { repos: Vec<Repo> },
    /// Nothing any more.
    Over { result: Result<(), String> },
}

/// What a `ReviewStage` says.
#[verifier::ext_equal]
pub enum ReviewStageFacts {
    Listing,
    Asking { slugs: Seq<Seq<char>> },
    Summing { repos: Seq<RepoFacts> },
    Working { repos: Seq<RepoFacts> },
    Over { result: Result<(), Seq<char>> },
}

impl View for ReviewStage {
    type V = ReviewStageFacts;

    open spec fn view(&self) -> ReviewStageFacts {
        match self {
            ReviewStage::Listing => ReviewStageFacts::Listing,
            ReviewStage::Asking { slugs } => ReviewStageFacts::Asking { slugs: text::views(slugs@) },
            ReviewStage::Summing { repos } => ReviewStageFacts::Summing {
                repos: select::repos_facts(repos@),
            },
            ReviewStage::Working { repos } => ReviewStageFacts::Working {
                repos: select::repos_facts(repos@),
            },
            ReviewStage::Over { result } => ReviewStageFacts::Over {
                result: match *result {
                    Ok(_) => Ok(()),
                    Err(e) => Err(e@),
                },
            },
        }
    }
}

/// What a command to review hears.
#[derive(Debug)]
pub enum ReviewNews {
    /// The repositories of the organisation, or why they cannot be told.
    Repos(Result<Vec<String>, String>),
    /// The answers to the requests for pull requests.
    Answers(Vec<Reply>),
    /// What was said of each repository.
    Said(Vec<Result<String, String>>),
}

/// Whether this is what a command to review waits for.
pub open spec fn awaited(stage: ReviewStageFacts, news: ReviewNews) -> bool {
    match (stage, news) {
        (ReviewStageFacts::Listing, ReviewNews::Repos(_)) => true,
        (ReviewStageFacts::Asking { slugs }, ReviewNews::Answers(answers)) => answers@.len()
            == slugs.len(),
        (ReviewStageFacts::Summing { repos }, ReviewNews::Said(said)) => said@.len() == repos.len(),
        (ReviewStageFacts::Working { repos }, ReviewNews::Said(said)) => said@.len() == repos.len(),
        _ => false,
    }
}

/// The end of a command to review.
pub open spec fn over() -> ReviewStageFacts {
    ReviewStageFacts::Over { result: Ok(()) }
}

/// What comes when there is nothing left to be summed up.
pub open spec fn at_work(action: ReviewAction, repos: Seq<RepoFacts>) -> ReviewStageFacts {
    if action is Ls || action is Clone {
        ReviewStageFacts::Working { repos }
    } else {
        over()
    }
}

/// What comes once the repositories with their pull requests are known, and what
/// is said. A summary comes first, but for a listing and for cloning a single
/// repository.
pub open spec fn begun(action: ReviewAction, repos: Seq<RepoFacts>) -> (
    ReviewStageFacts,
    Seq<Seq<char>>,
) {
    if repos.len() == 0 {
        (over(), seq!["No repositories with matching PRs found."@])
    } else if !(action is Ls) && (repos.len() > 1 || !(action is Clone)) {
        (ReviewStageFacts::Summing { repos }, seq!["Summary:"@])
    } else {
        (at_work(action, repos), Seq::empty())
    }
}

/// What comes once the repositories are known. A purge does not ask for their
/// pull requests.
pub open spec fn listed(action: ReviewAction, slugs: Seq<Seq<char>>) -> (
    ReviewStageFacts,
    Seq<Seq<char>>,
) {
    if action is Purge {
        begun(action, select::review_targets(action, Seq::empty(), slugs))
    } else {
        (ReviewStageFacts::Asking { slugs }, Seq::empty())
    }
}

/// Whether this comes of the repositories of the organisation.
pub open spec fn follows_listing(
    next: (ReviewStageFacts, Seq<Seq<char>>),
    action: ReviewAction,
    ptns: Seq<Seq<char>>,
    slugs: Seq<Seq<char>>,
) -> bool {
    exists|kept: Seq<Seq<char>>|
        select::is_filtering(kept, slugs, ptns) && next == #[trigger] listed(action, kept)
}

/// What is said in a summary, line by line.
pub open spec fn summary(said: Seq<Result<String, String>>) -> Seq<Seq<char>> {
    said.map_values(|result: Result<String, String>| select::summary_words(result)).push(""@)
}

/// What is said of repositories, line by line.
pub open spec fn outputs(repos: Seq<RepoFacts>, said: Seq<Result<String, String>>) -> Seq<
    Seq<char>,
> {
    Seq::new(said.len(), |i: int| select::output_words(repos[i].reposlug, said[i]))
}

/// Whether this comes of what a command to review hears, and is said of it.
pub open spec fn follows(
    next: (ReviewStageFacts, Seq<Seq<char>>),
    action: ReviewAction,
    ptns: Seq<Seq<char>>,
    stage: ReviewStageFacts,
    news: ReviewNews,
) -> bool {
    match (stage, news) {
        (ReviewStageFacts::Listing, ReviewNews::Repos(Err(e))) => next == (
            ReviewStageFacts::Over { result: Err(e@) },
            Seq::<Seq<char>>::empty(),
        ),
        (ReviewStageFacts::Listing, ReviewNews::Repos(Ok(slugs))) => follows_listing(
            next,
            action,
            ptns,
            text::views(slugs@),
        ),
        (ReviewStageFacts::Asking { slugs }, ReviewNews::Answers(answers)) => next == begun(
            action,
            select::review_targets(
                action,
                github::grouped(github::all_titled(slugs, answers@)),
                slugs,
            ),
        ),
        (ReviewStageFacts::Summing { repos }, ReviewNews::Said(said)) => next == (
            at_work(action, repos),
            summary(said@),
        ),
        (ReviewStageFacts::Working { repos }, ReviewNews::Said(said)) => next == (
            over(),
            outputs(repos, said@) + (if action is Clone {
                seq![""@]
            } else {
                Seq::empty()
            }),
        ),
        _ => false,
    }
}

/// The requests for the pull requests of repositories, one each.
pub fn pr_requests(action: &ReviewAction, slugs: &Vec<String>) -> (r: Vec<Request>)
    ensures
        r@.len() == slugs@.len(),
        forall|i: int|
            0 <= i < r@.len() ==> (#[trigger] r@[i])@ == github::titles_wish(
                slugs@[i]@,
                select::wants_closed(*action),
            ),
{
    let closed_too = asks_for_closed(action);
    let mut r: Vec<Request> = Vec::new();
    let mut i: usize = 0;
    while i < slugs.len()
        invariant
            i <= slugs@.len(),
            r@.len() == i,
            closed_too == select::wants_closed(*action),
            forall|k: int|
                0 <= k < i ==> (#[trigger] r@[k])@ == github::titles_wish(
                    slugs@[k]@,
                    closed_too,
                ),
        decreases slugs@.len() - i,
    {
        r.push(pr_list_request(&slugs[i], closed_too));
        i += 1;
    }
    r
}

/// Goes on to the work, if there is any.
fn go_to_work(action: &ReviewAction, repos: Vec<Repo>) -> (r: ReviewStage)
    ensures
        r@ == at_work(*action, select::repos_facts(repos@)),
{
    let (_, full) = review_rounds(action, repos.len());
    if full {
        ReviewStage::Working { repos }
    } else {
        ReviewStage::Over { result: Ok(()) }
    }
}

/// Begins with the repositories, once they are known.
fn begin(action: &ReviewAction, repos: Vec<Repo>) -> (r: (ReviewStage, Vec<String>))
    ensures
        (r.0@, text::views(r.1@)) == begun(*action, select::repos_facts(repos@)),
{
    assert(select::repos_facts(repos@).len() == repos@.len());
    let mut lines: Vec<String> = Vec::new();
    if repos.len() == 0 {
        lines.push(owned("No repositories with matching PRs found."));
        assert(text::views(lines@) =~= seq!["No repositories with matching PRs found."@]);
        return (ReviewStage::Over { result: Ok(()) }, lines);
    }
    let (summed, _) = review_rounds(action, repos.len());
    if summed {
        lines.push(owned("Summary:"));
        assert(text::views(lines@) =~= seq!["Summary:"@]);
        (ReviewStage::Summing { repos }, lines)
    } else {
        assert(text::views(lines@) =~= Seq::empty());
        (go_to_work(action, repos), lines)
    }
}

/// What is said in a summary, line by line.
fn sum_up(said: &Vec<Result<String, String>>) -> (lines: Vec<String>)
    ensures
        text::views(lines@) == summary(said@),
{
    broadcast use text::lemma_views_push;

    let ghost all = said@.map_values(|result: Result<String, String>| select::summary_words(result));
    let mut lines: Vec<String> = Vec::new();
    let mut i: usize = 0;
    assert(text::views(lines@) =~= all.take(0));
    while i < said.len()
        invariant
            i <= said@.len(),
            all == said@.map_values(
                |result: Result<String, String>| select::summary_words(result),
            ),
            text::views(lines@) == all.take(i as int),
        decreases said@.len() - i,
    {
        let ghost before = text::views(lines@);
        lines.push(summary_of(&said[i]));
        assert(text::views(lines@) == before.push(all[i as int]));
        assert(all.take(i + 1) =~= before.push(all[i as int]));
        i += 1;
    }
    assert(all.take(i as int) =~= all);
    lines.push(owned(""));
    lines
}

/// What is said of repositories, line by line.
fn tell(repos: &Vec<Repo>, said: &Vec<Result<String, String>>) -> (lines: Vec<String>)
    requires
        said@.len() == repos@.len(),
    ensures
        text::views(lines@) == outputs(select::repos_facts(repos@), said@),
{
    broadcast use text::lemma_views_push;

    let ghost facts = select::repos_facts(repos@);
    let ghost all = outputs(facts, said@);
    let mut lines: Vec<String> = Vec::new();
    let mut i: usize = 0;
    assert(text::views(lines@) =~= all.take(0));
    while i < said.len()
        invariant
            i <= said@.len(),
            said@.len() == repos@.len(),
            facts == select::repos_facts(repos@),
            all == outputs(facts, said@),
            text::views(lines@) == all.take(i as int),
        decreases said@.len() - i,
    {
        assert(facts[i as int] == repos@[i as int]@);
        let ghost before = text::views(lines@);
        lines.push(output_of(&repos[i], &said[i]));
        assert(text::views(lines@) == before.push(all[i as int]));
        assert(all.take(i + 1) =~= before.push(all[i as int]));
        i += 1;
    }
    assert(all.take(i as int) =~= all);
    lines
}

/// Takes a command to review one stage on, given what it waits for. What there is
/// to say comes with it, line by line.
pub fn process_review_command(
    action: &ReviewAction,
    reposlug_ptns: &Vec<String>,
    stage: ReviewStage,
    news: ReviewNews,
) -> (r: (ReviewStage, Vec<String>))
    requires
        awaited(stage@, news),
    ensures
        follows((r.0@, text::views(r.1@)), *action, text::views(reposlug_ptns@), stage@, news),
{
    let ghost ptns = text::views(reposlug_ptns@);
    let none: Vec<String> = Vec::new();
    assert(text::views(none@) =~= Seq::empty());
    match (stage, news) {
        (ReviewStage::Listing, ReviewNews::Repos(Err(e))) => (
            ReviewStage::Over { result: Err(e) },
            none,
        ),
        (ReviewStage::Listing, ReviewNews::Repos(Ok(slugs))) => {
            let ghost all = text::views(slugs@);
            let kept = filter_slugs(slugs, reposlug_ptns);
            let ghost left = text::views(kept@);
            let r = if needs_prs(action) {
                (ReviewStage::Asking { slugs: kept }, none)
            } else {
                let groups: Vec<(String, Vec<github::Pr>)> = Vec::new();
                assert(github::groups_facts(groups@) =~= Seq::empty());
                begin(action, select_targets(action, &groups, &kept))
            };
            assert((r.0@, text::views(r.1@)) == listed(*action, left));
            r
        },
        (ReviewStage::Asking { slugs }, ReviewNews::Answers(answers)) => {
            assert(text::views(slugs@).len() == slugs@.len());
            let groups = get_prs_for_repos(&slugs, answers.as_slice());
            begin(action, select_targets(action, &groups, &slugs))
        },
        (ReviewStage::Summing { repos }, ReviewNews::Said(said)) => {
            let lines = sum_up(&said);
            (go_to_work(action, repos), lines)
        },
        (ReviewStage::Working { repos }, ReviewNews::Said(said)) => {
            assert(select::repos_facts(repos@).len() == repos@.len());
            let mut lines = tell(&repos, &said);
            let ghost told = text::views(lines@);
            match action {
                ReviewAction::Clone { .. } => {
                    lines.push(owned(""));
                    assert(text::views(lines@) =~= told + seq![""@]);
                },
                _ => {
                    assert(told + Seq::<Seq<char>>::empty() =~= told);
                },
            }
            (ReviewStage::Over { result: Ok(()) }, lines)
        },
        _ => (ReviewStage::Over { result: Ok(()) }, none),
    }
}

/// How many stages a command to review still has before it at most.
pub open spec fn stages_left(stage: ReviewStageFacts) -> nat {
    match stage {
        ReviewStageFacts::Listing => 4,
        ReviewStageFacts::Asking { .. } => 3,
        ReviewStageFacts::Summing { .. } => 2,
        ReviewStageFacts::Working { .. } => 1,
        ReviewStageFacts::Over { .. } => 0,
    }
}

/// A command to review comes to its end: each stage brings it nearer.
pub proof fn law_reviews_end(
    next: (ReviewStageFacts, Seq<Seq<char>>),
    action: ReviewAction,
    ptns: Seq<Seq<char>>,
    stage: ReviewStageFacts,
    news: ReviewNews,
)
    requires
        follows(next, action, ptns, stage, news),
    ensures
        stages_left(next.0) < stages_left(stage),
{
}

} // verus!
