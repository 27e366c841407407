//! Choosing repositories and pull requests, and reporting on them.
use crate::cli::ReviewAction;
use crate::create::Outcome;
use crate::github;
use crate::github::Pr;
use crate::numbers;
use crate::numbers::decimal_of;
use crate::order;
use crate::order::no_later;
use crate::paths;
use crate::patterns;
use crate::patterns::wildcard_match;
use crate::repo::{Repo, RepoFacts};
use crate::text;
use crate::text::{
    blank, cat2, cat4, chars_of, contains, joined, owned, same, slice_of, starts_with,
};
use vstd::prelude::*;

verus! {

// ---------------------------------------------------------------------------
// Choosing repositories by name
// ---------------------------------------------------------------------------

/// The repository name (the part after '/') of a reposlug; the whole of it where
/// there is no '/'.
pub open spec fn reponame(reposlug: Seq<char>) -> Seq<char> {
    let slash = paths::part_end(reposlug, 0);
    if slash < reposlug.len() {
        reposlug.subrange(slash + 1, paths::part_end(reposlug, slash + 1))
    } else {
        reposlug
    }
}

/// Extracts the repository name (the part after '/') from a reposlug.
/// If the reposlug is not in the expected format, returns the full string.
pub fn extract_reponame(reposlug: &str) -> (r: String)
    ensures
        r@ == reponame(reposlug@),
{
    let s = chars_of(reposlug);
    let slash = paths::end_of_part(&s, 0);
    if slash < s.len() {
        let end = paths::end_of_part(&s, slash + 1);
        slice_of(&s, slash + 1, end)
    } else {
        owned(reposlug)
    }
}

/// The ways in which a specification can match a repository, in the order in
/// which they are tried.
#[derive(Debug, Clone, Copy, PartialEq, Eq, Structural)]
pub enum Level {
    /// It is the repository name.
    Name,
    /// The repository name starts with it.
    NameStart,
    /// It is the full reposlug.
    Slug,
    /// The full reposlug starts with it.
    SlugStart,
}

/// Whether a specification matches a repository.
pub open spec fn spec_matches(reposlug: Seq<char>, spec_text: Seq<char>, level: Level) -> bool {
    match level {
        Level::Name => reponame(reposlug) == spec_text,
        Level::NameStart => text::begins_with(reponame(reposlug), spec_text),
        Level::Slug => reposlug == spec_text,
        Level::SlugStart => text::begins_with(reposlug, spec_text),
    }
}

/// Whether one of several specifications matches a repository.
pub open spec fn any_matches(reposlug: Seq<char>, specs: Seq<Seq<char>>, level: Level) -> bool {
    exists|i: int| 0 <= i < specs.len() && spec_matches(reposlug, #[trigger] specs[i], level)
}

/// What several repositories say.
pub open spec fn repos_facts(repos: Seq<Repo>) -> Seq<RepoFacts> {
    repos.map_values(|r: Repo| r@)
}

/// The repositories that one of several specifications matches.
pub open spec fn matched(repos: Seq<RepoFacts>, specs: Seq<Seq<char>>, level: Level) -> Seq<
    RepoFacts,
> {
    repos.filter_map(
        |r: RepoFacts|
            if any_matches(r.reposlug, specs, level) {
                Some(r)
            } else {
                None
            },
    )
}

/// The repositories that are chosen: those that match at the first level where
/// any does. Without specifications all are.
pub open spec fn chosen(repos: Seq<RepoFacts>, specs: Seq<Seq<char>>) -> Seq<RepoFacts> {
    if specs.len() == 0 {
        repos
    } else if matched(repos, specs, Level::Name).len() > 0 {
        matched(repos, specs, Level::Name)
    } else if matched(repos, specs, Level::NameStart).len() > 0 {
        matched(repos, specs, Level::NameStart)
    } else if matched(repos, specs, Level::Slug).len() > 0 {
        matched(repos, specs, Level::Slug)
    } else {
        matched(repos, specs, Level::SlugStart)
    }
}

/// The repositories of one slug.
pub open spec fn of_slug(repos: Seq<RepoFacts>, slug: Seq<char>) -> Seq<RepoFacts> {
    repos.filter_map(
        |r: RepoFacts|
            if r.reposlug == slug {
                Some(r)
            } else {
                None
            },
    )
}

/// Whether repositories are sorted by slug.
pub open spec fn by_slug(repos: Seq<RepoFacts>) -> bool {
    forall|i: int, j: int|
        0 <= i < j < repos.len() ==> order::at_most(
            (#[trigger] repos[i]).reposlug,
            (#[trigger] repos[j]).reposlug,
        )
}

/// Whether `sorted` is `repos`, sorted by slug, where repositories of the same
/// slug keep their order.
pub open spec fn is_sorting(sorted: Seq<RepoFacts>, repos: Seq<RepoFacts>) -> bool {
    &&& by_slug(sorted)
    &&& sorted.len() == repos.len()
    &&& forall|slug: Seq<char>| #[trigger] of_slug(sorted, slug) == of_slug(repos, slug)
}

/// Whether one of several specifications matches a repository.
fn matches_any(reposlug: &str, specs: &Vec<String>, level: Level) -> (r: bool)
    ensures
        r == any_matches(reposlug@, text::views(specs@), level),
{
    let name = extract_reponame(reposlug);
    let ghost all = text::views(specs@);
    let mut i: usize = 0;
    while i < specs.len()
        invariant
            i <= specs@.len(),
            name@ == reponame(reposlug@),
            all == text::views(specs@),
            forall|k: int| 0 <= k < i ==> !spec_matches(reposlug@, #[trigger] all[k], level),
        decreases specs@.len() - i,
    {
        assert(all[i as int] == specs@[i as int]@);
        let spec_text = &specs[i];
        let hit = match level {
            Level::Name => same(&name, spec_text),
            Level::NameStart => starts_with(&name, spec_text),
            Level::Slug => same(reposlug, spec_text),
            Level::SlugStart => starts_with(reposlug, spec_text),
        };
        if hit {
            return true;
        }
        i += 1;
    }
    false
}

/// The repositories that one of several specifications matches.
fn match_repos(repos: &Vec<Repo>, specs: &Vec<String>, level: Level) -> (r: Vec<Repo>)
    ensures
        repos_facts(r@) == matched(repos_facts(repos@), text::views(specs@), level),
{
    let ghost all = repos_facts(repos@);
    let ghost names = text::views(specs@);
    let ghost pick = |r: RepoFacts|
        if any_matches(r.reposlug, names, level) {
            Some(r)
        } else {
            None
        };
    let mut r: Vec<Repo> = Vec::new();
    let mut i: usize = 0;
    assert(repos_facts(r@) =~= all.take(0).filter_map(pick));
    while i < repos.len()
        invariant
            i <= repos@.len(),
            all == repos_facts(repos@),
            names == text::views(specs@),
            pick == (|r: RepoFacts|
                if any_matches(r.reposlug, names, level) {
                    Some(r)
                } else {
                    None
                }),
            repos_facts(r@) == all.take(i as int).filter_map(pick),
        decreases repos@.len() - i,
    {
        assert(all[i as int] == repos@[i as int]@);
        assert(all.take(i + 1).drop_last() =~= all.take(i as int));
        let ghost before = repos_facts(r@);
        if matches_any(&repos[i].reposlug, specs, level) {
            r.push(repos[i].copy());
            assert(repos_facts(r@) =~= before.push(all[i as int]));
            assert(repos_facts(r@) =~= all.take(i + 1).filter_map(pick));
        }
        i += 1;
    }
    assert(all.take(i as int) =~= all);
    r
}

/// The repositories that are chosen.
fn choose_repos(repos: Vec<Repo>, specs: &Vec<String>) -> (r: Vec<Repo>)
    ensures
        repos_facts(r@) == chosen(repos_facts(repos@), text::views(specs@)),
{
    assert(text::views(specs@).len() == specs@.len());
    if specs.len() == 0 {
        return repos;
    }
    let level1 = match_repos(&repos, specs, Level::Name);
    assert(repos_facts(level1@).len() == level1@.len());
    if level1.len() > 0 {
        return level1;
    }
    let level2 = match_repos(&repos, specs, Level::NameStart);
    assert(repos_facts(level2@).len() == level2@.len());
    if level2.len() > 0 {
        return level2;
    }
    let level3 = match_repos(&repos, specs, Level::Slug);
    assert(repos_facts(level3@).len() == level3@.len());
    if level3.len() > 0 {
        return level3;
    }
    match_repos(&repos, specs, Level::SlugStart)
}

proof fn lemma_of_slug_split(a: Seq<RepoFacts>, b: Seq<RepoFacts>, slug: Seq<char>)
    ensures
        of_slug(a + b, slug) == of_slug(a, slug) + of_slug(b, slug),
    decreases b.len(),
{
    if b.len() == 0 {
        assert(a + b =~= a);
        assert(of_slug(a, slug) + of_slug(b, slug) =~= of_slug(a, slug));
    } else {
        lemma_of_slug_split(a, b.drop_last(), slug);
        assert((a + b).drop_last() =~= a + b.drop_last());
        assert(of_slug(a + b, slug) =~= of_slug(a, slug) + of_slug(b, slug));
    }
}

proof fn lemma_of_slug_none(repos: Seq<RepoFacts>, slug: Seq<char>)
    requires
        forall|i: int| 0 <= i < repos.len() ==> (#[trigger] repos[i]).reposlug != slug,
    ensures
        of_slug(repos, slug) == Seq::<RepoFacts>::empty(),
    decreases repos.len(),
{
    if repos.len() > 0 {
        let front = repos.drop_last();
        assert forall|i: int| 0 <= i < front.len() implies (#[trigger] front[i]).reposlug
            != slug by {
            assert(front[i] == repos[i]);
        }
        assert(repos[repos.len() - 1].reposlug != slug);
        lemma_of_slug_none(front, slug);
    } else {
        assert(of_slug(repos, slug) =~= Seq::<RepoFacts>::empty());
    }
}

/// A repository goes behind all that come no later, and before all others.
proof fn lemma_insert(sorted: Seq<RepoFacts>, p: int, x: RepoFacts, repos: Seq<RepoFacts>)
    requires
        is_sorting(sorted, repos),
        0 <= p <= sorted.len(),
        forall|k: int|
            0 <= k < p ==> order::at_most((#[trigger] sorted[k]).reposlug, x.reposlug),
        p < sorted.len() ==> !order::at_most(sorted[p].reposlug, x.reposlug),
    ensures
        is_sorting(sorted.insert(p, x), repos.push(x)),
{
    let new = sorted.insert(p, x);
    let a = sorted.take(p);
    let b = sorted.skip(p);
    assert(sorted =~= a + b);
    assert(new =~= a + seq![x] + b);
    assert forall|k: int| p <= k < sorted.len() implies order::at_most(
        x.reposlug,
        (#[trigger] sorted[k]).reposlug,
    ) && sorted[k].reposlug != x.reposlug by {
        order::lemma_total(x.reposlug, sorted[p].reposlug);
        if k > p {
            order::lemma_transitive(x.reposlug, sorted[p].reposlug, sorted[k].reposlug);
            if sorted[k].reposlug == x.reposlug {
                order::lemma_antisymmetric(sorted[p].reposlug, x.reposlug);
            }
        }
        order::lemma_total(x.reposlug, x.reposlug);
    }
    assert forall|i: int, j: int| 0 <= i < j < new.len() implies order::at_most(
        (#[trigger] new[i]).reposlug,
        (#[trigger] new[j]).reposlug,
    ) by {
        let oi = if i < p {
            i
        } else {
            i - 1
        };
        let oj = if j < p {
            j
        } else {
            j - 1
        };
        if i != p {
            assert(new[i] == sorted[oi]);
        }
        if j != p {
            assert(new[j] == sorted[oj]);
        }
    }
    assert forall|slug: Seq<char>| #[trigger] of_slug(new, slug) == of_slug(
        repos.push(x),
        slug,
    ) by {
        let one = seq![x];
        lemma_of_slug_split(a, b, slug);
        lemma_of_slug_split(a + one, b, slug);
        lemma_of_slug_split(a, one, slug);
        lemma_of_slug_split(repos, one, slug);
        assert(repos.push(x) =~= repos + one);
        assert(of_slug(sorted, slug) == of_slug(repos, slug));
        assert(one.drop_last() =~= Seq::empty());
        if slug == x.reposlug {
            assert forall|i: int| 0 <= i < b.len() implies (#[trigger] b[i]).reposlug != slug by {
                assert(b[i] == sorted[p + i]);
            }
            lemma_of_slug_none(b, slug);
            assert(of_slug(a, slug) + of_slug(b, slug) =~= of_slug(a, slug));
            assert(of_slug(a, slug) + of_slug(one, slug) + of_slug(b, slug) =~= of_slug(a, slug)
                + of_slug(one, slug));
        } else {
            assert(one[0].reposlug != slug);
            lemma_of_slug_none(one, slug);
            assert(of_slug(a, slug) + of_slug(one, slug) + of_slug(b, slug) =~= of_slug(a, slug)
                + of_slug(b, slug));
            assert(of_slug(repos, slug) + of_slug(one, slug) =~= of_slug(repos, slug));
        }
    }
}

/// Sorts repositories by slug. Those of the same slug keep their order.
fn sort_by_slug(repos: Vec<Repo>) -> (r: Vec<Repo>)
    ensures
        is_sorting(repos_facts(r@), repos_facts(repos@)),
{
    let ghost all = repos_facts(repos@);
    let mut r: Vec<Repo> = Vec::new();
    let mut i: usize = 0;
    assert(repos_facts(r@) =~= all.take(0));
    while i < repos.len()
        invariant
            i <= repos@.len(),
            all == repos_facts(repos@),
            r@.len() == i,
            is_sorting(repos_facts(r@), all.take(i as int)),
        decreases repos@.len() - i,
    {
        let ghost sorted = repos_facts(r@);
        let x = repos[i].copy();
        let mut p: usize = 0;
        while p < r.len() && no_later(&r[p].reposlug, &x.reposlug)
            invariant
                p <= r@.len(),
                sorted == repos_facts(r@),
                forall|k: int|
                    0 <= k < p ==> order::at_most((#[trigger] sorted[k]).reposlug, x@.reposlug),
            ensures
                p <= r@.len(),
                forall|k: int|
                    0 <= k < p ==> order::at_most((#[trigger] sorted[k]).reposlug, x@.reposlug),
                p < r@.len() ==> !order::at_most(sorted[p as int].reposlug, x@.reposlug),
            decreases r@.len() - p,
        {
            assert(sorted[p as int] == r@[p as int]@);
            p += 1;
        }
        proof {
            if p < r@.len() {
                assert(sorted[p as int] == r@[p as int]@);
            }
            lemma_insert(sorted, p as int, x@, all.take(i as int));
            assert(all.take(i + 1) =~= all.take(i as int).push(all[i as int]));
        }
        r.insert(p, x);
        assert(repos_facts(r@) =~= sorted.insert(p as int, x@));
        i += 1;
    }
    assert(all.take(i as int) =~= all);
    r
}

/// Filters the given vector of repositories according to a list of filtering specifications.
/// The filter criteria are applied in the following order:
/// 1. Exact match on the repository name (the part after '/')
/// 2. Starts-with match on the repository name
/// 3. Exact match on the full reposlug ("org/reponame")
/// 4. Starts-with match on the full reposlug
///
/// At the first level where one or more repositories match, those matches are used.
/// Finally, the resulting list is sorted by reposlug.
pub fn filter_repos_by_spec(repos: Vec<Repo>, specs: &Vec<String>) -> (r: Vec<Repo>)
    ensures
        is_sorting(repos_facts(r@), chosen(repos_facts(repos@), text::views(specs@))),
{
    sort_by_slug(choose_repos(repos, specs))
}

/// The level at which specifications choose among repositories: the first at
/// which one matches.
pub open spec fn winning_level(repos: Seq<RepoFacts>, specs: Seq<Seq<char>>) -> Level {
    if matched(repos, specs, Level::Name).len() > 0 {
        Level::Name
    } else if matched(repos, specs, Level::NameStart).len() > 0 {
        Level::NameStart
    } else if matched(repos, specs, Level::Slug).len() > 0 {
        Level::Slug
    } else {
        Level::SlugStart
    }
}

/// Every repository in the result is one of those given, and one of the
/// specifications, where there are any, matches it at the first level at which
/// any repository matches.
pub proof fn law_filter_adds_nothing(
    sorted: Seq<RepoFacts>,
    repos: Seq<RepoFacts>,
    specs: Seq<Seq<char>>,
    i: int,
)
    requires
        is_sorting(sorted, chosen(repos, specs)),
        0 <= i < sorted.len(),
    ensures
        repos.contains(sorted[i]),
        specs.len() > 0 ==> any_matches(sorted[i].reposlug, specs, winning_level(repos, specs)),
{
    let slug = sorted[i].reposlug;
    lemma_of_slug_has(sorted, i);
    let kept = chosen(repos, specs);
    assert(of_slug(kept, slug).contains(sorted[i]));
    lemma_of_slug_from(kept, slug, sorted[i]);
    if specs.len() > 0 {
        let level = winning_level(repos, specs);
        assert(kept == matched(repos, specs, level));
        lemma_matched_from(repos, specs, level, sorted[i]);
    }
}

/// Every repository that one of the specifications matches at the first level at
/// which any matches is in the result. Without specifications all are.
pub proof fn law_filter_loses_nothing(
    sorted: Seq<RepoFacts>,
    repos: Seq<RepoFacts>,
    specs: Seq<Seq<char>>,
    i: int,
)
    requires
        is_sorting(sorted, chosen(repos, specs)),
        0 <= i < repos.len(),
        specs.len() > 0 ==> any_matches(repos[i].reposlug, specs, winning_level(repos, specs)),
    ensures
        sorted.contains(repos[i]),
{
    let x = repos[i];
    let kept = chosen(repos, specs);
    if specs.len() > 0 {
        let level = winning_level(repos, specs);
        assert(kept == matched(repos, specs, level));
        lemma_matched_has(repos, specs, level, i);
    }
    assert(kept.contains(x));
    let k = choose|k: int| 0 <= k < kept.len() && kept[k] == x;
    lemma_of_slug_has(kept, k);
    assert(of_slug(sorted, x.reposlug).contains(x));
    lemma_of_slug_from(sorted, x.reposlug, x);
}

proof fn lemma_matched_has(
    repos: Seq<RepoFacts>,
    specs: Seq<Seq<char>>,
    level: Level,
    i: int,
)
    requires
        0 <= i < repos.len(),
        any_matches(repos[i].reposlug, specs, level),
    ensures
        matched(repos, specs, level).contains(repos[i]),
    decreases repos.len(),
{
    let front = repos.drop_last();
    let now = matched(repos, specs, level);
    let before = matched(front, specs, level);
    if i == repos.len() - 1 {
        assert(now =~= before + seq![repos[i]]);
        assert(now[now.len() - 1] == repos[i]);
    } else {
        assert(front[i] == repos[i]);
        lemma_matched_has(front, specs, level, i);
        let k = choose|k: int| 0 <= k < before.len() && before[k] == repos[i];
        assert(now[k] == repos[i]);
    }
}

proof fn lemma_of_slug_has(repos: Seq<RepoFacts>, i: int)
    requires
        0 <= i < repos.len(),
    ensures
        of_slug(repos, repos[i].reposlug).contains(repos[i]),
    decreases repos.len(),
{
    let slug = repos[i].reposlug;
    let front = repos.drop_last();
    let now = of_slug(repos, slug);
    let before = of_slug(front, slug);
    if i == repos.len() - 1 {
        assert(now =~= before + seq![repos[i]]);
        assert(now[now.len() - 1] == repos[i]);
    } else {
        assert(front[i] == repos[i]);
        lemma_of_slug_has(front, i);
        let k = choose|k: int| 0 <= k < before.len() && before[k] == repos[i];
        assert(now[k] == repos[i]);
    }
}

proof fn lemma_of_slug_from(repos: Seq<RepoFacts>, slug: Seq<char>, x: RepoFacts)
    requires
        of_slug(repos, slug).contains(x),
    ensures
        repos.contains(x),
    decreases repos.len(),
{
    if repos.len() > 0 {
        let front = repos.drop_last();
        let now = of_slug(repos, slug);
        let before = of_slug(front, slug);
        let k = choose|k: int| 0 <= k < now.len() && now[k] == x;
        if k < before.len() {
            assert(before[k] == x);
            lemma_of_slug_from(front, slug, x);
            let j = choose|j: int| 0 <= j < front.len() && front[j] == x;
            assert(repos[j] == x);
        } else {
            assert(repos[repos.len() - 1] == x);
        }
    }
}

proof fn lemma_matched_from(
    repos: Seq<RepoFacts>,
    specs: Seq<Seq<char>>,
    level: Level,
    x: RepoFacts,
)
    requires
        matched(repos, specs, level).contains(x),
    ensures
        repos.contains(x),
        any_matches(x.reposlug, specs, level),
    decreases repos.len(),
{
    if repos.len() > 0 {
        let front = repos.drop_last();
        let now = matched(repos, specs, level);
        let before = matched(front, specs, level);
        let k = choose|k: int| 0 <= k < now.len() && now[k] == x;
        if k < before.len() {
            assert(before[k] == x);
            lemma_matched_from(front, specs, level, x);
            let j = choose|j: int| 0 <= j < front.len() && front[j] == x;
            assert(repos[j] == x);
        } else {
            assert(repos[repos.len() - 1] == x);
        }
    }
}

// ---------------------------------------------------------------------------
// Creating
// ---------------------------------------------------------------------------

/// A number and what it counts.
pub open spec fn count_of(n: nat, what: Seq<char>) -> Seq<char> {
    numbers::decimal(n) + what
}

/// The repositories of which some file is concerned.
pub open spec fn with_files(repos: Seq<RepoFacts>) -> Seq<RepoFacts> {
    repos.filter_map(
        |r: RepoFacts|
            if r.files.len() > 0 {
                Some(r)
            } else {
                None
            },
    )
}

/// The repositories that are left where files were asked for, or not.
pub open spec fn left_over(sorted: Seq<RepoFacts>, files_given: bool) -> Seq<RepoFacts> {
    if files_given {
        with_files(sorted)
    } else {
        sorted
    }
}

/// The counts of each step of the selection, the last first: those that were
/// discovered, those that match a specification, those that have such files, and
/// those that a change is made to.
pub open spec fn counts(
    discovered: nat,
    matching: Option<nat>,
    having_files: Option<nat>,
    changing: Option<nat>,
) -> Seq<Seq<char>> {
    let last = match changing {
        Some(n) => seq![count_of(n, "📝"@)],
        None => Seq::empty(),
    };
    let third = match having_files {
        Some(n) => seq![count_of(n, "📄"@)],
        None => Seq::empty(),
    };
    let second = match matching {
        Some(n) => seq![count_of(n, "📦"@)],
        None => Seq::empty(),
    };
    last + third + second + seq![count_of(discovered, "🔍"@)]
}

/// `n`, if it counts.
pub open spec fn if_so(yes: bool, n: nat) -> Option<nat> {
    if yes {
        Some(n)
    } else {
        None
    }
}

/// The counts in one line.
pub open spec fn counts_line(
    discovered: nat,
    matching: Option<nat>,
    having_files: Option<nat>,
    changing: Option<nat>,
) -> Seq<char> {
    text::join(counts(discovered, matching, having_files, changing), " | "@)
}

/// The counts in one line.
pub fn count_line(
    discovered: usize,
    matching: Option<usize>,
    having_files: Option<usize>,
    changing: Option<usize>,
) -> (r: String)
    ensures
        r@ == counts_line(
            discovered as nat,
            count_facts(matching),
            count_facts(having_files),
            count_facts(changing),
        ),
{
    broadcast use text::lemma_views_push;

    let mut parts: Vec<String> = Vec::new();
    match changing {
        Some(n) => {
            parts.push(cat2(&decimal_of(n as u64), "📝"));
        },
        None => {},
    }
    match having_files {
        Some(n) => {
            parts.push(cat2(&decimal_of(n as u64), "📄"));
        },
        None => {},
    }
    match matching {
        Some(n) => {
            parts.push(cat2(&decimal_of(n as u64), "📦"));
        },
        None => {},
    }
    parts.push(cat2(&decimal_of(discovered as u64), "🔍"));
    assert(text::views(parts@) =~= counts(
        discovered as nat,
        count_facts(matching),
        count_facts(having_files),
        count_facts(changing),
    ));
    joined(&parts, " | ")
}

/// A count that there may be.
pub open spec fn count_facts(n: Option<usize>) -> Option<nat> {
    match n {
        Some(n) => Some(n as nat),
        None => None,
    }
}

/// Keeps the repositories of which some file is concerned.
fn keep_with_files(repos: &Vec<Repo>) -> (r: Vec<Repo>)
    ensures
        repos_facts(r@) == with_files(repos_facts(repos@)),
{
    let ghost all = repos_facts(repos@);
    let ghost pick = |r: RepoFacts|
        if r.files.len() > 0 {
            Some(r)
        } else {
            None
        };
    let mut r: Vec<Repo> = Vec::new();
    let mut i: usize = 0;
    assert(repos_facts(r@) =~= all.take(0).filter_map(pick));
    while i < repos.len()
        invariant
            i <= repos@.len(),
            all == repos_facts(repos@),
            pick == (|r: RepoFacts|
                if r.files.len() > 0 {
                    Some(r)
                } else {
                    None
                }),
            repos_facts(r@) == all.take(i as int).filter_map(pick),
        decreases repos@.len() - i,
    {
        assert(all[i as int] == repos@[i as int]@);
        assert(all[i as int].files.len() == repos@[i as int].files@.len());
        assert(all.take(i + 1).drop_last() =~= all.take(i as int));
        let ghost before = repos_facts(r@);
        if repos[i].files.len() > 0 {
            r.push(repos[i].copy());
            assert(repos_facts(r@) =~= before.push(all[i as int]));
            assert(repos_facts(r@) =~= all.take(i + 1).filter_map(pick));
        }
        i += 1;
    }
    assert(all.take(i as int) =~= all);
    r
}

/// The selection that a command to create makes: the repositories that it is
/// about, and the line that counts them.
pub struct Selection {
    pub repos: Vec<Repo>,
    pub status: String,
}

/// Whether a selection follows from the repositories that match.
pub open spec fn is_selection(
    s: Selection,
    sorted: Seq<RepoFacts>,
    discovered: nat,
    ptns: nat,
    files_given: bool,
    change_given: bool,
) -> bool {
    let left = left_over(sorted, files_given);
    &&& repos_facts(s.repos@) == left
    &&& s.status@ == counts_line(
        discovered,
        if_so(ptns > 0, sorted.len()),
        if_so(files_given, left.len()),
        if_so(change_given, left.len()),
    )
}

/// Whether a selection is the one that a command to create makes.
pub open spec fn selects(
    s: Selection,
    discovered: Seq<RepoFacts>,
    ptns: Seq<Seq<char>>,
    files_given: bool,
    change_given: bool,
) -> bool {
    exists|sorted: Seq<RepoFacts>|
        is_sorting(sorted, chosen(discovered, ptns)) && #[trigger] is_selection(
            s,
            sorted,
            discovered.len(),
            ptns.len(),
            files_given,
            change_given,
        )
}

/// Selects the repositories that a command to create is about: those that match
/// the specifications, sorted by slug, and of these, where files were asked for,
/// those that have any.
pub fn select_repos(
    discovered: Vec<Repo>,
    repo_ptns: &Vec<String>,
    files_given: bool,
    change_given: bool,
) -> (s: Selection)
    ensures
        selects(
            s,
            repos_facts(discovered@),
            text::views(repo_ptns@),
            files_given,
            change_given,
        ),
{
    let ghost all = repos_facts(discovered@);
    let total = discovered.len();
    let matching = filter_repos_by_spec(discovered, repo_ptns);
    let ghost sorted = repos_facts(matching@);
    let n = matching.len();
    let repos = if files_given {
        keep_with_files(&matching)
    } else {
        matching
    };
    let m = repos.len();
    let status = count_line(
        total,
        if repo_ptns.len() > 0 {
            Some(n)
        } else {
            None
        },
        if files_given {
            Some(m)
        } else {
            None
        },
        if change_given {
            Some(m)
        } else {
            None
        },
    );
    let s = Selection { repos, status };
    proof {
        assert(all.len() == total);
        assert(sorted.len() == n);
        assert(repos_facts(s.repos@).len() == m);
        assert(text::views(repo_ptns@).len() == repo_ptns@.len());
        assert(is_selection(
            s,
            sorted,
            all.len(),
            text::views(repo_ptns@).len(),
            files_given,
            change_given,
        ));
    }
    s
}

/// The lines on a repository in a listing.
pub open spec fn listed(repo: RepoFacts, files_given: bool) -> Seq<Seq<char>> {
    seq!["  "@ + repo.reposlug] + (if files_given {
        repo.files.map_values(|file: Seq<char>| "    "@ + file)
    } else {
        Seq::empty()
    })
}

/// The lines on several repositories in a listing.
pub open spec fn all_listed(repos: Seq<RepoFacts>, files_given: bool) -> Seq<Seq<char>>
    decreases repos.len(),
{
    if repos.len() == 0 {
        Seq::empty()
    } else {
        all_listed(repos.drop_last(), files_given) + listed(repos.last(), files_given)
    }
}

/// What a command to create says where no change was asked for.
pub open spec fn listing(repos: Seq<RepoFacts>, status: Seq<char>, files_given: bool) -> Seq<
    Seq<char>,
> {
    if repos.len() == 0 {
        seq!["No repositories matched your criteria."@]
    } else {
        seq!["Matched repositories:"@] + all_listed(repos, files_given) + seq!["\n  "@ + status]
    }
}

/// Adds the lines on a repository to a listing.
fn list_repo(out: &mut Vec<String>, repo: &Repo, files_given: bool)
    ensures
        text::views(final(out)@) == text::views(old(out)@) + listed(repo@, files_given),
{
    broadcast use text::lemma_views_push;

    let ghost start = text::views(out@);
    out.push(cat2("  ", &repo.reposlug));
    let ghost head = text::views(out@);
    assert(head == start.push("  "@ + repo@.reposlug));
    if files_given {
        let ghost all = repo@.files.map_values(|file: Seq<char>| "    "@ + file);
        let mut i: usize = 0;
        assert(head + all.take(0) =~= head);
        while i < repo.files.len()
            invariant
                i <= repo.files@.len(),
                all == repo@.files.map_values(|file: Seq<char>| "    "@ + file),
                text::views(out@) == head + all.take(i as int),
            decreases repo.files@.len() - i,
        {
            assert(repo@.files[i as int] == repo.files@[i as int]@);
            let ghost before = text::views(out@);
            out.push(cat2("    ", &repo.files[i]));
            assert(text::views(out@) == before.push(all[i as int]));
            assert(head + all.take(i + 1) =~= before.push(all[i as int]));
            i += 1;
        }
        assert(repo@.files.len() == repo.files@.len());
        assert(all.take(i as int) =~= all);
    }
    assert(text::views(out@) =~= start + listed(repo@, files_given));
}

/// What a command to create says where no change was asked for, line by line.
pub fn list_selection(s: &Selection, files_given: bool) -> (r: Vec<String>)
    ensures
        text::views(r@) == listing(repos_facts(s.repos@), s.status@, files_given),
{
    broadcast use text::lemma_views_push;

    let mut r: Vec<String> = Vec::new();
    let ghost all = repos_facts(s.repos@);
    assert(all.len() == s.repos@.len());
    if s.repos.len() == 0 {
        r.push(owned("No repositories matched your criteria."));
        assert(text::views(r@) =~= seq!["No repositories matched your criteria."@]);
        return r;
    }
    r.push(owned("Matched repositories:"));
    let ghost head = seq!["Matched repositories:"@];
    let mut i: usize = 0;
    assert(text::views(r@) =~= head + all_listed(all.take(0), files_given));
    while i < s.repos.len()
        invariant
            i <= s.repos@.len(),
            all == repos_facts(s.repos@),
            text::views(r@) == head + all_listed(all.take(i as int), files_given),
        decreases s.repos@.len() - i,
    {
        assert(all[i as int] == s.repos@[i as int]@);
        assert(all.take(i + 1).drop_last() =~= all.take(i as int));
        list_repo(&mut r, &s.repos[i], files_given);
        assert(text::views(r@) =~= head + all_listed(all.take(i + 1), files_given));
        i += 1;
    }
    assert(all.take(i as int) =~= all);
    r.push(cat2("\n  ", &s.status));
    assert(text::views(r@) =~= listing(all, s.status@, files_given));
    r
}

/// The reports among what runs came to.
pub open spec fn reports_in(outcomes: Seq<Outcome>) -> Seq<Seq<char>> {
    outcomes.filter_map(
        |o: Outcome|
            match o {
                Ok(Some(report)) => Some(report@),
                _ => None,
            },
    )
}

/// The errors among what runs came to, in words.
pub open spec fn errors_in(outcomes: Seq<Outcome>) -> Seq<Seq<char>> {
    outcomes.filter_map(
        |o: Outcome|
            match o {
                Err(e) => Some("Error: "@ + e@),
                _ => None,
            },
    )
}

/// What a command to create says of what its runs came to: the errors, and then
/// the reports with the line that counts the repositories.
pub fn report_outcomes(outcomes: &Vec<Outcome>, status: &str) -> (r: (Vec<String>, Vec<String>))
    ensures
        text::views(r.0@) == errors_in(outcomes@),
        text::views(r.1@) == reports_in(outcomes@).push("  "@ + status@),
{
    broadcast use text::lemma_views_push;

    let mut errors: Vec<String> = Vec::new();
    let mut reports: Vec<String> = Vec::new();
    let mut i: usize = 0;
    assert(outcomes@.take(0) =~= Seq::empty());
    assert(text::views(errors@) =~= errors_in(outcomes@.take(0)));
    assert(text::views(reports@) =~= reports_in(outcomes@.take(0)));
    while i < outcomes.len()
        invariant
            i <= outcomes@.len(),
            text::views(errors@) == errors_in(outcomes@.take(i as int)),
            text::views(reports@) == reports_in(outcomes@.take(i as int)),
        decreases outcomes@.len() - i,
    {
        assert(outcomes@.take(i + 1).drop_last() =~= outcomes@.take(i as int));
        let ghost reports_before = text::views(reports@);
        let ghost errors_before = text::views(errors@);
        match &outcomes[i] {
            Ok(Some(report)) => {
                reports.push(owned(report));
                assert(text::views(reports@) =~= reports_before + seq![report@]);
            },
            Ok(None) => {},
            Err(e) => {
                errors.push(cat2("Error: ", e));
                assert(text::views(errors@) =~= errors_before + seq!["Error: "@ + e@]);
            },
        }
        i += 1;
    }
    assert(outcomes@.take(i as int) =~= outcomes@);
    reports.push(cat2("  ", status));
    (errors, reports)
}

// ---------------------------------------------------------------------------
// Reviewing
// ---------------------------------------------------------------------------

/// Whether all patterns are blank.
pub open spec fn all_blank(ptns: Seq<Seq<char>>) -> bool {
    forall|i: int| 0 <= i < ptns.len() ==> text::is_blank(#[trigger] ptns[i])
}

/// Whether one of several wildcard patterns matches a repository.
pub open spec fn some_matches(reposlug: Seq<char>, ptns: Seq<Seq<char>>) -> bool {
    exists|i: int|
        0 <= i < ptns.len() && patterns::wildcard_matches(#[trigger] ptns[i], reposlug)
}

/// Whether no backslash stands in any of several texts.
pub open spec fn no_backslash(texts: Seq<Seq<char>>) -> bool {
    forall|i: int| 0 <= i < texts.len() ==> !(#[trigger] texts[i]).contains('\\')
}

/// Those of several texts that are picked.
pub open spec fn picked(texts: Seq<Seq<char>>, picks: Seq<bool>) -> Seq<Seq<char>>
    decreases texts.len(),
{
    if texts.len() == 0 {
        Seq::empty()
    } else if picks[texts.len() - 1] {
        picked(texts.drop_last(), picks).push(texts.last())
    } else {
        picked(texts.drop_last(), picks)
    }
}

/// Those of several texts that are picked.
pub fn pick_slugs(slugs: &Vec<String>, picks: &Vec<bool>) -> (r: Vec<String>)
    requires
        picks@.len() == slugs@.len(),
    ensures
        text::views(r@) == picked(text::views(slugs@), picks@),
{
    broadcast use text::lemma_views_push;

    let ghost all = text::views(slugs@);
    let mut r: Vec<String> = Vec::new();
    let mut i: usize = 0;
    assert(text::views(r@) =~= picked(all.take(0), picks@));
    while i < slugs.len()
        invariant
            i <= slugs@.len(),
            picks@.len() == slugs@.len(),
            all == text::views(slugs@),
            text::views(r@) == picked(all.take(i as int), picks@),
        decreases slugs@.len() - i,
    {
        assert(all[i as int] == slugs@[i as int]@);
        assert(all.take(i + 1).drop_last() =~= all.take(i as int));
        if picks[i] {
            r.push(owned(&slugs[i]));
        }
        i += 1;
    }
    assert(all.take(i as int) =~= all);
    r
}

/// Whether all patterns are blank.
fn are_blank(ptns: &Vec<String>) -> (r: bool)
    ensures
        r == all_blank(text::views(ptns@)),
{
    let ghost all = text::views(ptns@);
    let mut i: usize = 0;
    while i < ptns.len()
        invariant
            i <= ptns@.len(),
            all == text::views(ptns@),
            forall|k: int| 0 <= k < i ==> text::is_blank(#[trigger] all[k]),
        decreases ptns@.len() - i,
    {
        assert(all[i as int] == ptns@[i as int]@);
        if !blank(&ptns[i]) {
            return false;
        }
        i += 1;
    }
    true
}

/// Whether one of several wildcard patterns matches a repository.
fn any_match(reposlug: &str, ptns: &Vec<String>) -> (r: bool)
    ensures
        rightly_picked(r, reposlug@, text::views(ptns@)),
{
    let ghost all = text::views(ptns@);
    let mut i: usize = 0;
    while i < ptns.len()
        invariant
            i <= ptns@.len(),
            all == text::views(ptns@),
            !reposlug@.contains('\\') ==> forall|k: int|
                0 <= k < i && !(#[trigger] all[k]).contains('\\') ==> !patterns::wildcard_matches(
                    all[k],
                    reposlug@,
                ),
        decreases ptns@.len() - i,
    {
        assert(all[i as int] == ptns@[i as int]@);
        if wildcard_match(&ptns[i], reposlug) {
            return true;
        }
        i += 1;
    }
    false
}

/// Whether one of several wildcard patterns, and one without a backslash, matches
/// a repository.
pub open spec fn plainly_matches(reposlug: Seq<char>, ptns: Seq<Seq<char>>) -> bool {
    exists|i: int|
        0 <= i < ptns.len() && !(#[trigger] ptns[i]).contains('\\') && patterns::wildcard_matches(
            ptns[i],
            reposlug,
        )
}

/// Whether a repository is rightly picked, or not. How a backslash is taken
/// depends on the machine; where there is none in a slug, a pattern without one
/// that matches it picks it, and where there is none in any pattern either,
/// nothing else does.
pub open spec fn rightly_picked(pick: bool, reposlug: Seq<char>, ptns: Seq<Seq<char>>) -> bool {
    !reposlug.contains('\\') ==> {
        &&& plainly_matches(reposlug, ptns) ==> pick
        &&& no_backslash(ptns) ==> pick == some_matches(reposlug, ptns)
    }
}

/// Whether repositories are rightly picked, each of them.
pub open spec fn all_rightly_picked(
    picks: Seq<bool>,
    slugs: Seq<Seq<char>>,
    ptns: Seq<Seq<char>>,
) -> bool {
    &&& picks.len() == slugs.len()
    &&& forall|i: int|
        0 <= i < slugs.len() ==> rightly_picked(#[trigger] picks[i], slugs[i], ptns)
}

/// Whether `kept` are the repositories that a review is about: all where the
/// patterns are blank, and else those that a wildcard pattern matches.
pub open spec fn is_filtering(
    kept: Seq<Seq<char>>,
    slugs: Seq<Seq<char>>,
    ptns: Seq<Seq<char>>,
) -> bool {
    if all_blank(ptns) {
        kept == slugs
    } else {
        picks_out(kept, slugs, ptns)
    }
}

/// Whether `kept` are those of several repositories that are rightly picked.
pub open spec fn picks_out(
    kept: Seq<Seq<char>>,
    slugs: Seq<Seq<char>>,
    ptns: Seq<Seq<char>>,
) -> bool {
    exists|picks: Seq<bool>|
        #[trigger] all_rightly_picked(picks, slugs, ptns) && kept == picked(slugs, picks)
}

/// The repositories that a review is about: all where the patterns are blank, and
/// else those that a wildcard pattern matches.
pub fn filter_slugs(slugs: Vec<String>, ptns: &Vec<String>) -> (r: Vec<String>)
    ensures
        is_filtering(text::views(r@), text::views(slugs@), text::views(ptns@)),
{
    if are_blank(ptns) {
        return slugs;
    }
    let ghost all = text::views(slugs@);
    let ghost wild = text::views(ptns@);
    let mut picks: Vec<bool> = Vec::new();
    let mut i: usize = 0;
    while i < slugs.len()
        invariant
            i <= slugs@.len(),
            picks@.len() == i,
            all == text::views(slugs@),
            wild == text::views(ptns@),
            forall|k: int| 0 <= k < i ==> rightly_picked(#[trigger] picks@[k], all[k], wild),
        decreases slugs@.len() - i,
    {
        assert(all[i as int] == slugs@[i as int]@);
        picks.push(any_match(&slugs[i], ptns));
        i += 1;
    }
    assert(all_rightly_picked(picks@, all, wild));
    pick_slugs(&slugs, &picks)
}

/// Which repositories a wildcard pattern matches.
pub open spec fn hits(slugs: Seq<Seq<char>>, ptns: Seq<Seq<char>>) -> Seq<bool> {
    slugs.map_values(|slug: Seq<char>| some_matches(slug, ptns))
}

/// Without a backslash anywhere, the repositories that a review is about are
/// exactly those that a wildcard pattern matches.
pub proof fn law_filtering_is_exact(
    kept: Seq<Seq<char>>,
    slugs: Seq<Seq<char>>,
    ptns: Seq<Seq<char>>,
)
    requires
        is_filtering(kept, slugs, ptns),
        !all_blank(ptns),
        no_backslash(ptns),
        no_backslash(slugs),
    ensures
        kept == picked(slugs, hits(slugs, ptns)),
{
    let picks = choose|picks: Seq<bool>|
        #[trigger] all_rightly_picked(picks, slugs, ptns) && kept == picked(slugs, picks);
    assert forall|i: int| 0 <= i < slugs.len() implies picks[i] == hits(slugs, ptns)[i] by {
        assert(rightly_picked(picks[i], slugs[i], ptns));
    }
    assert(picks =~= hits(slugs, ptns));
}

/// Whether a review needs to know the open pull requests.
pub fn needs_prs(action: &ReviewAction) -> (r: bool)
    ensures
        r == !(action is Purge),
{
    match action {
        ReviewAction::Purge {  } => false,
        _ => true,
    }
}

/// Whether a review is about closed pull requests too.
pub open spec fn wants_closed(action: ReviewAction) -> bool {
    action matches ReviewAction::Clone { all, .. } && all
}

/// Whether a review is about closed pull requests too.
pub fn asks_for_closed(action: &ReviewAction) -> (r: bool)
    ensures
        r == wants_closed(*action),
{
    match action {
        ReviewAction::Clone { all, .. } => *all,
        _ => false,
    }
}

/// Whether a review lists pull requests of a title.
pub open spec fn title_wanted(title: Seq<char>, ptns: Seq<Seq<char>>) -> bool {
    ptns.len() == 0 || exists|i: int|
        0 <= i < ptns.len() && text::begins_with(title, #[trigger] ptns[i])
}

/// The repositories of several pull requests of one title.
pub open spec fn group_repos(group: (Seq<char>, Seq<github::PrFacts>)) -> Seq<RepoFacts> {
    group.1.map_values(
        |pr: github::PrFacts| crate::repo::remote_repo(pr.0, group.0, pr.1),
    )
}

/// Whether a review is about the pull requests of a title.
pub open spec fn group_wanted(action: ReviewAction, title: Seq<char>) -> bool {
    match action {
        ReviewAction::Ls { change_id_ptns, .. } => title_wanted(title, text::views(change_id_ptns@)),
        ReviewAction::Clone { change_id, .. } => title == change_id@,
        ReviewAction::Approve { change_id, .. } => title == change_id@,
        ReviewAction::Delete { change_id } => title == change_id@,
        ReviewAction::Purge {  } => false,
    }
}

/// The repositories of the groups that a review is about.
pub open spec fn groups_repos(
    action: ReviewAction,
    groups: Seq<(Seq<char>, Seq<github::PrFacts>)>,
) -> Seq<RepoFacts>
    decreases groups.len(),
{
    if groups.len() == 0 {
        Seq::empty()
    } else {
        let before = groups_repos(action, groups.drop_last());
        if group_wanted(action, groups.last().0) {
            before + group_repos(groups.last())
        } else {
            before
        }
    }
}

/// Whether one of several repositories has a slug.
pub open spec fn has_slug(repos: Seq<RepoFacts>, slug: Seq<char>) -> bool {
    exists|i: int| 0 <= i < repos.len() && (#[trigger] repos[i]).reposlug == slug
}

/// Of several repositories the first of each slug.
pub open spec fn once_each(repos: Seq<RepoFacts>) -> Seq<RepoFacts>
    decreases repos.len(),
{
    if repos.len() == 0 {
        Seq::empty()
    } else {
        let before = once_each(repos.drop_last());
        if has_slug(before, repos.last().reposlug) {
            before
        } else {
            before.push(repos.last())
        }
    }
}

/// The repositories, with their pull requests, that a review is about. A purge is
/// about all repositories. A review that is about closed pull requests too, of
/// which there can be many, is about each repository once.
pub open spec fn review_targets(
    action: ReviewAction,
    groups: Seq<(Seq<char>, Seq<github::PrFacts>)>,
    slugs: Seq<Seq<char>>,
) -> Seq<RepoFacts> {
    match action {
        ReviewAction::Purge {  } => slugs.map_values(
            |slug: Seq<char>| crate::repo::remote_repo(slug, "SLAM"@, 0),
        ),
        _ => if wants_closed(action) {
            once_each(groups_repos(action, groups))
        } else {
            groups_repos(action, groups)
        },
    }
}

/// Whether one of several repositories has a slug.
fn find_slug(repos: &Vec<Repo>, slug: &str) -> (r: bool)
    ensures
        r == has_slug(repos_facts(repos@), slug@),
{
    let ghost all = repos_facts(repos@);
    let mut i: usize = 0;
    while i < repos.len()
        invariant
            i <= repos@.len(),
            all == repos_facts(repos@),
            forall|k: int| 0 <= k < i ==> (#[trigger] all[k]).reposlug != slug@,
        decreases repos@.len() - i,
    {
        assert(all[i as int] == repos@[i as int]@);
        if same(&repos[i].reposlug, slug) {
            return true;
        }
        i += 1;
    }
    false
}

/// Of several repositories the first of each slug.
fn keep_once_each(repos: &Vec<Repo>) -> (r: Vec<Repo>)
    ensures
        repos_facts(r@) == once_each(repos_facts(repos@)),
{
    let ghost all = repos_facts(repos@);
    let mut r: Vec<Repo> = Vec::new();
    let mut i: usize = 0;
    assert(repos_facts(r@) =~= once_each(all.take(0)));
    while i < repos.len()
        invariant
            i <= repos@.len(),
            all == repos_facts(repos@),
            repos_facts(r@) == once_each(all.take(i as int)),
        decreases repos@.len() - i,
    {
        assert(all[i as int] == repos@[i as int]@);
        assert(all.take(i + 1).drop_last() =~= all.take(i as int));
        let ghost before = repos_facts(r@);
        if !find_slug(&r, &repos[i].reposlug) {
            r.push(repos[i].copy());
            assert(repos_facts(r@) =~= before.push(all[i as int]));
        }
        i += 1;
    }
    assert(all.take(i as int) =~= all);
    r
}

/// A review of closed pull requests too loses no repository, and has none twice.
pub proof fn law_once_each_loses_nothing(repos: Seq<RepoFacts>, slug: Seq<char>)
    ensures
        has_slug(once_each(repos), slug) == has_slug(repos, slug),
        forall|i: int, j: int|
            0 <= i < j < once_each(repos).len() ==> (#[trigger] once_each(repos)[i]).reposlug != (
            #[trigger] once_each(repos)[j]).reposlug,
    decreases repos.len(),
{
    if repos.len() > 0 {
        let front = repos.drop_last();
        let before = once_each(front);
        let now = once_each(repos);
        law_once_each_loses_nothing(front, slug);
        if has_slug(front, slug) {
            let i = choose|i: int| 0 <= i < front.len() && (#[trigger] front[i]).reposlug == slug;
            assert(repos[i].reposlug == slug);
            let k = choose|k: int| 0 <= k < before.len() && (#[trigger] before[k]).reposlug == slug;
            assert(now[k].reposlug == slug);
        } else if has_slug(repos, slug) {
            let i = choose|i: int| 0 <= i < repos.len() && (#[trigger] repos[i]).reposlug == slug;
            assert(i < front.len() ==> front[i] == repos[i]);
            assert(now[now.len() - 1].reposlug == slug);
        } else if has_slug(now, slug) {
            let k = choose|k: int| 0 <= k < now.len() && (#[trigger] now[k]).reposlug == slug;
            assert(repos[repos.len() - 1] == repos.last());
            assert(k < before.len() ==> before[k] == now[k]);
        }
        assert forall|i: int, j: int| 0 <= i < j < now.len() implies (
        #[trigger] now[i]).reposlug != (#[trigger] now[j]).reposlug by {
            assert(now[i] == before[i]);
            if j < before.len() {
                assert(now[j] == before[j]);
            }
        }
    }
}

/// Whether a review lists pull requests of a title.
fn wants_title(title: &str, ptns: &Vec<String>) -> (r: bool)
    ensures
        r == title_wanted(title@, text::views(ptns@)),
{
    let ghost all = text::views(ptns@);
    assert(all.len() == ptns@.len());
    if ptns.len() == 0 {
        return true;
    }
    let mut i: usize = 0;
    while i < ptns.len()
        invariant
            i <= ptns@.len(),
            all == text::views(ptns@),
            forall|k: int| 0 <= k < i ==> !text::begins_with(title@, #[trigger] all[k]),
        decreases ptns@.len() - i,
    {
        assert(all[i as int] == ptns@[i as int]@);
        if starts_with(title, &ptns[i]) {
            return true;
        }
        i += 1;
    }
    false
}

/// Whether a review is about the pull requests of a title.
fn wants_group(action: &ReviewAction, title: &str) -> (r: bool)
    ensures
        r == group_wanted(*action, title@),
{
    match action {
        ReviewAction::Ls { change_id_ptns, .. } => wants_title(title, change_id_ptns),
        ReviewAction::Clone { change_id, .. } => same(title, change_id),
        ReviewAction::Approve { change_id, .. } => same(title, change_id),
        ReviewAction::Delete { change_id } => same(title, change_id),
        ReviewAction::Purge {  } => false,
    }
}

/// Adds the repositories of several pull requests of one title.
fn add_group(out: &mut Vec<Repo>, title: &str, prs: &Vec<Pr>)
    ensures
        repos_facts(final(out)@) == repos_facts(old(out)@) + group_repos(
            (title@, prs@.map_values(|pr: Pr| github::pr_facts(pr))),
        ),
{
    let ghost start = repos_facts(out@);
    let ghost facts = prs@.map_values(|pr: Pr| github::pr_facts(pr));
    let ghost all = group_repos((title@, facts));
    let mut i: usize = 0;
    assert(start + all.take(0) =~= start);
    while i < prs.len()
        invariant
            i <= prs@.len(),
            facts == prs@.map_values(|pr: Pr| github::pr_facts(pr)),
            all == group_repos((title@, facts)),
            repos_facts(out@) == start + all.take(i as int),
        decreases prs@.len() - i,
    {
        let pr: &Pr = &prs[i];
        assert(facts[i as int] == github::pr_facts(prs@[i as int]));
        let ghost before = repos_facts(out@);
        out.push(Repo::create_repo_from_remote_with_pr(&pr.0, title, pr.1));
        assert(repos_facts(out@) =~= before.push(all[i as int]));
        assert(start + all.take(i + 1) =~= before.push(all[i as int]));
        i += 1;
    }
    assert(all.take(i as int) =~= all);
}

/// The repositories, with their pull requests, that a review is about.
pub fn select_targets(
    action: &ReviewAction,
    groups: &Vec<(String, Vec<Pr>)>,
    slugs: &Vec<String>,
) -> (r: Vec<Repo>)
    ensures
        repos_facts(r@) == review_targets(
            *action,
            github::groups_facts(groups@),
            text::views(slugs@),
        ),
{
    let mut r: Vec<Repo> = Vec::new();
    match action {
        ReviewAction::Purge {  } => {
            let ghost all = text::views(slugs@).map_values(
                |slug: Seq<char>| crate::repo::remote_repo(slug, "SLAM"@, 0),
            );
            let mut i: usize = 0;
            assert(repos_facts(r@) =~= all.take(0));
            while i < slugs.len()
                invariant
                    i <= slugs@.len(),
                    all == text::views(slugs@).map_values(
                        |slug: Seq<char>| crate::repo::remote_repo(slug, "SLAM"@, 0),
                    ),
                    repos_facts(r@) == all.take(i as int),
                decreases slugs@.len() - i,
            {
                assert(text::views(slugs@)[i as int] == slugs@[i as int]@);
                let ghost before = repos_facts(r@);
                r.push(Repo::create_repo_from_remote_with_pr(&slugs[i], "SLAM", 0));
                assert(repos_facts(r@) =~= before.push(all[i as int]));
                assert(all.take(i + 1) =~= before.push(all[i as int]));
                i += 1;
            }
            assert(text::views(slugs@).len() == slugs@.len());
            assert(all.take(i as int) =~= all);
        },
        _ => {
            let ghost all = github::groups_facts(groups@);
            let mut i: usize = 0;
            assert(repos_facts(r@) =~= groups_repos(*action, all.take(0)));
            while i < groups.len()
                invariant
                    i <= groups@.len(),
                    all == github::groups_facts(groups@),
                    repos_facts(r@) == groups_repos(*action, all.take(i as int)),
                decreases groups@.len() - i,
            {
                assert(all.take(i + 1).drop_last() =~= all.take(i as int));
                let group: &(String, Vec<Pr>) = &groups[i];
                assert(all[i as int] == (
                    group.0@,
                    group.1@.map_values(|pr: Pr| github::pr_facts(pr)),
                ));
                if wants_group(action, &group.0) {
                    add_group(&mut r, &group.0, &group.1);
                }
                i += 1;
            }
            assert(all.take(i as int) =~= all);
            if asks_for_closed(action) {
                return keep_once_each(&r);
            }
        },
    }
    r
}

/// Which rounds a review of so many repositories makes: one for a summary, and one
/// for the work itself, where that is not done by then. A listing has no summary,
/// and cloning a single repository has none either.
pub fn review_rounds(action: &ReviewAction, repos: usize) -> (r: (bool, bool))
    ensures
        r.0 == (if action is Ls {
            false
        } else if action is Clone {
            repos > 1
        } else {
            repos > 0
        }),
        r.1 == (action is Ls || action is Clone),
{
    match action {
        ReviewAction::Ls { .. } => (false, true),
        ReviewAction::Clone { .. } => (repos > 1, true),
        _ => (repos > 0, false),
    }
}

/// What is said of a repository in the summary of a review.
pub open spec fn summary_words(result: Result<String, String>) -> Seq<char> {
    "  "@ + match result {
        Ok(words) => words@,
        Err(e) => "Error: "@ + e@,
    }
}

/// What is said of a repository in the summary of a review.
pub fn summary_of(result: &Result<String, String>) -> (r: String)
    ensures
        r@ == summary_words(*result),
{
    match result {
        Ok(words) => cat2("  ", words),
        Err(e) => cat2("  ", &cat2("Error: ", e)),
    }
}

/// What is said of a repository in a review.
pub open spec fn output_words(reposlug: Seq<char>, result: Result<String, String>) -> Seq<char> {
    match result {
        Ok(words) => words@,
        Err(e) => "Error processing "@ + reposlug + ": "@ + e@,
    }
}

/// What is said of a repository in a review.
pub fn output_of(repo: &Repo, result: &Result<String, String>) -> (r: String)
    ensures
        r@ == output_words(repo@.reposlug, *result),
{
    match result {
        Ok(words) => owned(words),
        Err(e) => cat4("Error processing ", &repo.reposlug, ": ", e),
    }
}

// ---------------------------------------------------------------------------
// Advice
// ---------------------------------------------------------------------------

/// What an error suggests to look into.
#[derive(Debug, Clone, Copy, PartialEq, Eq, Structural)]
pub enum Advice {
    /// What GitHub answered could not be read.
    Json,
    /// GitHub could not be asked.
    Access,
    /// Nothing in particular.
    Plain,
}

/// What an error suggests to look into.
pub open spec fn advice(error: Seq<char>) -> Advice {
    if text::holds(error, "Failed to parse open PRs JSON"@) || text::holds(
        error,
        "invalid type: map, expected u64"@,
    ) {
        Advice::Json
    } else if text::holds(error, "Failed to list open PRs"@) || text::holds(
        error,
        "Failed to list remote branches"@,
    ) {
        Advice::Access
    } else {
        Advice::Plain
    }
}

/// What an error suggests to look into.
pub fn advice_on(error: &str) -> (r: Advice)
    ensures
        r == advice(error@),
{
    if contains(error, "Failed to parse open PRs JSON") || contains(
        error,
        "invalid type: map, expected u64",
    ) {
        Advice::Json
    } else if contains(error, "Failed to list open PRs") || contains(
        error,
        "Failed to list remote branches",
    ) {
        Advice::Access
    } else {
        Advice::Plain
    }
}

/// What is said of an error, line by line.
pub open spec fn advice_text(error: Seq<char>) -> Seq<Seq<char>> {
    let start = seq!["Error: "@ + error, ""@];
    match advice(error) {
        Advice::Json => start + seq![
            "💡 This appears to be a JSON parsing issue. To troubleshoot:"@,
            "   1. Run with debug logging: RUST_LOG=debug slam ..."@,
            "   2. Check GitHub CLI authentication: gh auth status"@,
            "   3. Verify repository access and permissions"@,
            ""@,
            "For more help, see: https://github.com/scottidler/slam/blob/main/README.md#troubleshooting-common-issues"@,
        ],
        Advice::Access => start + seq![
            "💡 This appears to be a GitHub CLI or repository access issue:"@,
            "   1. Ensure 'gh' is installed and authenticated: gh auth status"@,
            "   2. Verify you have access to the repository"@,
            "   3. Check repository name spelling and organization"@,
            "   4. Run with debug logging: RUST_LOG=debug slam ..."@,
        ],
        Advice::Plain => start + seq![
            "💡 For detailed troubleshooting information, run with debug logging:"@,
            "   RUST_LOG=debug slam [your command]"@,
        ],
    }
}

/// What is said of an error, line by line.
pub fn advice_lines(error: &str) -> (r: Vec<String>)
    ensures
        text::views(r@) == advice_text(error@),
{
    let r = match advice_on(error) {
        Advice::Json => vec![
            cat2("Error: ", error),
            owned(""),
            owned("💡 This appears to be a JSON parsing issue. To troubleshoot:"),
            owned("   1. Run with debug logging: RUST_LOG=debug slam ..."),
            owned("   2. Check GitHub CLI authentication: gh auth status"),
            owned("   3. Verify repository access and permissions"),
            owned(""),
            owned(
                "For more help, see: https://github.com/scottidler/slam/blob/main/README.md#troubleshooting-common-issues",
            ),
        ],
        Advice::Access => vec![
            cat2("Error: ", error),
            owned(""),
            owned("💡 This appears to be a GitHub CLI or repository access issue:"),
            owned("   1. Ensure 'gh' is installed and authenticated: gh auth status"),
            owned("   2. Verify you have access to the repository"),
            owned("   3. Check repository name spelling and organization"),
            owned("   4. Run with debug logging: RUST_LOG=debug slam ..."),
        ],
        Advice::Plain => vec![
            cat2("Error: ", error),
            owned(""),
            owned("💡 For detailed troubleshooting information, run with debug logging:"),
            owned("   RUST_LOG=debug slam [your command]"),
        ],
    };
    assert(text::views(r@) =~= advice_text(error@));
    r
}

} // verus!
