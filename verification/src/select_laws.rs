//! What holds of every choice of repositories and pull requests.
use crate::cli::ReviewAction;
use crate::command::{Reply, Turn};
use crate::create::Outcome;
use crate::github;
use crate::json;
use crate::json::Document;
use crate::numbers;
use crate::order;
use crate::repo::RepoFacts;
use crate::requests;
use crate::select;
use crate::select::{Level, Selection};
use crate::text;
use vstd::prelude::*;

verus! {

// ---------------------------------------------------------------------------
// Choosing repositories by name
// ---------------------------------------------------------------------------

/// Whether a text starts with another.
pub open spec fn starts(s: Seq<char>, p: Seq<char>) -> bool {
    p.len() <= s.len() && s.take(p.len() as int) == p
}

/// Whether a name is what stands between the first slash of a slug and the next
/// one, or its end.
pub open spec fn after_slash(slug: Seq<char>, name: Seq<char>, slash: int) -> bool {
    &&& 0 <= slash < slug.len()
    &&& slug[slash] == '/'
    &&& !slug.take(slash).contains('/')
    &&& !name.contains('/')
    &&& slash + 1 + name.len() <= slug.len()
    &&& slug.subrange(slash + 1, slash + 1 + name.len()) == name
    &&& slash + 1 + name.len() == slug.len() || slug[slash + 1 + name.len()] == '/'
}

proof fn lemma_part_end(s: Seq<char>, from: int)
    requires
        0 <= from <= s.len(),
    ensures
        from <= crate::paths::part_end(s, from) <= s.len(),
        !s.subrange(from, crate::paths::part_end(s, from)).contains('/'),
        crate::paths::part_end(s, from) < s.len() ==> s[crate::paths::part_end(s, from)] == '/',
    decreases s.len() - from,
{
    let end = crate::paths::part_end(s, from);
    if from < s.len() && s[from] != '/' {
        lemma_part_end(s, from + 1);
        let part = s.subrange(from, end);
        assert forall|k: int| 0 <= k < part.len() implies part[k] != '/' by {
            if k > 0 {
                assert(part[k] == s.subrange(from + 1, end)[k - 1]);
            }
        }
    }
}

/// The name of a repository is what stands behind the slash of its slug. A slug
/// without a slash is a name.
pub proof fn law_name_stands_behind_the_slash(slug: Seq<char>)
    ensures
        !slug.contains('/') ==> select::reponame(slug) == slug,
        slug.contains('/') ==> exists|slash: int| #[trigger]
            after_slash(slug, select::reponame(slug), slash),
{
    let slash = crate::paths::part_end(slug, 0);
    lemma_part_end(slug, 0);
    assert(slug.subrange(0, slash) =~= slug.take(slash));
    if slash < slug.len() {
        assert(slug.contains(slug[slash]));
        lemma_part_end(slug, slash + 1);
        assert(after_slash(slug, select::reponame(slug), slash));
    } else {
        assert(slug.take(slash) =~= slug);
    }
}

/// Whether the name of a repository is one of several specifications.
pub open spec fn name_is_given(r: RepoFacts, specs: Seq<Seq<char>>) -> bool {
    exists|j: int| 0 <= j < specs.len() && select::reponame(r.reposlug) == #[trigger] specs[j]
}

/// Whether the name of a repository starts with one of several specifications.
pub open spec fn name_start_is_given(r: RepoFacts, specs: Seq<Seq<char>>) -> bool {
    exists|j: int|
        0 <= j < specs.len() && starts(select::reponame(r.reposlug), #[trigger] specs[j])
}

/// Whether the slug of a repository is one of several specifications.
pub open spec fn slug_is_given(r: RepoFacts, specs: Seq<Seq<char>>) -> bool {
    exists|j: int| 0 <= j < specs.len() && r.reposlug == #[trigger] specs[j]
}

/// Whether the slug of a repository starts with one of several specifications.
pub open spec fn slug_start_is_given(r: RepoFacts, specs: Seq<Seq<char>>) -> bool {
    exists|j: int| 0 <= j < specs.len() && starts(r.reposlug, #[trigger] specs[j])
}

/// Whether a repository is meant by specifications, among those that are there: by
/// its name, and where no name is given by the start of its name, and where no
/// name starts so by its slug, and where no slug is given by the start of its slug.
pub open spec fn is_meant(r: RepoFacts, repos: Seq<RepoFacts>, specs: Seq<Seq<char>>) -> bool {
    if exists|i: int| 0 <= i < repos.len() && name_is_given(#[trigger] repos[i], specs) {
        name_is_given(r, specs)
    } else if exists|i: int|
        0 <= i < repos.len() && name_start_is_given(#[trigger] repos[i], specs) {
        name_start_is_given(r, specs)
    } else if exists|i: int| 0 <= i < repos.len() && slug_is_given(#[trigger] repos[i], specs) {
        slug_is_given(r, specs)
    } else {
        slug_start_is_given(r, specs)
    }
}

proof fn lemma_starts(s: Seq<char>, p: Seq<char>)
    ensures
        text::begins_with(s, p) == starts(s, p),
{
    if p.len() <= s.len() {
        assert(s.subrange(0, p.len() as int) =~= s.take(p.len() as int));
    }
}

proof fn lemma_levels(r: RepoFacts, specs: Seq<Seq<char>>)
    ensures
        select::any_matches(r.reposlug, specs, Level::Name) == name_is_given(r, specs),
        select::any_matches(r.reposlug, specs, Level::NameStart) == name_start_is_given(r, specs),
        select::any_matches(r.reposlug, specs, Level::Slug) == slug_is_given(r, specs),
        select::any_matches(r.reposlug, specs, Level::SlugStart) == slug_start_is_given(r, specs),
{
    let slug = r.reposlug;
    let name = select::reponame(slug);
    assert forall|j: int| 0 <= j < specs.len() implies text::begins_with(
        name,
        #[trigger] specs[j],
    ) == starts(name, specs[j]) && text::begins_with(slug, specs[j]) == starts(slug, specs[j]) by {
        lemma_starts(name, specs[j]);
        lemma_starts(slug, specs[j]);
    }
    if select::any_matches(slug, specs, Level::Name) {
        let j = choose|j: int|
            0 <= j < specs.len() && select::spec_matches(slug, #[trigger] specs[j], Level::Name);
        assert(name == specs[j]);
    }
    if name_is_given(r, specs) {
        let j = choose|j: int| 0 <= j < specs.len() && name == #[trigger] specs[j];
        assert(select::spec_matches(slug, specs[j], Level::Name));
    }
    if select::any_matches(slug, specs, Level::NameStart) {
        let j = choose|j: int|
            0 <= j < specs.len() && select::spec_matches(
                slug,
                #[trigger] specs[j],
                Level::NameStart,
            );
        assert(starts(name, specs[j]));
    }
    if name_start_is_given(r, specs) {
        let j = choose|j: int| 0 <= j < specs.len() && starts(name, #[trigger] specs[j]);
        assert(select::spec_matches(slug, specs[j], Level::NameStart));
    }
    if select::any_matches(slug, specs, Level::Slug) {
        let j = choose|j: int|
            0 <= j < specs.len() && select::spec_matches(slug, #[trigger] specs[j], Level::Slug);
        assert(slug == specs[j]);
    }
    if slug_is_given(r, specs) {
        let j = choose|j: int| 0 <= j < specs.len() && slug == #[trigger] specs[j];
        assert(select::spec_matches(slug, specs[j], Level::Slug));
    }
    if select::any_matches(slug, specs, Level::SlugStart) {
        let j = choose|j: int|
            0 <= j < specs.len() && select::spec_matches(
                slug,
                #[trigger] specs[j],
                Level::SlugStart,
            );
        assert(starts(slug, specs[j]));
    }
    if slug_start_is_given(r, specs) {
        let j = choose|j: int| 0 <= j < specs.len() && starts(slug, #[trigger] specs[j]);
        assert(select::spec_matches(slug, specs[j], Level::SlugStart));
    }
}

proof fn lemma_matched(repos: Seq<RepoFacts>, specs: Seq<Seq<char>>, level: Level)
    ensures
        select::matched(repos, specs, level).len() > 0 <==> exists|i: int|
            0 <= i < repos.len() && select::any_matches(
                (#[trigger] repos[i]).reposlug,
                specs,
                level,
            ),
        forall|r: RepoFacts| #[trigger]
            select::matched(repos, specs, level).contains(r) <==> repos.contains(r)
                && select::any_matches(r.reposlug, specs, level),
{
    let pick = |r: RepoFacts|
        if select::any_matches(r.reposlug, specs, level) {
            Some(r)
        } else {
            None
        };
    let all = select::matched(repos, specs, level);
    assert(all == repos.filter_map(pick));
    assert forall|r: RepoFacts| #[trigger] all.contains(r) implies repos.contains(r)
        && select::any_matches(r.reposlug, specs, level) by {
        requests::lemma_left_from(repos, pick, r);
    }
    assert forall|r: RepoFacts|
        repos.contains(r) && select::any_matches(r.reposlug, specs, level) implies
        #[trigger] all.contains(r) by {
        let i = choose|i: int| 0 <= i < repos.len() && repos[i] == r;
        requests::lemma_left_has(repos, pick, i);
    }
    if all.len() > 0 {
        assert(all.contains(all[0]));
        let i = choose|i: int| 0 <= i < repos.len() && repos[i] == all[0];
        assert(select::any_matches(repos[i].reposlug, specs, level));
    }
    if exists|i: int|
        0 <= i < repos.len() && select::any_matches((#[trigger] repos[i]).reposlug, specs, level) {
        let i = choose|i: int|
            0 <= i < repos.len() && select::any_matches(
                (#[trigger] repos[i]).reposlug,
                specs,
                level,
            );
        assert(repos.contains(repos[i]));
        assert(all.contains(repos[i]));
    }
}

proof fn lemma_chosen(repos: Seq<RepoFacts>, specs: Seq<Seq<char>>, r: RepoFacts)
    ensures
        select::chosen(repos, specs).contains(r) <==> repos.contains(r) && (specs.len() == 0
            || is_meant(r, repos, specs)),
{
    lemma_matched(repos, specs, Level::Name);
    lemma_matched(repos, specs, Level::NameStart);
    lemma_matched(repos, specs, Level::Slug);
    lemma_matched(repos, specs, Level::SlugStart);
    lemma_levels(r, specs);
    assert forall|i: int| 0 <= i < repos.len() implies select::any_matches(
        (#[trigger] repos[i]).reposlug,
        specs,
        Level::Name,
    ) == name_is_given(repos[i], specs) && select::any_matches(
        repos[i].reposlug,
        specs,
        Level::NameStart,
    ) == name_start_is_given(repos[i], specs) && select::any_matches(
        repos[i].reposlug,
        specs,
        Level::Slug,
    ) == slug_is_given(repos[i], specs) by {
        lemma_levels(repos[i], specs);
    }
}

proof fn lemma_sorting_keeps(sorted: Seq<RepoFacts>, repos: Seq<RepoFacts>, r: RepoFacts)
    requires
        select::is_sorting(sorted, repos),
    ensures
        sorted.contains(r) <==> repos.contains(r),
{
    let pick = |x: RepoFacts|
        if x.reposlug == r.reposlug {
            Some(x)
        } else {
            None
        };
    let a = select::of_slug(sorted, r.reposlug);
    let b = select::of_slug(repos, r.reposlug);
    assert(a == sorted.filter_map(pick));
    assert(b == repos.filter_map(pick));
    if sorted.contains(r) {
        let i = choose|i: int| 0 <= i < sorted.len() && sorted[i] == r;
        requests::lemma_left_has(sorted, pick, i);
        requests::lemma_left_from(repos, pick, r);
    }
    if repos.contains(r) {
        let i = choose|i: int| 0 <= i < repos.len() && repos[i] == r;
        requests::lemma_left_has(repos, pick, i);
        requests::lemma_left_from(sorted, pick, r);
    }
}

/// The repositories that specifications choose are exactly those of the given ones
/// that they mean, each kind of match coming before, and shadowing, the ones after
/// it. Without specifications all are chosen. They are as many as there are, and
/// come in the order of their slugs.
pub proof fn law_specifications_choose_what_they_mean(
    sorted: Seq<RepoFacts>,
    repos: Seq<RepoFacts>,
    specs: Seq<Seq<char>>,
)
    requires
        select::is_sorting(sorted, select::chosen(repos, specs)),
    ensures
        forall|r: RepoFacts| #[trigger]
            sorted.contains(r) <==> repos.contains(r) && (specs.len() == 0 || is_meant(
                r,
                repos,
                specs,
            )),
        specs.len() == 0 ==> sorted.len() == repos.len(),
        forall|i: int, j: int|
            0 <= i < j < sorted.len() ==> order::at_most(
                (#[trigger] sorted[i]).reposlug,
                (#[trigger] sorted[j]).reposlug,
            ),
{
    assert forall|r: RepoFacts| #[trigger] sorted.contains(r) <==> repos.contains(r) && (
    specs.len() == 0 || is_meant(r, repos, specs)) by {
        lemma_chosen(repos, specs, r);
        lemma_sorting_keeps(sorted, select::chosen(repos, specs), r);
    }
}

/// Where no name is or starts with a specification, and the slug of some repository
/// is one, every repository that is chosen has a slug that is one.
pub proof fn law_whole_slugs_shadow_their_starts(
    sorted: Seq<RepoFacts>,
    repos: Seq<RepoFacts>,
    specs: Seq<Seq<char>>,
    i: int,
)
    requires
        select::is_sorting(sorted, select::chosen(repos, specs)),
        specs.len() > 0,
        forall|k: int|
            0 <= k < repos.len() ==> !name_is_given(#[trigger] repos[k], specs)
                && !name_start_is_given(repos[k], specs),
        exists|k: int| 0 <= k < repos.len() && slug_is_given(#[trigger] repos[k], specs),
        0 <= i < sorted.len(),
    ensures
        exists|j: int| 0 <= j < specs.len() && sorted[i].reposlug == #[trigger] specs[j],
{
    law_specifications_choose_what_they_mean(sorted, repos, specs);
    assert(sorted.contains(sorted[i]));
    assert(slug_is_given(sorted[i], specs));
}

/// Whether a text comes before another: at the first place where they differ its
/// character is the lower one, or it ends there.
pub open spec fn differ_at(a: Seq<char>, b: Seq<char>, k: int) -> bool {
    &&& 0 <= k < b.len() && k <= a.len()
    &&& a.take(k) == b.take(k)
    &&& k == a.len() || (a[k] as int) < (b[k] as int)
}

/// Texts are ordered by the first place where they differ.
pub proof fn law_order_is_that_of_dictionaries(a: Seq<char>, b: Seq<char>)
    ensures
        order::at_most(a, b) <==> a == b || exists|k: int| #[trigger] differ_at(a, b, k),
    decreases a.len(),
{
    if a.len() == 0 {
        if b.len() > 0 {
            assert(a.take(0) =~= b.take(0));
            assert(differ_at(a, b, 0));
        } else {
            assert(a =~= b);
        }
    } else if b.len() > 0 {
        let x = a.drop_first();
        let y = b.drop_first();
        law_order_is_that_of_dictionaries(x, y);
        if a[0] == b[0] {
            if x == y {
                assert(a =~= seq![a[0]] + x);
                assert(b =~= seq![b[0]] + y);
            }
            if exists|k: int| #[trigger] differ_at(x, y, k) {
                let k = choose|k: int| #[trigger] differ_at(x, y, k);
                assert(a.take(k + 1) =~= seq![a[0]] + x.take(k));
                assert(b.take(k + 1) =~= seq![b[0]] + y.take(k));
                assert(differ_at(a, b, k + 1));
            }
            if exists|k: int| #[trigger] differ_at(a, b, k) {
                let k = choose|k: int| #[trigger] differ_at(a, b, k);
                assert(x.take(k - 1) =~= a.take(k).drop_first());
                assert(y.take(k - 1) =~= b.take(k).drop_first());
                assert(differ_at(x, y, k - 1));
            }
        } else {
            if (a[0] as int) < (b[0] as int) {
                assert(a.take(0) =~= b.take(0));
                assert(differ_at(a, b, 0));
            }
            if exists|k: int| #[trigger] differ_at(a, b, k) {
                let k = choose|k: int| #[trigger] differ_at(a, b, k);
                if k > 0 {
                    assert(a.take(k)[0] == b.take(k)[0]);
                }
            }
        }
    } else {
        if exists|k: int| #[trigger] differ_at(a, b, k) {
            let k = choose|k: int| #[trigger] differ_at(a, b, k);
        }
    }
}

// ---------------------------------------------------------------------------
// Creating
// ---------------------------------------------------------------------------

/// The selection of a command to create holds exactly those of the repositories
/// discovered that the specifications mean and, where files were asked for, that
/// have any.
pub proof fn law_selection_is_what_was_asked_for(
    s: Selection,
    discovered: Seq<RepoFacts>,
    ptns: Seq<Seq<char>>,
    files_given: bool,
    change_given: bool,
    r: RepoFacts,
)
    requires
        select::selects(s, discovered, ptns, files_given, change_given),
    ensures
        select::repos_facts(s.repos@).contains(r) <==> discovered.contains(r) && (ptns.len() == 0
            || is_meant(r, discovered, ptns)) && (files_given ==> r.files.len() > 0),
{
    let sorted = choose|sorted: Seq<RepoFacts>|
        select::is_sorting(sorted, select::chosen(discovered, ptns))
            && #[trigger] select::is_selection(
            s,
            sorted,
            discovered.len(),
            ptns.len(),
            files_given,
            change_given,
        );
    law_specifications_choose_what_they_mean(sorted, discovered, ptns);
    let pick = |x: RepoFacts|
        if x.files.len() > 0 {
            Some(x)
        } else {
            None
        };
    let left = select::repos_facts(s.repos@);
    if files_given {
        assert(left == sorted.filter_map(pick));
        if left.contains(r) {
            requests::lemma_left_from(sorted, pick, r);
        }
        if sorted.contains(r) && r.files.len() > 0 {
            let i = choose|i: int| 0 <= i < sorted.len() && sorted[i] == r;
            requests::lemma_left_has(sorted, pick, i);
        }
    }
}

/// The line that counts the repositories counts, from its end, those discovered,
/// those that the specifications mean, those with such files and those that are
/// changed.
pub proof fn law_status_counts_each_step(all: nat, meant: nat, filed: nat, changed: nat)
    ensures
        select::counts_line(all, None, None, None) == numbers::decimal(all) + "🔍"@,
        select::counts_line(all, Some(meant), None, None) == numbers::decimal(meant) + "📦"@
            + " | "@ + (numbers::decimal(all) + "🔍"@),
        select::counts_line(all, None, Some(filed), None) == numbers::decimal(filed) + "📄"@
            + " | "@ + (numbers::decimal(all) + "🔍"@),
        select::counts_line(all, Some(meant), Some(filed), Some(changed)) == numbers::decimal(
            changed,
        ) + "📝"@ + " | "@ + (numbers::decimal(filed) + "📄"@) + " | "@ + (numbers::decimal(meant)
            + "📦"@) + " | "@ + (numbers::decimal(all) + "🔍"@),
{
    reveal_with_fuel(text::join, 4);
    let a = numbers::decimal(all) + "🔍"@;
    let m = numbers::decimal(meant) + "📦"@;
    let f = numbers::decimal(filed) + "📄"@;
    let c = numbers::decimal(changed) + "📝"@;
    assert(select::counts(all, None, None, None) =~= seq![a]);
    assert(select::counts(all, Some(meant), None, None) =~= seq![m, a]);
    assert(select::counts(all, None, Some(filed), None) =~= seq![f, a]);
    assert(select::counts(all, Some(meant), Some(filed), Some(changed)) =~= seq![c, f, m, a]);
    assert(seq![m, a].drop_last() =~= seq![m]);
    assert(seq![f, a].drop_last() =~= seq![f]);
    assert(seq![c, f, m, a].drop_last() =~= seq![c, f, m]);
    assert(seq![c, f, m].drop_last() =~= seq![c, f]);
    assert(seq![c, f].drop_last() =~= seq![c]);
}

/// Every report on a change is shown, and every error is told; nothing else is.
pub proof fn law_every_outcome_is_told(outcomes: Seq<Outcome>, words: Seq<char>)
    ensures
        select::reports_in(outcomes).contains(words) <==> exists|i: int|
            0 <= i < outcomes.len() && (#[trigger] outcomes[i] matches Ok(Some(report)) && report@
                == words),
        select::errors_in(outcomes).contains("Error: "@ + words) <==> exists|i: int|
            0 <= i < outcomes.len() && (#[trigger] outcomes[i] matches Err(e) && e@ == words),
{
    let report = |o: Outcome|
        match o {
            Ok(Some(report)) => Some(report@),
            _ => None,
        };
    let error = |o: Outcome|
        match o {
            Err(e) => Some("Error: "@ + e@),
            _ => None,
        };
    assert(select::reports_in(outcomes) == outcomes.filter_map(report));
    assert(select::errors_in(outcomes) == outcomes.filter_map(error));
    if select::reports_in(outcomes).contains(words) {
        requests::lemma_left_from(outcomes, report, words);
    }
    if select::errors_in(outcomes).contains("Error: "@ + words) {
        requests::lemma_left_from(outcomes, error, "Error: "@ + words);
        let i = choose|i: int|
            0 <= i < outcomes.len() && error(#[trigger] outcomes[i]) == Some("Error: "@ + words);
        let e = outcomes[i]->Err_0@;
        let n = "Error: "@.len() as int;
        assert(("Error: "@ + e).skip(n) =~= e);
        assert(("Error: "@ + words).skip(n) =~= words);
    }
    assert forall|i: int| 0 <= i < outcomes.len() implies (#[trigger] outcomes[i] matches Ok(
        Some(r),
    ) ==> select::reports_in(outcomes).contains(r@)) && (outcomes[i] matches Err(e)
        ==> select::errors_in(outcomes).contains("Error: "@ + e@)) by {
        if report(outcomes[i]) is Some {
            requests::lemma_left_has(outcomes, report, i);
        }
        if error(outcomes[i]) is Some {
            requests::lemma_left_has(outcomes, error, i);
        }
    }
}

// ---------------------------------------------------------------------------
// Reviewing
// ---------------------------------------------------------------------------

/// Whether an answer is a list of documents.
pub open spec fn lists_documents(reply: Reply, documents: Seq<Document>) -> bool {
    &&& requests::went_well(reply)
    &&& reply matches Ok(out) && json::json_in(out.stdout@) == Ok::<Document, Seq<char>>(
        Document::List(documents),
    )
}

/// Whether a document is a pull request of this title and number.
pub open spec fn is_pull_request(d: Document, title: Seq<char>, number: u64) -> bool {
    &&& json::at(d, "title"@) == Document::Text(title)
    &&& json::at(d, "number"@) == Document::Number(Some(number))
}

/// Whether an answer lists a pull request of this title and number.
pub open spec fn lists_pull_request(reply: Reply, title: Seq<char>, number: u64) -> bool {
    exists|documents: Seq<Document>, k: int|
        lists_documents(reply, documents) && 0 <= k < documents.len() && is_pull_request(
            #[trigger] documents[k],
            title,
            number,
        )
}

/// Whether the answer for a repository lists a pull request of this title and
/// number.
pub open spec fn has_pull_request(
    slugs: Seq<Seq<char>>,
    replies: Seq<Reply>,
    slug: Seq<char>,
    title: Seq<char>,
    number: u64,
) -> bool {
    exists|i: int|
        0 <= i < slugs.len() && #[trigger] slugs[i] == slug && lists_pull_request(
            replies[i],
            title,
            number,
        )
}

/// Whether a review is about the pull requests of a title: a listing about those
/// that start with one of its patterns, or about all, and others about those of
/// their change.
pub open spec fn is_about_title(action: ReviewAction, title: Seq<char>) -> bool {
    match action {
        ReviewAction::Ls { change_id_ptns, .. } => change_id_ptns@.len() == 0 || exists|j: int|
            0 <= j < change_id_ptns@.len() && starts(title, #[trigger] change_id_ptns@[j]@),
        ReviewAction::Clone { change_id, .. } => title == change_id@,
        ReviewAction::Approve { change_id, .. } => title == change_id@,
        ReviewAction::Delete { change_id } => title == change_id@,
        ReviewAction::Purge {  } => false,
    }
}

proof fn lemma_about_title(action: ReviewAction, title: Seq<char>)
    ensures
        select::group_wanted(action, title) == is_about_title(action, title),
{
    match action {
        ReviewAction::Ls { change_id_ptns, .. } => {
            let all = text::views(change_id_ptns@);
            assert(all.len() == change_id_ptns@.len());
            if select::title_wanted(title, all) && all.len() > 0 {
                let j = choose|j: int|
                    0 <= j < all.len() && text::begins_with(title, #[trigger] all[j]);
                assert(all[j] == change_id_ptns@[j]@);
                lemma_starts(title, all[j]);
            }
            if is_about_title(action, title) && all.len() > 0 {
                let j = choose|j: int|
                    0 <= j < change_id_ptns@.len() && starts(
                        title,
                        #[trigger] change_id_ptns@[j]@,
                    );
                assert(all[j] == change_id_ptns@[j]@);
                lemma_starts(title, all[j]);
            }
        },
        _ => {},
    }
}

proof fn lemma_titled_said(
    slug: Seq<char>,
    reply: Reply,
    title: Seq<char>,
    number: u64,
)
    ensures
        (exists|author: Seq<char>| #[trigger]
            github::titled_said(slug, reply).contains((title, (slug, number, author))))
            <==> lists_pull_request(reply, title, number),
        forall|p: (Seq<char>, github::PrFacts)| #[trigger]
            github::titled_said(slug, reply).contains(p) ==> p.1.0 == slug,
{
    let pick = |pr: Document| github::titled_in(slug, pr);
    let all = github::titled_said(slug, reply);
    let none = Seq::<char>::empty();
    let documents = match github::document_said(reply, none) {
        Ok(Document::List(ds)) => ds,
        _ => Seq::empty(),
    };
    assert(all == documents.filter_map(pick)) by {
        assert(Seq::<Document>::empty().filter_map(pick) =~= Seq::empty());
    }
    assert forall|p: (Seq<char>, github::PrFacts)| #[trigger] all.contains(p) implies p.1.0
        == slug by {
        requests::lemma_left_from(documents, pick, p);
    }
    if exists|author: Seq<char>| #[trigger] all.contains((title, (slug, number, author))) {
        let author = choose|author: Seq<char>| #[trigger]
            all.contains((title, (slug, number, author)));
        requests::lemma_left_from(documents, pick, (title, (slug, number, author)));
        let k = choose|k: int|
            0 <= k < documents.len() && pick(#[trigger] documents[k]) == Some(
                (title, (slug, number, author)),
            );
        assert(is_pull_request(documents[k], title, number));
        assert(lists_documents(reply, documents));
    }
    if lists_pull_request(reply, title, number) {
        let (ds, k) = choose|ds: Seq<Document>, k: int|
            lists_documents(reply, ds) && 0 <= k < ds.len() && is_pull_request(
                #[trigger] ds[k],
                title,
                number,
            );
        assert(ds == documents);
        requests::lemma_left_has(documents, pick, k);
        let author = github::author_in(ds[k]);
        assert(all.contains((title, (slug, number, author))));
    }
}

proof fn lemma_all_titled(
    slugs: Seq<Seq<char>>,
    replies: Seq<Reply>,
    p: (Seq<char>, github::PrFacts),
)
    ensures
        github::all_titled(slugs, replies).contains(p) <==> exists|i: int|
            0 <= i < slugs.len() && github::titled_said(#[trigger] slugs[i], replies[i]).contains(
                p,
            ),
    decreases slugs.len(),
{
    if slugs.len() > 0 {
        let front = slugs.drop_last();
        let last = slugs.len() - 1;
        lemma_all_titled(front, replies, p);
        let a = github::all_titled(front, replies);
        let b = github::titled_said(slugs.last(), replies[last]);
        let now = github::all_titled(slugs, replies);
        assert(now == a + b);
        if now.contains(p) {
            let k = choose|k: int| 0 <= k < now.len() && now[k] == p;
            if k < a.len() {
                assert(a[k] == p);
                let i = choose|i: int|
                    0 <= i < front.len() && github::titled_said(
                        #[trigger] front[i],
                        replies[i],
                    ).contains(p);
                assert(slugs[i] == front[i]);
            } else {
                assert(b[k - a.len()] == p);
                assert(github::titled_said(slugs[last], replies[last]).contains(p));
            }
        }
        if exists|i: int|
            0 <= i < slugs.len() && github::titled_said(#[trigger] slugs[i], replies[i]).contains(
                p,
            ) {
            let i = choose|i: int|
                0 <= i < slugs.len() && github::titled_said(
                    #[trigger] slugs[i],
                    replies[i],
                ).contains(p);
            if i < last {
                assert(front[i] == slugs[i]);
                let k = choose|k: int| 0 <= k < a.len() && a[k] == p;
                assert(now[k] == p);
            } else {
                let k = choose|k: int| 0 <= k < b.len() && b[k] == p;
                assert(now[a.len() + k] == p);
            }
        }
    }
}

proof fn lemma_groups(
    action: ReviewAction,
    groups: Seq<(Seq<char>, Seq<github::PrFacts>)>,
    r: RepoFacts,
)
    ensures
        select::groups_repos(action, groups).contains(r) <==> exists|g: int|
            0 <= g < groups.len() && select::group_wanted(action, (#[trigger] groups[g]).0)
                && select::group_repos(groups[g]).contains(r),
    decreases groups.len(),
{
    if groups.len() > 0 {
        let front = groups.drop_last();
        let last = groups.len() - 1;
        lemma_groups(action, front, r);
        let a = select::groups_repos(action, front);
        let b = select::group_repos(groups.last());
        let now = select::groups_repos(action, groups);
        if now.contains(r) {
            let k = choose|k: int| 0 <= k < now.len() && now[k] == r;
            if k < a.len() {
                assert(a[k] == r);
                let g = choose|g: int|
                    0 <= g < front.len() && select::group_wanted(action, (#[trigger] front[g]).0)
                        && select::group_repos(front[g]).contains(r);
                assert(groups[g] == front[g]);
            } else {
                assert(b[k - a.len()] == r);
                assert(select::group_repos(groups[last]).contains(r));
            }
        }
        if exists|g: int|
            0 <= g < groups.len() && select::group_wanted(action, (#[trigger] groups[g]).0)
                && select::group_repos(groups[g]).contains(r) {
            let g = choose|g: int|
                0 <= g < groups.len() && select::group_wanted(action, (#[trigger] groups[g]).0)
                    && select::group_repos(groups[g]).contains(r);
            if g < last {
                assert(front[g] == groups[g]);
                let k = choose|k: int| 0 <= k < a.len() && a[k] == r;
                assert(now[k] == r);
            } else {
                let k = choose|k: int| 0 <= k < b.len() && b[k] == r;
                assert(now[a.len() + k] == r);
            }
        }
    }
}

/// A repository in a review of a pull request: its slug, the change and the number
/// of the pull request, and nothing else.
pub open spec fn under_review(slug: Seq<char>, title: Seq<char>, number: u64) -> RepoFacts {
    RepoFacts {
        reposlug: slug,
        change_id: title,
        change: None,
        files: Seq::empty(),
        pr_number: number,
    }
}

proof fn lemma_with_title_from(
    prs: Seq<(Seq<char>, github::PrFacts)>,
    title: Seq<char>,
    pr: github::PrFacts,
) -> (k: int)
    requires
        github::with_title(prs, title).contains(pr),
    ensures
        0 <= k < prs.len(),
        prs[k] == (title, pr),
    decreases prs.len(),
{
    let front = prs.drop_last();
    let last = prs.len() - 1;
    let now = github::with_title(prs, title);
    let before = github::with_title(front, title);
    let j = choose|j: int| 0 <= j < now.len() && now[j] == pr;
    if j < before.len() {
        assert(before[j] == pr);
        lemma_with_title_from(front, title, pr)
    } else {
        assert(prs[last] == prs.last());
        last
    }
}

proof fn lemma_grouped_repos(
    action: ReviewAction,
    prs: Seq<(Seq<char>, github::PrFacts)>,
    r: RepoFacts,
)
    ensures
        select::groups_repos(action, github::grouped(prs)).contains(r) <==> exists|k: int|
            0 <= k < prs.len() && select::group_wanted(action, (#[trigger] prs[k]).0) && r
                == under_review(prs[k].1.0, prs[k].0, prs[k].1.1),
{
    let groups = github::grouped(prs);
    lemma_groups(action, groups, r);
    github::law_groups_cover_all(prs);
    if exists|g: int|
        0 <= g < groups.len() && select::group_wanted(action, (#[trigger] groups[g]).0)
            && select::group_repos(groups[g]).contains(r) {
        let g = choose|g: int|
            0 <= g < groups.len() && select::group_wanted(action, (#[trigger] groups[g]).0)
                && select::group_repos(groups[g]).contains(r);
        let title = groups[g].0;
        let these = select::group_repos(groups[g]);
        let j = choose|j: int| 0 <= j < these.len() && these[j] == r;
        let pr = groups[g].1[j];
        assert(groups[g].1 == github::with_title(prs, title));
        assert(groups[g].1.contains(pr));
        let k = lemma_with_title_from(prs, title, pr);
        assert(r == under_review(prs[k].1.0, prs[k].0, prs[k].1.1));
    }
    if exists|k: int|
        0 <= k < prs.len() && select::group_wanted(action, (#[trigger] prs[k]).0) && r
            == under_review(prs[k].1.0, prs[k].0, prs[k].1.1) {
        let k = choose|k: int|
            0 <= k < prs.len() && select::group_wanted(action, (#[trigger] prs[k]).0) && r
                == under_review(prs[k].1.0, prs[k].0, prs[k].1.1);
        let g = choose|g: int|
            0 <= g < groups.len() && #[trigger] groups[g].0 == prs[k].0
                && groups[g].1.contains(prs[k].1);
        let j = choose|j: int| 0 <= j < groups[g].1.len() && groups[g].1[j] == prs[k].1;
        assert(select::group_repos(groups[g])[j] == r);
        assert(select::group_wanted(action, groups[g].0));
    }
}

/// A review, other than one of closed pull requests too and a purge, is about
/// exactly the pull requests that GitHub lists for its repositories under a title
/// that it is about.
pub proof fn law_reviews_are_about_the_pull_requests_listed(
    action: ReviewAction,
    slugs: Seq<Seq<char>>,
    replies: Seq<Reply>,
    r: RepoFacts,
)
    requires
        !(action is Purge),
        !(action matches ReviewAction::Clone { all, .. } && all),
    ensures
        select::review_targets(
            action,
            github::grouped(github::all_titled(slugs, replies)),
            slugs,
        ).contains(r) <==> is_about_title(action, r.change_id) && r == under_review(
            r.reposlug,
            r.change_id,
            r.pr_number,
        ) && has_pull_request(slugs, replies, r.reposlug, r.change_id, r.pr_number),
{
    lemma_listed(action, slugs, replies, r);
}

proof fn lemma_listed(
    action: ReviewAction,
    slugs: Seq<Seq<char>>,
    replies: Seq<Reply>,
    r: RepoFacts,
)
    ensures
        select::groups_repos(
            action,
            github::grouped(github::all_titled(slugs, replies)),
        ).contains(r) <==> is_about_title(action, r.change_id) && r == under_review(
            r.reposlug,
            r.change_id,
            r.pr_number,
        ) && has_pull_request(slugs, replies, r.reposlug, r.change_id, r.pr_number),
{
    let prs = github::all_titled(slugs, replies);
    let slug = r.reposlug;
    let title = r.change_id;
    let number = r.pr_number;
    lemma_grouped_repos(action, prs, r);
    lemma_about_title(action, title);
    if exists|k: int|
        0 <= k < prs.len() && select::group_wanted(action, (#[trigger] prs[k]).0) && r
            == under_review(prs[k].1.0, prs[k].0, prs[k].1.1) {
        let k = choose|k: int|
            0 <= k < prs.len() && select::group_wanted(action, (#[trigger] prs[k]).0) && r
                == under_review(prs[k].1.0, prs[k].0, prs[k].1.1);
        assert(prs.contains(prs[k]));
        lemma_all_titled(slugs, replies, prs[k]);
        let i = choose|i: int|
            0 <= i < slugs.len() && github::titled_said(#[trigger] slugs[i], replies[i]).contains(
                prs[k],
            );
        lemma_titled_said(slugs[i], replies[i], title, number);
        assert(prs[k] == (title, (slugs[i], number, prs[k].1.2)));
        assert(has_pull_request(slugs, replies, slug, title, number));
    }
    if has_pull_request(slugs, replies, slug, title, number) && is_about_title(action, title) && r
        == under_review(slug, title, number) {
        let i = choose|i: int|
            0 <= i < slugs.len() && #[trigger] slugs[i] == slug && lists_pull_request(
                replies[i],
                title,
                number,
            );
        lemma_titled_said(slugs[i], replies[i], title, number);
        let author = choose|author: Seq<char>| #[trigger]
            github::titled_said(slug, replies[i]).contains((title, (slug, number, author)));
        let p = (title, (slug, number, author));
        lemma_all_titled(slugs, replies, p);
        let k = choose|k: int| 0 <= k < prs.len() && prs[k] == p;
        assert(select::group_wanted(action, prs[k].0));
    }
}

proof fn lemma_once_each_from(repos: Seq<RepoFacts>, r: RepoFacts)
    requires
        select::once_each(repos).contains(r),
    ensures
        repos.contains(r),
    decreases repos.len(),
{
    if repos.len() > 0 {
        let front = repos.drop_last();
        let before = select::once_each(front);
        let now = select::once_each(repos);
        let k = choose|k: int| 0 <= k < now.len() && now[k] == r;
        if k < before.len() {
            assert(before[k] == r);
            lemma_once_each_from(front, r);
            let j = choose|j: int| 0 <= j < front.len() && front[j] == r;
            assert(repos[j] == r);
        } else {
            assert(repos[repos.len() - 1] == r);
        }
    }
}

/// A clone of closed pull requests too is about every repository for which GitHub
/// lists a pull request of the change, once, and about no other.
pub proof fn law_clones_of_all_are_about_each_repository_once(
    change_id: String,
    slugs: Seq<Seq<char>>,
    replies: Seq<Reply>,
    slug: Seq<char>,
)
    ensures
        ({
            let targets = select::review_targets(
                ReviewAction::Clone { change_id, all: true },
                github::grouped(github::all_titled(slugs, replies)),
                slugs,
            );
            &&& (exists|i: int| 0 <= i < targets.len() && (#[trigger] targets[i]).reposlug == slug)
                <==> exists|number: u64| #[trigger]
                has_pull_request(slugs, replies, slug, change_id@, number)
            &&& forall|i: int, j: int|
                0 <= i < j < targets.len() ==> (#[trigger] targets[i]).reposlug != (
                #[trigger] targets[j]).reposlug
            &&& forall|i: int|
                0 <= i < targets.len() ==> (#[trigger] targets[i]).change_id == change_id@
        }),
{
    let action = ReviewAction::Clone { change_id, all: true };
    let all = select::groups_repos(
        action,
        github::grouped(github::all_titled(slugs, replies)),
    );
    let targets = select::once_each(all);
    assert(select::wants_closed(action));
    select::law_once_each_loses_nothing(all, slug);
    assert forall|i: int| 0 <= i < targets.len() implies (#[trigger] targets[i]).change_id
        == change_id@ && all.contains(targets[i]) by {
        assert(targets.contains(targets[i]));
        lemma_once_each_from(all, targets[i]);
        lemma_listed(action, slugs, replies, targets[i]);
    }
    if exists|i: int| 0 <= i < targets.len() && (#[trigger] targets[i]).reposlug == slug {
        let i = choose|i: int| 0 <= i < targets.len() && (#[trigger] targets[i]).reposlug == slug;
        lemma_listed(action, slugs, replies, targets[i]);
        assert(has_pull_request(slugs, replies, slug, change_id@, targets[i].pr_number));
    }
    if exists|number: u64| #[trigger]
        has_pull_request(slugs, replies, slug, change_id@, number) {
        let number = choose|number: u64| #[trigger]
            has_pull_request(slugs, replies, slug, change_id@, number);
        let r = under_review(slug, change_id@, number);
        lemma_listed(action, slugs, replies, r);
        let i = choose|i: int| 0 <= i < all.len() && all[i] == r;
        assert(all[i].reposlug == slug);
        assert(select::has_slug(targets, slug));
    }
}

/// A purge is about every repository that it was given, in their order, whatever
/// pull requests there are.
pub proof fn law_purges_are_about_every_repository(
    groups: Seq<(Seq<char>, Seq<github::PrFacts>)>,
    slugs: Seq<Seq<char>>,
)
    ensures
        ({
            let targets = select::review_targets(ReviewAction::Purge {  }, groups, slugs);
            &&& targets.len() == slugs.len()
            &&& forall|i: int|
                0 <= i < slugs.len() ==> #[trigger] targets[i] == under_review(
                    slugs[i],
                    "SLAM"@,
                    0,
                )
        }),
{
}

/// The requests for the pull requests of a repository name it. Only a clone of
/// closed pull requests too asks for more than the open ones.
pub proof fn law_pull_requests_are_asked_of_the_repository(slug: Seq<char>)
    ensures
        github::titles_wish(slug, false) == requests::run_here(
            "gh"@,
            seq![
                "pr"@, "list"@, "--repo"@, slug, "--state"@, "open"@, "--json"@,
                "title,number,author"@, "--limit"@, "100"@,
            ],
        ),
        github::titles_wish(slug, true) == requests::run_here(
            "gh"@,
            seq![
                "pr"@, "list"@, "--repo"@, slug, "--state"@, "all"@, "--json"@,
                "title,number,author"@, "--limit"@, "100"@,
            ],
        ),
        forall|action: ReviewAction| #[trigger]
            select::wants_closed(action) <==> (action matches ReviewAction::Clone { all, .. }
                && all),
{
}

/// Whether a document is a repository of this name that is not archived.
pub open spec fn is_live(d: Document, name: Seq<char>) -> bool {
    &&& json::at(d, "name"@) == Document::Text(name)
    &&& json::at(d, "isArchived"@) != Document::Bool(true)
}

/// Of the repositories that GitHub lists for an organisation exactly those are
/// found that are not archived. A listing that failed is an error.
pub proof fn law_live_repositories_are_found(
    org: Seq<char>,
    reply: Reply,
    documents: Seq<Document>,
    slug: Seq<char>,
)
    requires
        lists_documents(reply, documents),
    ensures
        requests::asks(
            github::find_repos_in_org_turn(org, Seq::empty()),
            requests::run_here(
                "gh"@,
                seq!["repo"@, "list"@, org, "--limit"@, "1000"@, "--json"@, "name,isArchived"@],
            ),
        ),
        github::find_repos_in_org_turn(org, seq![reply]) matches Turn::Done(Ok(slugs), _) && (
        slugs.contains(slug) <==> exists|k: int, name: Seq<char>|
            0 <= k < documents.len() && is_live(#[trigger] documents[k], name) && slug
                == #[trigger] (org + "/"@ + name)),
{
    let pick = |d: Document| github::live_repo(org, d);
    let slugs = github::live_repos(org, Document::List(documents));
    assert(slugs == documents.filter_map(pick));
    if slugs.contains(slug) {
        requests::lemma_left_from(documents, pick, slug);
        let k = choose|k: int|
            0 <= k < documents.len() && pick(#[trigger] documents[k]) == Some(slug);
        let name = json::text_at(documents[k], "name"@).unwrap();
        assert(is_live(documents[k], name));
        assert(slug == org + "/"@ + name);
    }
    if exists|k: int, name: Seq<char>|
        0 <= k < documents.len() && is_live(#[trigger] documents[k], name) && slug
            == #[trigger] (org + "/"@ + name) {
        let (k, name) = choose|k: int, name: Seq<char>|
            0 <= k < documents.len() && is_live(#[trigger] documents[k], name) && slug
                == #[trigger] (org + "/"@ + name);
        requests::lemma_left_has(documents, pick, k);
    }
}

/// A listing of repositories that was refused or failed finds none, and says so.
pub proof fn law_no_repositories_without_a_listing(org: Seq<char>, reply: Reply)
    requires
        !requests::went_well(reply),
    ensures
        github::find_repos_in_org_turn(org, seq![reply]) matches Turn::Done(Err(_), _),
{
}

proof fn lemma_picked(texts: Seq<Seq<char>>, picks: Seq<bool>, x: Seq<char>)
    ensures
        select::picked(texts, picks).contains(x) <==> exists|i: int|
            0 <= i < texts.len() && #[trigger] texts[i] == x && picks[i],
    decreases texts.len(),
{
    if texts.len() > 0 {
        let front = texts.drop_last();
        let last = texts.len() - 1;
        lemma_picked(front, picks, x);
        let before = select::picked(front, picks);
        let now = select::picked(texts, picks);
        if now.contains(x) {
            let k = choose|k: int| 0 <= k < now.len() && now[k] == x;
            if k < before.len() {
                assert(before[k] == x);
                let i = choose|i: int|
                    0 <= i < front.len() && #[trigger] front[i] == x && picks[i];
                assert(texts[i] == x);
            } else {
                assert(texts[last] == x);
            }
        }
        if exists|i: int| 0 <= i < texts.len() && #[trigger] texts[i] == x && picks[i] {
            let i = choose|i: int| 0 <= i < texts.len() && #[trigger] texts[i] == x && picks[i];
            if i < last {
                assert(front[i] == x);
                let k = choose|k: int| 0 <= k < before.len() && before[k] == x;
                assert(now[k] == x);
            } else {
                assert(now[now.len() - 1] == x);
            }
        }
    }
}

/// The repositories that a review is about are those of the organisation that one
/// of its patterns matches, where no backslash stands anywhere. Where all patterns
/// are blank they are all of them.
pub proof fn law_patterns_pick_repositories(
    kept: Seq<Seq<char>>,
    slugs: Seq<Seq<char>>,
    ptns: Seq<Seq<char>>,
    slug: Seq<char>,
)
    requires
        select::is_filtering(kept, slugs, ptns),
    ensures
        (forall|i: int| 0 <= i < ptns.len() ==> text::is_blank(#[trigger] ptns[i])) ==> kept
            == slugs,
        (exists|i: int| 0 <= i < ptns.len() && !text::is_blank(#[trigger] ptns[i])) && (forall|
            i: int,
        |
            0 <= i < ptns.len() ==> !(#[trigger] ptns[i]).contains('\\')) && (forall|i: int|
            0 <= i < slugs.len() ==> !(#[trigger] slugs[i]).contains('\\')) ==> (kept.contains(slug)
            <==> slugs.contains(slug) && exists|i: int|
            0 <= i < ptns.len() && crate::patterns::wildcard_matches(#[trigger] ptns[i], slug)),
{
    if (exists|i: int| 0 <= i < ptns.len() && !text::is_blank(#[trigger] ptns[i])) && (forall|
        i: int,
    |
        0 <= i < ptns.len() ==> !(#[trigger] ptns[i]).contains('\\')) && (forall|i: int|
        0 <= i < slugs.len() ==> !(#[trigger] slugs[i]).contains('\\')) {
        assert(!select::all_blank(ptns));
        let picks = choose|picks: Seq<bool>|
            #[trigger] select::all_rightly_picked(picks, slugs, ptns) && kept == select::picked(
                slugs,
                picks,
            );
        lemma_picked(slugs, picks, slug);
        assert forall|i: int| 0 <= i < slugs.len() implies picks[i] == select::some_matches(
            #[trigger] slugs[i],
            ptns,
        ) by {
            assert(select::rightly_picked(picks[i], slugs[i], ptns));
        }
    }
}

// ---------------------------------------------------------------------------
// What is told of a selection
// ---------------------------------------------------------------------------

/// A count, with its sign and a bar behind it, if it is given.
pub open spec fn counted(n: Option<nat>, sign: Seq<char>) -> Seq<char> {
    match n {
        Some(n) => numbers::decimal(n) + sign + " | "@,
        None => Seq::empty(),
    }
}

/// The counts that are given stand in a row: how many change, how many have files, how
/// many match, and at the end how many there are.
pub proof fn law_counts_stand_in_a_row(
    all: nat,
    matching: Option<nat>,
    filed: Option<nat>,
    changing: Option<nat>,
)
    ensures
        select::counts_line(all, matching, filed, changing) == counted(changing, "📝"@) + counted(
            filed,
            "📄"@,
        ) + counted(matching, "📦"@) + numbers::decimal(all) + "🔍"@,
{
    let none = Seq::<Seq<char>>::empty();
    let end = numbers::decimal(all) + "🔍"@;
    let words = select::counts(all, matching, filed, changing);
    let one = match changing {
        Some(n) => seq![numbers::decimal(n) + "📝"@],
        None => none,
    };
    let two = match filed {
        Some(n) => one.push(numbers::decimal(n) + "📄"@),
        None => one,
    };
    let three = match matching {
        Some(n) => two.push(numbers::decimal(n) + "📦"@),
        None => two,
    };
    assert(words =~= three.push(end));
    lemma_barred(none, changing, "📝"@, one);
    lemma_barred(one, filed, "📄"@, two);
    lemma_barred(two, matching, "📦"@, three);
    lemma_ended(three, end);
    assert(barred(none) =~= Seq::empty());
    assert(select::counts_line(all, matching, filed, changing) =~= counted(changing, "📝"@)
        + counted(filed, "📄"@) + counted(matching, "📦"@) + numbers::decimal(all) + "🔍"@);
}

/// Words with a bar behind each of them.
spec fn barred(words: Seq<Seq<char>>) -> Seq<char>
    decreases words.len(),
{
    if words.len() == 0 {
        Seq::empty()
    } else {
        barred(words.drop_last()) + words.last() + " | "@
    }
}

proof fn lemma_barred(
    before: Seq<Seq<char>>,
    n: Option<nat>,
    sign: Seq<char>,
    after: Seq<Seq<char>>,
)
    requires
        after == match n {
            Some(n) => before.push(numbers::decimal(n) + sign),
            None => before,
        },
    ensures
        barred(after) == barred(before) + counted(n, sign),
{
    match n {
        Some(n) => {
            assert(after.drop_last() =~= before);
            assert(barred(before) + (numbers::decimal(n) + sign) + " | "@ =~= barred(before) + (
            numbers::decimal(n) + sign + " | "@));
        },
        None => {
            assert(barred(before) + Seq::empty() =~= barred(before));
        },
    }
}

proof fn lemma_ended(words: Seq<Seq<char>>, end: Seq<char>)
    ensures
        text::join(words.push(end), " | "@) == barred(words) + end,
    decreases words.len(),
{
    assert(words.push(end).drop_last() =~= words);
    if words.len() == 0 {
        assert(words.push(end) =~= seq![end]);
        assert(seq![end].drop_last() =~= Seq::<Seq<char>>::empty());
        assert(barred(words) + end =~= end);
    } else {
        let front = words.drop_last();
        lemma_ended(front, words.last());
        assert(front.push(words.last()) =~= words);
    }
}

/// The line on a selection counts the repositories that are left over where a change is
/// given, those that have files where files are given, those that match where patterns
/// are given, and all that were discovered.
pub proof fn law_selections_are_counted(
    s: Selection,
    discovered: Seq<RepoFacts>,
    ptns: Seq<Seq<char>>,
    files_given: bool,
    change_given: bool,
)
    requires
        select::selects(s, discovered, ptns, files_given, change_given),
    ensures
        ({
            let left = s.repos@.len();
            let matching = select::chosen(discovered, ptns).len();
            s.status@ == counted(
                if change_given {
                    Some(left)
                } else {
                    None
                },
                "📝"@,
            ) + counted(
                if files_given {
                    Some(left)
                } else {
                    None
                },
                "📄"@,
            ) + counted(
                if ptns.len() > 0 {
                    Some(matching)
                } else {
                    None
                },
                "📦"@,
            ) + numbers::decimal(discovered.len()) + "🔍"@
        }),
{
    let sorted = choose|sorted: Seq<RepoFacts>|
        select::is_sorting(sorted, select::chosen(discovered, ptns))
            && #[trigger] select::is_selection(
            s,
            sorted,
            discovered.len(),
            ptns.len(),
            files_given,
            change_given,
        );
    let left = select::left_over(sorted, files_given);
    assert(select::repos_facts(s.repos@).len() == s.repos@.len());
    law_counts_stand_in_a_row(
        discovered.len(),
        select::if_so(ptns.len() > 0, sorted.len()),
        select::if_so(files_given, left.len()),
        select::if_so(change_given, left.len()),
    );
}

/// A listing has a heading, a line for each repository behind two blanks, its files behind
/// four if files are given, and the line that counts them. It says so where there is
/// nothing to list.
pub proof fn law_listings_name_repositories_and_files(
    repos: Seq<RepoFacts>,
    r: RepoFacts,
    status: Seq<char>,
    files_given: bool,
    k: int,
)
    ensures
        select::listing(Seq::empty(), status, files_given) == seq![
            "No repositories matched your criteria."@,
        ],
        repos.len() > 0 ==> select::listing(repos, status, files_given) == seq![
            "Matched repositories:"@,
        ] + select::all_listed(repos, files_given) + seq![seq!['\n', ' ', ' '] + status],
        select::all_listed(Seq::empty(), files_given) == Seq::<Seq<char>>::empty(),
        select::all_listed(repos.push(r), files_given) == select::all_listed(repos, files_given)
            + select::listed(r, files_given),
        select::listed(r, false) == seq![seq![' ', ' '] + r.reposlug],
        select::listed(r, true).len() == 1 + r.files.len(),
        select::listed(r, true)[0] == seq![' ', ' '] + r.reposlug,
        0 <= k < r.files.len() ==> select::listed(r, true)[k + 1] == seq![' ', ' ', ' ', ' ']
            + r.files[k],
{
    reveal_strlit("  ");
    reveal_strlit("    ");
    reveal_strlit("\n  ");
    assert("  "@ =~= seq![' ', ' ']);
    assert("    "@ =~= seq![' ', ' ', ' ', ' ']);
    assert("\n  "@ =~= seq!['\n', ' ', ' ']);
    assert(repos.push(r).drop_last() =~= repos);
    assert(seq![seq![' ', ' '] + r.reposlug] + Seq::<Seq<char>>::empty() =~= seq![
        seq![' ', ' '] + r.reposlug,
    ]);
}

/// Reports and errors are told in the order of the runs. A run that changes nothing is
/// not told of.
pub proof fn law_outcomes_are_told_in_order(outcomes: Seq<Outcome>, o: Outcome)
    ensures
        o matches Ok(Some(report)) ==> select::reports_in(outcomes.push(o)) == select::reports_in(
            outcomes,
        ).push(report@) && select::errors_in(outcomes.push(o)) == select::errors_in(outcomes),
        o matches Err(e) ==> select::errors_in(outcomes.push(o)) == select::errors_in(
            outcomes,
        ).push("Error: "@ + e@) && select::reports_in(outcomes.push(o)) == select::reports_in(
            outcomes,
        ),
        o matches Ok(None) ==> select::errors_in(outcomes.push(o)) == select::errors_in(outcomes)
            && select::reports_in(outcomes.push(o)) == select::reports_in(outcomes),
{
    assert(outcomes.push(o).drop_last() =~= outcomes);
}

/// Pull requests are grouped in the order in which their titles come first, and within a
/// group in their own order. Each is known by its repository, its number and its author.
pub proof fn law_groups_keep_the_order(
    prs: Seq<(Seq<char>, github::PrFacts)>,
    p: (Seq<char>, github::PrFacts),
    title: Seq<char>,
    slug: Seq<char>,
    d: Document,
)
    ensures
        prs.len() > 0 ==> github::titles(prs).len() > 0 && github::titles(prs)[0] == prs[0].0,
        github::titles(prs).contains(p.0) ==> github::titles(prs.push(p)) == github::titles(prs),
        !github::titles(prs).contains(p.0) ==> github::titles(prs.push(p)) == github::titles(
            prs,
        ).push(p.0),
        github::with_title(prs.push(p), p.0) == github::with_title(prs, p.0).push(p.1),
        title != p.0 ==> github::with_title(prs.push(p), title) == github::with_title(prs, title),
        github::titled_in(slug, d) matches Some((t, pr)) ==> pr.0 == slug && json::at(d, "title"@)
            == Document::Text(t) && json::at(d, "number"@) == Document::Number(Some(pr.1)) && (
        json::at(json::at(d, "author"@), "login"@) matches Document::Text(login) ==> pr.2
            == login),
{
    assert(prs.push(p).drop_last() =~= prs);
    if prs.len() > 0 {
        lemma_first_title(prs);
    }
}

proof fn lemma_first_title(prs: Seq<(Seq<char>, github::PrFacts)>)
    requires
        prs.len() > 0,
    ensures
        github::titles(prs).len() > 0,
        github::titles(prs)[0] == prs[0].0,
    decreases prs.len(),
{
    if prs.len() > 1 {
        lemma_first_title(prs.drop_last());
    } else {
        assert(github::titles(prs.drop_last()).len() == 0);
    }
}

/// Of several pull requests of a repository the first is kept.
pub proof fn law_the_first_of_a_repository_is_kept(repos: Seq<RepoFacts>, r: RepoFacts)
    ensures
        (exists|i: int| 0 <= i < repos.len() && (#[trigger] repos[i]).reposlug == r.reposlug)
            ==> select::once_each(repos.push(r)) == select::once_each(repos),
        !(exists|i: int| 0 <= i < repos.len() && (#[trigger] repos[i]).reposlug == r.reposlug)
            ==> select::once_each(repos.push(r)) == select::once_each(repos).push(r),
{
    assert(repos.push(r).drop_last() =~= repos);
    lemma_kept_slugs(repos, r.reposlug);
}

proof fn lemma_kept_slugs(repos: Seq<RepoFacts>, slug: Seq<char>)
    ensures
        select::has_slug(select::once_each(repos), slug) <==> (exists|i: int|
            0 <= i < repos.len() && (#[trigger] repos[i]).reposlug == slug),
    decreases repos.len(),
{
    if repos.len() > 0 {
        let front = repos.drop_last();
        let before = select::once_each(front);
        let now = select::once_each(repos);
        lemma_kept_slugs(front, slug);
        if select::has_slug(now, slug) {
            let i = choose|i: int| 0 <= i < now.len() && (#[trigger] now[i]).reposlug == slug;
            if i < before.len() {
                assert(before[i] == now[i]);
                let k = choose|k: int| 0 <= k < front.len() && (#[trigger] front[k]).reposlug == slug;
                assert(repos[k] == front[k]);
            } else {
                assert(repos[repos.len() - 1].reposlug == slug);
            }
        }
        if exists|i: int| 0 <= i < repos.len() && (#[trigger] repos[i]).reposlug == slug {
            let i = choose|i: int| 0 <= i < repos.len() && (#[trigger] repos[i]).reposlug == slug;
            if i < front.len() {
                assert(front[i] == repos[i]);
                let k = choose|k: int|
                    0 <= k < before.len() && (#[trigger] before[k]).reposlug == slug;
                assert(now[k] == before[k]);
            } else if select::has_slug(before, slug) {
                let k = choose|k: int|
                    0 <= k < before.len() && (#[trigger] before[k]).reposlug == slug;
                assert(now[k] == before[k]);
            } else {
                assert(now[now.len() - 1].reposlug == slug);
            }
        }
    }
}

} // verus!
