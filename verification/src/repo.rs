//! A repository with the change that is to be made to it.
use crate::command::{Meaning, Request, Wish};
use crate::diff;
use crate::diff::generate_diff;
use crate::order;
use crate::order::sorted_once;
use crate::paths;
use crate::paths::{joined_path, parent_of, relative_to};
use crate::patterns;
use crate::patterns::{is_regex, regex_matches, regex_replace_all};
use crate::report;
use crate::report::{Body, Page, Section};
use crate::text;
use crate::text::{cat3, contains, owned, replaced, same};
use vstd::prelude::*;

verus! {

/// A change to be made to the files of a repository.
#[derive(Debug, Clone)]
pub enum Change {
    /// Delete the files.
    Delete,
    /// Add a file: its path and its contents.
    Add(String, String),
    /// Put the second text in place of the first.
    Sub(String, String),
    /// Put the second text in place of what the first, as a regular expression,
    /// matches.
    Regex(String, String),
}

/// What a `Change` says.
pub enum ChangeFacts {
    Delete,
    Add(Seq<char>, Seq<char>),
    Sub(Seq<char>, Seq<char>),
    Regex(Seq<char>, Seq<char>),
}

impl View for Change {
    type V = ChangeFacts;

    open spec fn view(&self) -> ChangeFacts {
        match self {
            Change::Delete => ChangeFacts::Delete,
            Change::Add(a, b) => ChangeFacts::Add(a@, b@),
            Change::Sub(a, b) => ChangeFacts::Sub(a@, b@),
            Change::Regex(a, b) => ChangeFacts::Regex(a@, b@),
        }
    }
}

/// What a change that there may be says.
pub open spec fn change_facts(change: Option<Change>) -> Option<ChangeFacts> {
    match change {
        Some(c) => Some(c@),
        None => None,
    }
}

impl Change {
    /// A copy of this change.
    pub fn copy(&self) -> (r: Change)
        ensures
            r@ == self@,
    {
        match self {
            Change::Delete => Change::Delete,
            Change::Add(a, b) => Change::Add(owned(a), owned(b)),
            Change::Sub(a, b) => Change::Sub(owned(a), owned(b)),
            Change::Regex(a, b) => Change::Regex(owned(a), owned(b)),
        }
    }
}

/// A repository with the change that is to be made to it, or with the pull
/// request that is to be reviewed.
#[derive(Debug, Clone)]
pub struct Repo {
    /// The repository, as "org/reponame".
    pub reposlug: String,
    pub change_id: String,
    pub change: Option<Change>,
    /// The files that are concerned, as paths within the repository.
    pub files: Vec<String>,
    /// The number of the pull request; 0 where there is none.
    pub pr_number: u64,
}

/// What a `Repo` says.
#[verifier::ext_equal]
pub struct RepoFacts {
    pub reposlug: Seq<char>,
    pub change_id: Seq<char>,
    pub change: Option<ChangeFacts>,
    pub files: Seq<Seq<char>>,
    pub pr_number: u64,
}

impl View for Repo {
    type V = RepoFacts;

    open spec fn view(&self) -> RepoFacts {
        RepoFacts {
            reposlug: self.reposlug@,
            change_id: self.change_id@,
            change: change_facts(self.change),
            files: text::views(self.files@),
            pr_number: self.pr_number,
        }
    }
}

/// A repository of which only a pull request is known.
pub open spec fn remote_repo(reposlug: Seq<char>, change_id: Seq<char>, pr_number: u64) -> RepoFacts {
    RepoFacts { reposlug, change_id, change: None, files: Seq::empty(), pr_number }
}

// ---------------------------------------------------------------------------
// Finding files
// ---------------------------------------------------------------------------

/// What a pattern finds: the paths that match it, of which some may not be
/// readable, or what is wrong with the pattern.
pub type Found = Result<Vec<Result<String, String>>, String>;

/// The paths within a repository of those found that could be read; nothing
/// where one does not lie in the repository.
pub open spec fn within_repo(repo: Seq<char>, found: Seq<Result<String, String>>) -> Option<
    Seq<Seq<char>>,
>
    decreases found.len(),
{
    if found.len() == 0 {
        Some(Seq::empty())
    } else {
        match (within_repo(repo, found.drop_last()), found.last()) {
            (None, _) => None,
            (Some(before), Err(_)) => Some(before),
            (Some(before), Ok(path)) => match paths::relative(path@, repo) {
                Some(rest) => Some(before.push(rest)),
                None => None,
            },
        }
    }
}

/// What a pattern finds in a repository.
pub open spec fn files_found(repo: Seq<char>, found: Found) -> Result<Seq<Seq<char>>, Seq<char>> {
    match found {
        Err(e) => Err(e@),
        Ok(entries) => match within_repo(repo, entries@) {
            Some(files) => Ok(files),
            None => Err("prefix not found"@),
        },
    }
}

/// What several patterns find in a repository, one after the other; nothing
/// where one of them fails.
pub open spec fn all_found(repo: Seq<char>, found: Seq<Found>) -> Option<Seq<Seq<char>>>
    decreases found.len(),
{
    if found.len() == 0 {
        Some(Seq::empty())
    } else {
        match (all_found(repo, found.drop_last()), files_found(repo, found.last())) {
            (Some(before), Ok(files)) => Some(before + files),
            _ => None,
        }
    }
}

/// The pattern to look for, as a pattern for whole paths.
pub fn search_pattern(repo: &str, pattern: &str) -> (r: String)
    ensures
        r@ == paths::join(repo@, pattern@),
{
    joined_path(repo, pattern)
}

proof fn lemma_within_repo(repo: Seq<char>, found: Seq<Result<String, String>>, n: int)
    requires
        0 <= n <= found.len(),
        within_repo(repo, found.take(n)) is None,
    ensures
        within_repo(repo, found) is None,
    decreases found.len() - n,
{
    if n < found.len() {
        assert(found.take(n + 1).drop_last() =~= found.take(n));
        lemma_within_repo(repo, found, n + 1);
    } else {
        assert(found.take(n) =~= found);
    }
}

/// What a pattern finds in a repository, as paths within it. What could not be
/// read is left out.
pub fn find_files_in_repo(repo: &str, found: &Found) -> (r: Result<Vec<String>, String>)
    ensures
        r.meaning() == files_found(repo@, *found),
{
    broadcast use text::lemma_views_push;

    let entries = match found {
        Err(e) => {
            return Err(owned(e));
        },
        Ok(entries) => entries,
    };
    let mut r: Vec<String> = Vec::new();
    let mut i: usize = 0;
    assert(text::views(r@) =~= Seq::empty());
    while i < entries.len()
        invariant
            i <= entries@.len(),
            *found matches Ok(v) && v@ == entries@,
            within_repo(repo@, entries@.take(i as int)) == Some(text::views(r@)),
        decreases entries@.len() - i,
    {
        assert(entries@.take(i + 1).drop_last() =~= entries@.take(i as int));
        match &entries[i] {
            Err(_) => {},
            Ok(path) => match relative_to(path, repo) {
                Some(rest) => {
                    let ghost before = text::views(r@);
                    r.push(rest);
                    assert(text::views(r@) == before.push(rest@));
                },
                None => {
                    proof {
                        lemma_within_repo(repo@, entries@, i + 1);
                    }
                    return Err(owned("prefix not found"));
                },
            },
        }
        i += 1;
    }
    assert(entries@.take(i as int) =~= entries@);
    Ok(r)
}

proof fn lemma_all_found(repo: Seq<char>, found: Seq<Found>, n: int)
    requires
        0 <= n <= found.len(),
        all_found(repo, found.take(n)) is None,
    ensures
        all_found(repo, found) is None,
    decreases found.len() - n,
{
    if n < found.len() {
        assert(found.take(n + 1).drop_last() =~= found.take(n));
        lemma_all_found(repo, found, n + 1);
    } else {
        assert(found.take(n) =~= found);
    }
}

/// What several patterns find in a repository.
fn find_all(repo: &str, found: &Vec<Found>) -> (r: Option<Vec<String>>)
    ensures
        r.meaning() == all_found(repo@, found@),
{
    let mut r: Vec<String> = Vec::new();
    let mut i: usize = 0;
    assert(text::views(r@) =~= Seq::empty());
    while i < found.len()
        invariant
            i <= found@.len(),
            all_found(repo@, found@.take(i as int)) == Some(text::views(r@)),
        decreases found@.len() - i,
    {
        assert(found@.take(i + 1).drop_last() =~= found@.take(i as int));
        match find_files_in_repo(repo, &found[i]) {
            Ok(files) => {
                let ghost before = text::views(r@);
                let ghost new = text::views(files@);
                let mut files = files;
                r.append(&mut files);
                assert(text::views(r@) =~= before + new);
            },
            Err(_) => {
                proof {
                    lemma_all_found(repo@, found@, i + 1);
                }
                return None;
            },
        }
        i += 1;
    }
    assert(found@.take(i as int) =~= found@);
    Some(r)
}

impl Repo {
    /// The repository at the path `repo` below `root`, with the files that the
    /// patterns have found in it, sorted, each once. Nothing where the path does
    /// not lie below `root`, or where a pattern has failed.
    pub fn create_repo_from_local(
        repo: &str,
        root: &str,
        change: &Option<Change>,
        found: &Vec<Found>,
        change_id: &str,
    ) -> (r: Option<Repo>)
        ensures
            r is Some <==> paths::relative(repo@, root@) is Some && all_found(
                repo@,
                found@,
            ) is Some,
            r matches Some(made) ==> {
                &&& paths::relative(repo@, root@) == Some(made@.reposlug)
                &&& made@.change_id == change_id@
                &&& made@.change == change_facts(*change)
                &&& made@.pr_number == 0
                &&& order::rising(made@.files)
                &&& made@.files.to_set() == all_found(repo@, found@).unwrap().to_set()
            },
    {
        let reposlug = match relative_to(repo, root) {
            Some(rest) => rest,
            None => {
                return None;
            },
        };
        let files = match find_all(repo, found) {
            Some(files) => sorted_once(&files),
            None => {
                return None;
            },
        };
        let change = match change {
            Some(c) => Some(c.copy()),
            None => None,
        };
        Some(Repo { reposlug, change_id: owned(change_id), change, files, pr_number: 0 })
    }

    /// A repository of which only a pull request is known.
    pub fn create_repo_from_remote_with_pr(reposlug: &str, change_id: &str, pr_number: u64) -> (r:
        Repo)
        ensures
            r@ == remote_repo(reposlug@, change_id@, pr_number),
    {
        let r = Repo {
            reposlug: owned(reposlug),
            change_id: owned(change_id),
            change: None,
            files: Vec::new(),
            pr_number,
        };
        assert(r@.files =~= Seq::empty());
        r
    }

    /// A copy of this repository.
    pub fn copy(&self) -> (r: Repo)
        ensures
            r@ == self@,
    {
        let change = match &self.change {
            Some(c) => Some(c.copy()),
            None => None,
        };
        Repo {
            reposlug: owned(&self.reposlug),
            change_id: owned(&self.change_id),
            change,
            files: text::copies(&self.files),
            pr_number: self.pr_number,
        }
    }
}

// ---------------------------------------------------------------------------
// Changing a file
// ---------------------------------------------------------------------------

/// What a file holds, or why it could not be read.
pub type Content = Result<String, String>;

/// What a file holds, or why it could not be read, as facts.
pub type ContentFacts = Result<Seq<char>, Seq<char>>;

/// What a substitution makes of a text, if it makes something else of it.
pub open spec fn updated(change: ChangeFacts, content: Seq<char>) -> Option<Seq<char>> {
    match change {
        ChangeFacts::Sub(pattern, replacement) => {
            let new = text::replace(content, pattern, replacement);
            if text::holds(content, pattern) && new != content {
                Some(new)
            } else {
                None
            }
        },
        ChangeFacts::Regex(pattern, replacement) => {
            let new = patterns::regex_replaced(pattern, content, replacement);
            if patterns::regex_valid(pattern) && patterns::regex_found(pattern, content) && new
                != content {
                Some(new)
            } else {
                None
            }
        },
        _ => None,
    }
}

/// `s`, with a line feed at its end.
pub open spec fn with_newline(s: Seq<char>) -> Seq<char> {
    if s.len() > 0 && s.last() == '\n' {
        s
    } else {
        s.push('\n')
    }
}

/// How a change changes one file, as lines; nothing where there is nothing to
/// show.
pub open spec fn file_lines(change: ChangeFacts, content: ContentFacts, buffer: usize) -> Option<
    Seq<diff::DiffLine>,
> {
    match change {
        ChangeFacts::Delete => None,
        ChangeFacts::Add(_, contents) => Some(
            diff::diff_lines(""@, with_newline(contents), buffer),
        ),
        _ => match content {
            Ok(old) => match updated(change, old) {
                Some(new) => Some(diff::diff_lines(old, new, buffer)),
                None => None,
            },
            Err(_) => None,
        },
    }
}

/// What is to be done to a file to change it.
pub open spec fn file_edits(change: ChangeFacts, path: Seq<char>, content: ContentFacts) -> Seq<
    Wish,
> {
    match change {
        ChangeFacts::Delete => seq![Wish::Remove(path)],
        ChangeFacts::Add(_, contents) => match paths::parent(path) {
            Some(dir) => seq![Wish::MakeDirs(dir), Wish::Write(path, with_newline(contents))],
            None => seq![Wish::Write(path, with_newline(contents))],
        },
        _ => match content {
            Ok(old) => match updated(change, old) {
                Some(new) => seq![Wish::Write(path, new)],
                None => Seq::empty(),
            },
            Err(_) => Seq::empty(),
        },
    }
}

/// What several requests say.
pub open spec fn wishes(v: Seq<Request>) -> Seq<Wish> {
    v.map_values(|r: Request| r@)
}

/// Without its pattern in it, a text is left as it is.
pub proof fn law_no_match_no_change(change: ChangeFacts, content: Seq<char>)
    requires
        match change {
            ChangeFacts::Sub(pattern, _) => !text::holds(content, pattern),
            ChangeFacts::Regex(pattern, _) => !patterns::regex_valid(pattern)
                || !patterns::regex_found(pattern, content),
            _ => false,
        },
    ensures
        updated(change, content) is None,
        forall|path: Seq<char>| #[trigger]
            file_edits(change, path, Ok(content)) == Seq::<Wish>::empty(),
        forall|buffer: usize| #[trigger] file_lines(change, Ok(content), buffer) is None,
{
}

/// What became of a text, if it became something else.
pub fn if_changed(content: &str, new: String) -> (r: Option<String>)
    ensures
        r == (if new@ != content@ {
            Some(new)
        } else {
            None
        }),
{
    if same(&new, content) {
        None
    } else {
        Some(new)
    }
}

/// What a substitution makes of a text, if it makes something else of it.
pub fn update(change: &Change, content: &str) -> (r: Option<String>)
    ensures
        r.meaning() == updated(change@, content@),
{
    match change {
        Change::Sub(pattern, replacement) => if contains(content, pattern) {
            if_changed(content, replaced(content, pattern, replacement))
        } else {
            None
        },
        Change::Regex(pattern, replacement) => if is_regex(pattern) && regex_matches(
            pattern,
            content,
        ) {
            if_changed(content, regex_replace_all(pattern, content, replacement))
        } else {
            None
        },
        _ => None,
    }
}

/// `s`, with a line feed at its end.
fn ended(s: &str) -> (r: String)
    ensures
        r@ == with_newline(s@),
{
    let v = text::chars_of(s);
    let mut r = owned(s);
    if v.len() == 0 || v[v.len() - 1] != '\n' {
        r.push('\n');
    }
    r
}

/// Whether `out` shows how a change changes one file, if there is anything to
/// show.
pub open spec fn file_shown(
    out: Option<String>,
    change: ChangeFacts,
    content: ContentFacts,
    buffer: usize,
) -> bool {
    match (out, file_lines(change, content, buffer)) {
        (Some(shown), Some(lines)) => diff::shows(shown@, lines),
        (None, None) => true,
        _ => false,
    }
}

/// Whether a difference has to be found to show what a change makes of a file.
pub open spec fn compares(change: ChangeFacts, content: ContentFacts) -> bool {
    match change {
        ChangeFacts::Delete => false,
        ChangeFacts::Add(_, _) => true,
        _ => content is Ok,
    }
}

/// How what a change makes of one file is shown, if there is anything to show.
fn show_file(change: &Change, content: &Content, buffer: usize) -> (r: Option<String>)
    requires
        compares(change@, content.meaning()) ==> 2 * buffer <= usize::MAX,
    ensures
        file_shown(r, change@, content.meaning(), buffer),
{
    match change {
        Change::Delete => None,
        Change::Add(_, contents) => Some(generate_diff("", &ended(contents), buffer)),
        _ => match content {
            Ok(old) => match update(change, old) {
                Some(new) => Some(generate_diff(old, &new, buffer)),
                None => None,
            },
            Err(_) => None,
        },
    }
}

/// What is to be done to a file to change it.
fn edit_file(full_path: &str, change: &Change, content: &Content) -> (edits: Vec<Request>)
    ensures
        wishes(edits@) == file_edits(change@, full_path@, content.meaning()),
{
    let mut edits: Vec<Request> = Vec::new();
    assert(wishes(edits@) =~= Seq::empty());
    match change {
        Change::Delete => {
            edits.push(Request::Remove(owned(full_path)));
            assert(wishes(edits@) =~= seq![Wish::Remove(full_path@)]);
        },
        Change::Add(_, contents) => {
            match parent_of(full_path) {
                Some(dir) => {
                    edits.push(Request::MakeDirs(dir));
                },
                None => {},
            }
            edits.push(Request::Write(owned(full_path), ended(contents)));
            assert(wishes(edits@) =~= file_edits(change@, full_path@, content.meaning()));
        },
        _ => match content {
            Ok(old) => match update(change, old) {
                Some(new) => {
                    edits.push(Request::Write(owned(full_path), new));
                    assert(wishes(edits@) =~= seq![Wish::Write(full_path@, new@)]);
                },
                None => {},
            },
            Err(_) => {},
        },
    }
    edits
}

/// What a change makes of one file: how that is shown, if there is anything to
/// show, and what is to be done to the file if it is to be committed. `tones` says
/// which tones show.
pub open spec fn processed(
    full_path: Seq<char>,
    change: ChangeFacts,
    content: ContentFacts,
    buffer: usize,
    commit: bool,
    tones: Seq<(bool, bool)>,
) -> (Option<Seq<char>>, Seq<Wish>) {
    (
        match file_lines(change, content, buffer) {
            Some(lines) => Some(diff::lines_in(lines, tones)),
            None => None,
        },
        if commit {
            file_edits(change, full_path, content)
        } else {
            Seq::empty()
        },
    )
}

/// What a change makes of one file: how that is shown, if there is anything to
/// show, and what is to be done to the file if it is to be committed.
pub fn process_file(
    full_path: &str,
    change: &Change,
    content: &Content,
    buffer: usize,
    commit: bool,
) -> (r: (Option<String>, Vec<Request>))
    requires
        compares(change@, content.meaning()) ==> 2 * buffer <= usize::MAX,
    ensures
        exists|tones: Seq<(bool, bool)>|
            (r.0.meaning(), wishes(r.1@)) == #[trigger] processed(
                full_path@,
                change@,
                content.meaning(),
                buffer,
                commit,
                tones,
            ),
{
    let shown = show_file(change, content, buffer);
    let edits = if commit {
        edit_file(full_path, change, content)
    } else {
        Vec::new()
    };
    assert(!commit ==> wishes(edits@) =~= Seq::empty());
    proof {
        let facts = content.meaning();
        let tones = match (shown.meaning(), file_lines(change@, facts, buffer)) {
            (Some(out), Some(lines)) => diff::lemma_shown_in_tones(out, lines),
            _ => Seq::empty(),
        };
        assert((shown.meaning(), wishes(edits@)) == processed(
            full_path@,
            change@,
            facts,
            buffer,
            commit,
            tones,
        ));
    }
    (shown, edits)
}

/// Whether a change is committed makes no difference to what is shown of it: where
/// the same tones show, a change to a file is shown the same with and without a
/// commit. Without one nothing is done to any file, whatever the change.
pub proof fn law_commit_shows_the_same(
    full_path: Seq<char>,
    change: ChangeFacts,
    content: ContentFacts,
    buffer: usize,
    tones: Seq<(bool, bool)>,
)
    ensures
        processed(full_path, change, content, buffer, false, tones).0 == processed(
            full_path,
            change,
            content,
            buffer,
            true,
            tones,
        ).0,
        processed(full_path, change, content, buffer, false, tones).1.len() == 0,
{
}

// ---------------------------------------------------------------------------
// Changing a repository
// ---------------------------------------------------------------------------

/// The files that have to be read to see what a change changes.
pub open spec fn files_to_read(repo: RepoFacts) -> Seq<Seq<char>> {
    match repo.change {
        None => Seq::empty(),
        Some(ChangeFacts::Add(_, _)) => Seq::empty(),
        Some(_) => repo.files,
    }
}

/// Whether the report on a change shows unchanged lines around others.
pub open spec fn needs_context(change: Option<ChangeFacts>, simplified: bool) -> bool {
    !simplified && (change matches Some(c) && !(c is Delete))
}

/// Whether the report on a change shows unchanged lines around others.
pub fn shows_context(change: &Option<Change>, simplified: bool) -> (r: bool)
    ensures
        r == needs_context(change_facts(*change), simplified),
{
    match change {
        None => false,
        Some(Change::Delete) => false,
        Some(_) => !simplified,
    }
}

/// What several files hold.
pub open spec fn contents_facts(v: Seq<Content>) -> Seq<ContentFacts> {
    v.map_values(|c: Content| c.meaning())
}

/// What stands before the name of a file in which something is substituted.
pub open spec fn sub_mark(simplified: bool) -> Seq<char> {
    if simplified {
        "><"@
    } else {
        "M"@
    }
}

/// What a section says of a file, unless only the files are to be listed.
pub open spec fn unless_simplified(body: Body, simplified: bool) -> Body {
    if simplified {
        Body::Bare
    } else {
        body
    }
}

/// The section on a file that has been read. A simplified one only names the file.
pub open spec fn file_section(
    change: ChangeFacts,
    file: Seq<char>,
    content: ContentFacts,
    buffer: usize,
    simplified: bool,
) -> Option<Section> {
    match change {
        ChangeFacts::Delete => Some(
            Section {
                mark: "D"@,
                file,
                body: unless_simplified(
                    match content {
                        Ok(old) => Body::Lines(diff::diff_lines(old, ""@, buffer)),
                        Err(e) => Body::Unreadable(e),
                    },
                    simplified,
                ),
            },
        ),
        _ => match file_lines(change, content, buffer) {
            Some(lines) => Some(
                Section {
                    mark: sub_mark(simplified),
                    file,
                    body: unless_simplified(Body::Lines(lines), simplified),
                },
            ),
            None => None,
        },
    }
}

/// The sections on files that have been read.
pub open spec fn read_sections(
    change: ChangeFacts,
    files: Seq<Seq<char>>,
    contents: Seq<ContentFacts>,
    buffer: usize,
    simplified: bool,
) -> Seq<Section>
    decreases files.len(),
{
    if files.len() == 0 {
        Seq::empty()
    } else {
        let before = read_sections(change, files.drop_last(), contents, buffer, simplified);
        match file_section(change, files.last(), contents[files.len() - 1], buffer, simplified) {
            Some(s) => before.push(s),
            None => before,
        }
    }
}

/// The report on a repository and its change. A simplified one only names the
/// files.
pub open spec fn create_sections(
    repo: RepoFacts,
    contents: Seq<ContentFacts>,
    buffer: usize,
    simplified: bool,
) -> Seq<Section> {
    match repo.change {
        None => repo.files.map_values(
            |file: Seq<char>| Section { mark: "><"@, file, body: Body::Bare },
        ),
        Some(ChangeFacts::Add(path, new)) => seq![
            Section {
                mark: "A"@,
                file: path,
                body: unless_simplified(
                    Body::Lines(diff::diff_lines(""@, new, buffer)),
                    simplified,
                ),
            },
        ],
        Some(change) => read_sections(change, repo.files, contents, buffer, simplified),
    }
}

/// What is to be done to files that have been read.
pub open spec fn read_edits(
    change: ChangeFacts,
    repo_path: Seq<char>,
    files: Seq<Seq<char>>,
    contents: Seq<ContentFacts>,
) -> Seq<Wish>
    decreases files.len(),
{
    if files.len() == 0 {
        Seq::empty()
    } else {
        read_edits(change, repo_path, files.drop_last(), contents) + file_edits(
            change,
            paths::join(repo_path, files.last()),
            contents[files.len() - 1],
        )
    }
}

/// What is to be done to the files of a repository to change it.
pub open spec fn create_edits(
    repo: RepoFacts,
    root: Seq<char>,
    contents: Seq<ContentFacts>,
) -> Seq<Wish> {
    let repo_path = paths::join(root, repo.reposlug);
    match repo.change {
        None => Seq::empty(),
        Some(ChangeFacts::Add(path, new)) => file_edits(
            ChangeFacts::Add(path, new),
            paths::join(repo_path, path),
            Ok(Seq::empty()),
        ),
        Some(change) => read_edits(change, repo_path, repo.files, contents),
    }
}

/// A report with its heading.
pub open spec fn headed(reposlug: Seq<char>, shown: Seq<char>) -> Seq<char> {
    reposlug + "\n"@ + shown
}

/// Whether `out` is these sections below a heading.
pub open spec fn is_headed(out: Seq<char>, reposlug: Seq<char>, sections: Seq<Section>) -> bool {
    exists|shown: Seq<char>|
        report::sections_shown(shown, sections) && out == #[trigger] headed(reposlug, shown)
}

/// Whether `out` is the report on a repository: nothing where there is no
/// section.
pub open spec fn is_report(out: Seq<char>, reposlug: Seq<char>, sections: Seq<Section>) -> bool {
    if sections.len() == 0 {
        out.len() == 0
    } else {
        is_headed(out, reposlug, sections)
    }
}

/// Only a report without sections is empty.
pub proof fn lemma_report_is_empty(out: Seq<char>, reposlug: Seq<char>, sections: Seq<Section>)
    requires
        is_report(out, reposlug, sections),
    ensures
        out.len() == 0 <==> sections.len() == 0,
{
    reveal_strlit("\n");
}

/// The heading of a report, if there is anything below it.
fn head_page(reposlug: &str, page: &Page) -> (r: String)
    requires
        page.wf(),
    ensures
        is_report(r@, reposlug@, page.sections@),
{
    if page.empty {
        let r = String::new();
        assert(r@ =~= Seq::empty());
        r
    } else {
        let r = cat3(reposlug, "\n", &page.text);
        assert(r@ == headed(reposlug@, page.text@));
        r
    }
}

impl Repo {
    /// The files that have to be read to see what the change changes.
    pub fn files_to_read(&self, root: &str) -> (r: Vec<String>)
        ensures
            text::views(r@) == files_to_read(self@).map_values(
                |file: Seq<char>| paths::join(paths::join(root@, self@.reposlug), file),
            ),
    {
        let mut r: Vec<String> = Vec::new();
        match &self.change {
            None => {},
            Some(Change::Add(_, _)) => {},
            Some(_) => {
                let repo_path = joined_path(root, &self.reposlug);
                let mut i: usize = 0;
                while i < self.files.len()
                    invariant
                        i <= self.files@.len(),
                        repo_path@ == paths::join(root@, self@.reposlug),
                        r@.len() == i,
                        forall|k: int|
                            0 <= k < i ==> #[trigger] r@[k]@ == paths::join(
                                repo_path@,
                                self.files@[k]@,
                            ),
                    decreases self.files@.len() - i,
                {
                    r.push(joined_path(&repo_path, &self.files[i]));
                    i += 1;
                }
            },
        }
        assert(text::views(r@) =~= files_to_read(self@).map_values(
            |file: Seq<char>| paths::join(paths::join(root@, self@.reposlug), file),
        ));
        r
    }

    /// Whether a change concerns a file that has been read.
    fn concerns(&self, change: &Change, content: &Content) -> (r: bool)
        requires
            !(change is Add),
        ensures
            forall|file: Seq<char>, buffer: usize, simplified: bool|
                (#[trigger] file_section(change@, file, content.meaning(), buffer, simplified))
                    is Some <==> r,
    {
        match change {
            Change::Delete => true,
            _ => match content {
                Ok(old) => update(change, old).is_some(),
                Err(_) => false,
            },
        }
    }

    /// The report on files that have been read, and what is to be done to them.
    fn read_diff(
        &self,
        change: &Change,
        root: &str,
        buffer: usize,
        commit: bool,
        simplified: bool,
        contents: &Vec<Content>,
    ) -> (r: (Page, Vec<Request>))
        requires
            needs_context(Some(change@), simplified) ==> 2 * buffer <= usize::MAX,
            contents@.len() == self.files@.len(),
            !(change is Add),
        ensures
            r.0.wf(),
            r.0.sections@ == read_sections(
                change@,
                self@.files,
                contents_facts(contents@),
                buffer,
                simplified,
            ),
            wishes(r.1@) == (if commit {
                read_edits(
                    change@,
                    paths::join(root@, self@.reposlug),
                    self@.files,
                    contents_facts(contents@),
                )
            } else {
                Seq::empty()
            }),
    {
        let repo_path = joined_path(root, &self.reposlug);
        let mut page = Page::new();
        let mut edits: Vec<Request> = Vec::new();
        let ghost files = self@.files;
        let ghost facts = contents_facts(contents@);
        let mut i: usize = 0;
        assert(wishes(edits@) =~= Seq::empty());
        while i < self.files.len()
            invariant
                i <= self.files@.len(),
                needs_context(Some(change@), simplified) ==> 2 * buffer <= usize::MAX,
                contents@.len() == self.files@.len(),
                !(change is Add),
                files == self@.files,
                facts == contents_facts(contents@),
                repo_path@ == paths::join(root@, self@.reposlug),
                page.wf(),
                page.sections@ == read_sections(
                    change@,
                    files.take(i as int),
                    facts,
                    buffer,
                    simplified,
                ),
                wishes(edits@) == (if commit {
                    read_edits(change@, repo_path@, files.take(i as int), facts)
                } else {
                    Seq::empty()
                }),
            decreases self.files@.len() - i,
        {
            let file = &self.files[i];
            let content = &contents[i];
            let ghost section = file_section(change@, file@, content.meaning(), buffer, simplified);
            assert(files.take(i + 1).drop_last() =~= files.take(i as int));
            assert(files[i as int] == file@);
            assert(facts[i as int] == content.meaning());
            let full_path = joined_path(&repo_path, file);
            if simplified {
                if self.concerns(change, content) {
                    page.add_name(
                        match change {
                            Change::Delete => "D",
                            _ => "><",
                        },
                        file,
                    );
                }
            } else {
                match change {
                    Change::Delete => match content {
                        Ok(old) => {
                            proof {
                                reveal_strlit("");
                            }
                            let shown = generate_diff(old, "", buffer);
                            let ghost lines = diff::diff_lines(old@, ""@, buffer);
                            page.add_diff("D", file, &shown, Ghost(lines));
                        },
                        Err(e) => {
                            page.add_excuse("D", file, e);
                        },
                    },
                    _ => match show_file(change, content, buffer) {
                        Some(shown) => {
                            let ghost lines = file_lines(change@, content.meaning(), buffer);
                            page.add_diff("M", file, &shown, Ghost(lines.unwrap()));
                        },
                        None => {},
                    },
                }
            }
            let mut more: Vec<Request> = if commit {
                edit_file(&full_path, change, content)
            } else {
                Vec::new()
            };
            assert(!commit ==> wishes(more@) =~= Seq::empty());
            let ghost before = wishes(edits@);
            let ghost new = wishes(more@);
            edits.append(&mut more);
            assert(wishes(edits@) =~= before + new);
            i += 1;
        }
        assert(files.take(i as int) =~= files);
        (page, edits)
    }

    /// Generate a diff for this repo+change. With `commit`, what is to be done to
    /// the files comes with it. `contents` is what the `files_to_read` hold. Where a
    /// substitution is made on the way, each of them is read after those before it
    /// have been written, so that a file that is met twice is changed twice.
    pub fn create_diff(
        &self,
        root: &str,
        buffer: usize,
        commit: bool,
        simplified: bool,
        contents: &Vec<Content>,
    ) -> (r: (String, Vec<Request>))
        requires
            needs_context(self@.change, simplified) ==> 2 * buffer <= usize::MAX,
            contents@.len() == files_to_read(self@).len(),
        ensures
            is_report(
                r.0@,
                self@.reposlug,
                create_sections(self@, contents_facts(contents@), buffer, simplified),
            ),
            wishes(r.1@) == (if commit {
                create_edits(self@, root@, contents_facts(contents@))
            } else {
                Seq::empty()
            }),
    {
        match &self.change {
            None => {
                let edits: Vec<Request> = Vec::new();
                assert(wishes(edits@) =~= Seq::empty());
                let page = self.list_files();
                (head_page(&self.reposlug, &page), edits)
            },
            Some(Change::Add(path, new)) => {
                let change = Change::Add(owned(path), owned(new));
                let full_path = joined_path(&joined_path(root, &self.reposlug), path);
                let nothing = Ok(String::new());
                let edits = if commit {
                    edit_file(&full_path, &change, &nothing)
                } else {
                    Vec::new()
                };
                assert(!commit ==> wishes(edits@) =~= Seq::empty());
                let mut page = Page::new();
                if simplified {
                    page.add_name("A", path);
                } else {
                    let shown = generate_diff("", new, buffer);
                    let ghost lines = diff::diff_lines(""@, new@, buffer);
                    page.add_diff("A", path, &shown, Ghost(lines));
                }
                assert(page.sections@ =~= create_sections(
                    self@,
                    contents_facts(contents@),
                    buffer,
                    simplified,
                ));
                (head_page(&self.reposlug, &page), edits)
            },
            Some(change) => {
                let (page, edits) = self.read_diff(
                    change,
                    root,
                    buffer,
                    commit,
                    simplified,
                    contents,
                );
                (head_page(&self.reposlug, &page), edits)
            },
        }
    }

    /// The report that only lists the files.
    fn list_files(&self) -> (page: Page)
        ensures
            page.wf(),
            page.sections@ == self@.files.map_values(
                |file: Seq<char>| Section { mark: "><"@, file, body: Body::Bare },
            ),
    {
        let mut page = Page::new();
        let ghost all = self@.files.map_values(
            |file: Seq<char>| Section { mark: "><"@, file, body: Body::Bare },
        );
        let mut i: usize = 0;
        assert(page.sections@ =~= all.take(0));
        while i < self.files.len()
            invariant
                i <= self.files@.len(),
                all == self@.files.map_values(
                    |file: Seq<char>| Section { mark: "><"@, file, body: Body::Bare },
                ),
                page.wf(),
                page.sections@ == all.take(i as int),
            decreases self.files@.len() - i,
        {
            assert(self@.files[i as int] == self.files@[i as int]@);
            page.add_name("><", &self.files[i]);
            assert(all.take(i + 1) =~= all.take(i as int).push(all[i as int]));
            i += 1;
        }
        assert(self@.files.len() == self.files@.len());
        assert(all.take(i as int) =~= all);
        page
    }
}

} // verus!
