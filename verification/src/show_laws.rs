//! What is shown of a change, and what is read out of a patch.
use crate::cli;
use crate::command::Wish;
use crate::diff;
use crate::diff::{DiffLine, Draft, Fate, LineFacts, Tag};
use crate::numbers;
use crate::paths;
use crate::patterns;
use crate::repo;
use crate::repo::{ChangeFacts, ContentFacts, RepoFacts};
use crate::report;
use crate::report::{Body, Section};
use crate::text;
use crate::text_laws;
use crate::utils;
use vstd::prelude::*;

verus! {

// ---------------------------------------------------------------------------
// The lines of a difference
// ---------------------------------------------------------------------------

/// What is deleted stands behind a minus sign, in red; what is inserted behind a plus
/// sign, in green; and what stays behind a blank, dimmed. Then come the number of the
/// line, at least four characters wide, and behind a bar its text.
pub proof fn law_lines_are_marked(number: nat, line: Seq<char>)
    ensures
        ({
            let n = numbers::pad_start(numbers::decimal(number), 4);
            let bar = seq![' ', '|', ' '];
            let gone = DiffLine { tag: Tag::Delete, number, text: line };
            let new = DiffLine { tag: Tag::Insert, number, text: line };
            let same = DiffLine { tag: Tag::Equal, number, text: line };
            &&& diff::line_in(gone, (false, false)) == seq!['-'] + n + bar + line + seq!['\n']
            &&& diff::line_in(new, (false, false)) == seq!['+'] + n + bar + line + seq!['\n']
            &&& diff::line_in(same, (false, false)) == seq![' '] + n + bar + line + seq!['\n']
            &&& diff::tone(Tag::Delete) is Red
            &&& diff::tone(Tag::Insert) is Green
            &&& diff::tone(Tag::Equal) is Dimmed
        }),
{
    reveal_strlit("-");
    reveal_strlit("+");
    reveal_strlit(" ");
    reveal_strlit(" | ");
    reveal_strlit("\n");
    assert("-"@ =~= seq!['-']);
    assert("+"@ =~= seq!['+']);
    assert(" "@ =~= seq![' ']);
    assert(" | "@ =~= seq![' ', '|', ' ']);
    assert("\n"@ =~= seq!['\n']);
}

/// Each change is shown, in order, as what it is: with the number that its line has,
/// counted from 1, in the new text if it is inserted and else in the old, and without
/// the white space at its end.
pub proof fn law_changes_are_shown_in_place(changes: Seq<LineFacts>, i: int)
    requires
        0 <= i < changes.len(),
    ensures
        diff::changed_lines(changes).len() == changes.len(),
        diff::changed_lines(changes)[i].tag == changes[i].tag,
        diff::changed_lines(changes)[i].text == text::trim_end(changes[i].text),
        changes[i].tag is Insert ==> (changes[i].new_index matches Some(at)
            ==> diff::changed_lines(changes)[i].number == at + 1),
        !(changes[i].tag is Insert) ==> (changes[i].old_index matches Some(at)
            ==> diff::changed_lines(changes)[i].number == at + 1),
{
}

/// Of a text of which nothing is left, every line is shown as deleted. Else the changes
/// between the two texts are shown.
pub proof fn law_differences_show_all_changes(
    original: Seq<char>,
    updated: Seq<char>,
    buffer: usize,
    i: int,
)
    ensures
        updated.len() > 0 ==> diff::diff_lines(original, updated, buffer) == diff::changed_lines(
            diff::line_changes(original, updated, buffer),
        ),
        diff::diff_lines(original, Seq::empty(), buffer).len() == text::lines(original).len(),
        0 <= i < text::lines(original).len() ==> diff::diff_lines(original, Seq::empty(), buffer)[i]
            == (DiffLine {
            tag: Tag::Delete,
            number: (i + 1) as nat,
            text: text::lines(original)[i],
        }),
{
}

// ---------------------------------------------------------------------------
// Patches
// ---------------------------------------------------------------------------

/// Whether a text is made of the digits 0 to 9.
pub open spec fn is_number(s: Seq<char>) -> bool {
    s.len() > 0 && forall|i: int| 0 <= i < s.len() ==> '0' <= #[trigger] s[i] && s[i] <= '9'
}

/// Whether a text is empty, or a comma and digits.
pub open spec fn is_count(s: Seq<char>) -> bool {
    s.len() == 0 || s[0] == ',' && is_number(s.skip(1))
}

proof fn lemma_digits_end(s: Seq<char>, from: int, to: int)
    requires
        0 <= from <= to <= s.len(),
        forall|k: int| from <= k < to ==> diff::is_hunk_digit(#[trigger] s[k]),
        to < s.len() ==> !diff::is_hunk_digit(s[to]),
    ensures
        diff::digits_end(s, from) == to,
    decreases to - from,
{
    if from < to {
        assert(diff::is_hunk_digit(s[from]));
        lemma_digits_end(s, from + 1, to);
    }
}

/// What stands at a place of a text.
spec fn stands_at(s: Seq<char>, at: int, p: Seq<char>) -> bool {
    &&& 0 <= at
    &&& at + p.len() <= s.len()
    &&& forall|k: int| 0 <= k < p.len() ==> #[trigger] p[k] == s[at + k]
}

proof fn lemma_number_stands(s: Seq<char>, at: int, p: Seq<char>)
    requires
        stands_at(s, at, p),
        is_number(p),
        at + p.len() < s.len(),
        s[at + p.len()] == ' ' || s[at + p.len()] == ',',
    ensures
        diff::digits_end(s, at) == at + p.len(),
        s.subrange(at, at + p.len()) == p,
{
    assert forall|k: int| at <= k < at + p.len() implies diff::is_hunk_digit(#[trigger] s[k]) by {
        assert(p[k - at] == s[k]);
    }
    lemma_digits_end(s, at, at + p.len());
    assert(s.subrange(at, at + p.len()) =~= p);
}

proof fn lemma_count_stands(s: Seq<char>, at: int, p: Seq<char>)
    requires
        stands_at(s, at, p),
        is_count(p),
        at + p.len() < s.len(),
        s[at + p.len()] == ' ',
    ensures
        diff::count_end(s, at) == at + p.len(),
{
    if p.len() > 0 {
        assert(p[0] == s[at + 0]);
        let q = p.skip(1);
        assert forall|k: int| 0 <= k < q.len() implies #[trigger] q[k] == s[at + 1 + k] by {
            assert(p[k + 1] == s[at + (k + 1)]);
        }
        lemma_number_stands(s, at + 1, q);
    }
}

/// The header of a hunk tells where the hunk starts in the old text and where in the
/// new. How many lines it has may be missing.
pub proof fn law_hunk_headers_tell_both_starts(
    old_start: Seq<char>,
    old_count: Seq<char>,
    new_start: Seq<char>,
    new_count: Seq<char>,
    rest: Seq<char>,
)
    requires
        is_number(old_start),
        is_count(old_count),
        is_number(new_start),
        is_count(new_count),
    ensures
        diff::hunk_starts(
            "@@ -"@ + old_start + old_count + " +"@ + new_start + new_count + " @@"@ + rest,
        ) == Some((old_start, new_start)),
{
    reveal_strlit("@@ -");
    reveal_strlit(" +");
    reveal_strlit(" @@");
    let s = "@@ -"@ + old_start + old_count + " +"@ + new_start + new_count + " @@"@ + rest;
    let a = 4 + old_start.len() as int;
    let b = a + old_count.len();
    let c = b + 2 + new_start.len();
    let d = c + new_count.len();
    assert(s.subrange(0, 4) =~= "@@ -"@);
    assert(s.subrange(b, b + 2) =~= " +"@);
    assert(s.subrange(d, d + 3) =~= " @@"@);
    assert(s[b] == " +"@[0] && s[d] == " @@"@[0]);
    assert(stands_at(s, 4, old_start));
    assert(stands_at(s, a, old_count));
    assert(stands_at(s, b + 2, new_start));
    assert(stands_at(s, c, new_count));
    if old_count.len() > 0 {
        assert(s[a] == old_count[0]);
    }
    if new_count.len() > 0 {
        assert(s[c] == new_count[0]);
    }
    lemma_number_stands(s, 4, old_start);
    lemma_count_stands(s, a, old_count);
    lemma_number_stands(s, b + 2, new_start);
    lemma_count_stands(s, c, new_count);
}

/// A line that does not start as the header of a hunk does is none, and one in which
/// the second mark does not follow is none either.
pub proof fn law_other_lines_are_no_headers(line: Seq<char>)
    ensures
        !text::begins_with(line, "@@ -"@) ==> diff::hunk_starts(line) is None,
        !text::holds(line, " +"@) ==> diff::hunk_starts(line) is None,
        !text::holds(line, " @@"@) ==> diff::hunk_starts(line) is None,
        diff::hunk_starts(line) matches Some((a, b)) ==> text::holds(line, a) && text::holds(
            line,
            b,
        ) && a.len() > 0 && b.len() > 0,
{
    let to1 = diff::digits_end(line, 4);
    let from2 = diff::count_end(line, to1) + 2;
    let to2 = diff::digits_end(line, from2);
    if diff::hunk_starts(line) is Some {
        assert(text::occurs_at(line, " +"@, from2 - 2));
        assert(text::occurs_at(line, " @@"@, diff::count_end(line, to2)));
        let (a, b) = diff::hunk_starts(line).unwrap();
        lemma_digits_stay_within(line, 4);
        lemma_digits_stay_within(line, from2);
        assert(text::occurs_at(line, a, 4));
        assert(text::occurs_at(line, b, from2));
    }
}

proof fn lemma_digits_stay_within(s: Seq<char>, from: int)
    requires
        0 <= from <= s.len(),
    ensures
        from <= diff::digits_end(s, from) <= s.len(),
    decreases s.len() - from,
{
    if from < s.len() && diff::is_hunk_digit(s[from]) {
        lemma_digits_stay_within(s, from + 1);
    }
}

/// A patch on one file gives the name of the file, and both texts as far as its hunk
/// shows them: the lines that were kept and removed, and those that were kept and
/// added, each in order.
pub proof fn law_patches_tell_of_their_file(
    words: Seq<char>,
    name: Seq<char>,
    hunk: Seq<(Fate, Seq<char>)>,
)
    requires
        text::is_line(words),
        text::is_line(name),
        name.len() > 0,
        !text::begins_with(name, "+++ b/"@),
        forall|i: int|
            0 <= i < hunk.len() ==> diff::unmistakable(#[trigger] hunk[i]) && text::is_line(
                hunk[i].1,
            ),
    ensures
        ({
            let shown = hunk.map_values(|line: (Fate, Seq<char>)| diff::marked(line));
            let lines = seq!["diff --git "@ + words, "+++ b/"@ + name] + shown;
            diff::rebuilt(text::join(lines, "\n"@)) == seq![
                (
                    name,
                    text::join(diff::old_lines(hunk), "\n"@),
                    text::join(diff::new_lines(hunk), "\n"@),
                ),
            ]
        }),
{
    let shown = hunk.map_values(|line: (Fate, Seq<char>)| diff::marked(line));
    let first = "diff --git "@ + words;
    let second = "+++ b/"@ + name;
    let before = seq![first, second];
    let lines = before + shown;
    lemma_patch_lines(words, name, hunk, lines);
    text::law_lines_undo_join(lines);
    lemma_patch_head(words, name);
    diff::law_hunks_rebuild_both_texts(before, hunk);
    let (files, d) = diff::read_lines(before);
    let (all, last) = diff::read_lines(lines);
    assert(Seq::<Seq<char>>::empty() + diff::old_lines(hunk) =~= diff::old_lines(hunk));
    assert(Seq::<Seq<char>>::empty() + diff::new_lines(hunk) =~= diff::new_lines(hunk));
    assert(all + diff::finished(last) =~= diff::finished(last));
}

proof fn lemma_no_breaks(a: Seq<char>, b: Seq<char>)
    requires
        text::is_line(a),
        text::is_line(b),
    ensures
        text::is_line(a + b),
{
    let s = a + b;
    assert forall|c: char| #[trigger] s.contains(c) implies a.contains(c) || b.contains(c) by {
        let k = choose|k: int| 0 <= k < s.len() && s[k] == c;
        if k < a.len() {
            assert(a[k] == c);
        } else {
            assert(b[k - a.len()] == c);
        }
    }
}

proof fn lemma_patch_words()
    ensures
        text::is_line("diff --git "@),
        text::is_line("+++ b/"@),
        text::is_line(" "@),
        text::is_line("-"@),
        text::is_line("+"@),
        "diff --git "@.len() > 0,
        "+++ b/"@.len() > 0,
        " "@.len() > 0,
        "-"@.len() > 0,
        "+"@.len() > 0,
{
    reveal_strlit("diff --git ");
    reveal_strlit("+++ b/");
    reveal_strlit(" ");
    reveal_strlit("-");
    reveal_strlit("+");
}

proof fn lemma_patch_lines(
    words: Seq<char>,
    name: Seq<char>,
    hunk: Seq<(Fate, Seq<char>)>,
    lines: Seq<Seq<char>>,
)
    requires
        text::is_line(words),
        text::is_line(name),
        forall|i: int| 0 <= i < hunk.len() ==> text::is_line((#[trigger] hunk[i]).1),
        lines == seq!["diff --git "@ + words, "+++ b/"@ + name] + hunk.map_values(
            |line: (Fate, Seq<char>)| diff::marked(line),
        ),
    ensures
        forall|i: int| 0 <= i < lines.len() ==> text::is_line(#[trigger] lines[i]),
        lines.last().len() > 0,
{
    lemma_patch_words();
    lemma_no_breaks("diff --git "@, words);
    lemma_no_breaks("+++ b/"@, name);
    assert forall|i: int| 0 <= i < lines.len() implies text::is_line(#[trigger] lines[i]) by {
        if i >= 2 {
            let line = hunk[i - 2];
            assert(lines[i] == diff::marked(line));
            lemma_no_breaks(" "@, line.1);
            lemma_no_breaks("-"@, line.1);
            lemma_no_breaks("+"@, line.1);
        }
    }
    if hunk.len() > 0 {
        assert(lines.last() == diff::marked(hunk.last()));
    } else {
        assert(lines.last() == "+++ b/"@ + name);
    }
}

proof fn lemma_patch_head(words: Seq<char>, name: Seq<char>)
    requires
        !text::begins_with(name, "+++ b/"@),
    ensures
        diff::read_lines(seq!["diff --git "@ + words, "+++ b/"@ + name]) == (
            Seq::<diff::Rebuilt>::empty(),
            Draft { name, orig: Seq::empty(), upd: Seq::empty() },
        ),
{
    let first = "diff --git "@ + words;
    let second = "+++ b/"@ + name;
    let both = seq![first, second];
    reveal_strlit("diff --git ");
    reveal_strlit("+++ b/");
    assert(both.drop_last() =~= seq![first]);
    assert(seq![first].drop_last() =~= Seq::empty());
    assert(first.subrange(0, "diff --git "@.len() as int) =~= "diff --git "@);
    assert(second.subrange(0, "+++ b/"@.len() as int) =~= "+++ b/"@);
    if text::begins_with(second, "diff --git "@) {
        assert(second.subrange(0, "diff --git "@.len() as int)[0] == second[0]);
    }
    text_laws::law_copies_are_taken_away(name, "+++ b/"@);
    let start = diff::read_lines(seq![first]);
    assert(start.0 =~= Seq::empty()) by {
        reveal_with_fuel(diff::read_lines, 2);
    }
    assert(start.1 == diff::blank_draft()) by {
        reveal_with_fuel(diff::read_lines, 2);
    }
}

// ---------------------------------------------------------------------------
// Sections
// ---------------------------------------------------------------------------

/// A text of one line behind a margin.
proof fn lemma_one_line(s: Seq<char>, n: nat)
    requires
        text::is_line(s),
        s.len() > 0,
    ensures
        utils::indented(s, n) == utils::margin(n) + s,
{
    text_laws::law_lines_end_at_line_feeds(s, Seq::empty());
    let rows = utils::indented_lines(s, n);
    assert(rows =~= seq![utils::margin(n) + s]);
    text_laws::law_joining(Seq::empty(), utils::margin(n) + s, "\n"@);
}

/// A section starts with its mark and its file, behind two blanks. A difference stands
/// behind four blanks, line by line.
pub proof fn law_sections_are_indented(mark: Seq<char>, file: Seq<char>, row: Seq<char>)
    requires
        text::is_line(mark),
        text::is_line(file),
        text::is_line(row),
        row.len() > 0,
    ensures
        report::title(mark, file) == seq![' ', ' '] + mark + seq![' '] + file + seq!['\n'],
        report::with_diff(mark, file, Seq::empty()) == report::title(mark, file),
        report::with_diff(mark, file, row.push('\n')) == report::title(mark, file) + seq![
            ' ',
            ' ',
            ' ',
            ' ',
        ] + row + seq!['\n'],
{
    reveal_strlit(" ");
    reveal_strlit("\n");
    assert("\n"@ =~= seq!['\n']);
    lemma_no_breaks(mark, " "@);
    lemma_no_breaks(mark + " "@, file);
    lemma_one_line(mark + " "@ + file, 2);
    assert(utils::margin(2) =~= seq![' ', ' ']);
    assert(report::title(mark, file) =~= seq![' ', ' '] + mark + seq![' '] + file + seq!['\n']);
    let f = |line: Seq<char>| utils::indented(line, 4) + "\n"@;
    assert(Seq::<Seq<char>>::empty().map_values(f) =~= Seq::empty());
    assert(report::with_diff(mark, file, Seq::empty()) =~= report::title(mark, file));
    text_laws::law_lines_end_at_line_feeds(row, Seq::empty());
    assert(row.push('\n') + Seq::empty() =~= row.push('\n'));
    assert(row.last() != '\r') by {
        assert(row.contains(row.last()));
    }
    assert(seq![row] + Seq::<Seq<char>>::empty() =~= seq![row]);
    assert(text::lines(row.push('\n')) == seq![row]);
    lemma_one_line(row, 4);
    assert(utils::margin(4) =~= seq![' ', ' ', ' ', ' ']);
    assert(seq![row].map_values(f) =~= seq![f(row)]);
    let none = Seq::<Seq<char>>::empty();
    text_laws::law_joining(none, f(row), "\n"@);
    assert(none.push(f(row)) =~= seq![f(row)]);
    assert(report::with_diff(mark, file, row.push('\n')) =~= report::title(mark, file) + seq![
        ' ',
        ' ',
        ' ',
        ' ',
    ] + row + seq!['\n']);
}

/// A report starts with the slug of its repository, on a line of its own.
pub proof fn law_reports_are_headed(slug: Seq<char>, shown: Seq<char>)
    ensures
        repo::headed(slug, shown) == slug.push('\n') + shown,
{
    reveal_strlit("\n");
    assert(slug + "\n"@ =~= slug.push('\n'));
}

/// What a substitution makes of a text that it finds something in: the text with all of
/// that replaced. Where it finds nothing, or would leave the text as it is, it makes
/// nothing of it.
pub proof fn law_substitutions_replace(
    pattern: Seq<char>,
    replacement: Seq<char>,
    content: Seq<char>,
)
    ensures
        ({
            let new = text::replace(content, pattern, replacement);
            let out = repo::updated(ChangeFacts::Sub(pattern, replacement), content);
            &&& text::holds(content, pattern) && new != content ==> out == Some(new)
            &&& !text::holds(content, pattern) || new == content ==> out is None
        }),
        ({
            let new = patterns::regex_replaced(pattern, content, replacement);
            let out = repo::updated(ChangeFacts::Regex(pattern, replacement), content);
            let found = patterns::regex_valid(pattern) && patterns::regex_found(pattern, content);
            &&& found && new != content ==> out == Some(new)
            &&& !found || new == content ==> out is None
        }),
{
}

/// Whether a section is the one on a file in which something is substituted.
pub open spec fn is_substitution_in(
    section: Section,
    change: ChangeFacts,
    file: Seq<char>,
    content: ContentFacts,
    buffer: usize,
    simplified: bool,
) -> bool {
    &&& content matches Ok(old) && repo::updated(change, old) matches Some(new) && section == (
    Section {
        mark: if simplified {
            "><"@
        } else {
            "M"@
        },
        file,
        body: if simplified {
            Body::Bare
        } else {
            Body::Lines(diff::diff_lines(old, new, buffer))
        },
    })
}

/// Whether a section is the one on a file that is deleted.
pub open spec fn is_deletion_of(
    section: Section,
    file: Seq<char>,
    content: ContentFacts,
    buffer: usize,
    simplified: bool,
) -> bool {
    &&& section.mark == "D"@
    &&& section.file == file
    &&& simplified ==> section.body == Body::Bare
    &&& !simplified ==> match content {
        Ok(old) => section.body == Body::Lines(
            diff::deleted_lines(text::lines(old)),
        ),
        Err(why) => section.body == Body::Unreadable(why),
    }
}

/// A report on a substitution has a section on each file that it changes, and on no
/// other.
pub proof fn law_reports_tell_of_each_substitution(
    change: ChangeFacts,
    files: Seq<Seq<char>>,
    contents: Seq<ContentFacts>,
    buffer: usize,
    simplified: bool,
    section: Section,
)
    requires
        change is Sub || change is Regex,
    ensures
        repo::read_sections(change, files, contents, buffer, simplified).contains(section) <==> (
        exists|k: int|
            0 <= k < files.len() && is_substitution_in(
                section,
                change,
                #[trigger] files[k],
                contents[k],
                buffer,
                simplified,
            )),
    decreases files.len(),
{
    if files.len() > 0 {
        let front = files.drop_last();
        let last = files.len() - 1;
        let before = repo::read_sections(change, front, contents, buffer, simplified);
        let now = repo::read_sections(change, files, contents, buffer, simplified);
        law_reports_tell_of_each_substitution(change, front, contents, buffer, simplified, section);
        let made = repo::file_section(change, files.last(), contents[last], buffer, simplified);
        assert(made == Some(section) <==> is_substitution_in(
            section,
            change,
            files[last],
            contents[last],
            buffer,
            simplified,
        ));
        if now.contains(section) {
            let i = choose|i: int| 0 <= i < now.len() && now[i] == section;
            if i < before.len() {
                assert(before[i] == section);
                let k = choose|k: int|
                    0 <= k < front.len() && is_substitution_in(
                        section,
                        change,
                        #[trigger] front[k],
                        contents[k],
                        buffer,
                        simplified,
                    );
                assert(files[k] == front[k]);
            } else {
                assert(files[last] == files.last());
            }
        }
        if exists|k: int|
            0 <= k < files.len() && is_substitution_in(
                section,
                change,
                #[trigger] files[k],
                contents[k],
                buffer,
                simplified,
            ) {
            let k = choose|k: int|
                0 <= k < files.len() && is_substitution_in(
                    section,
                    change,
                    #[trigger] files[k],
                    contents[k],
                    buffer,
                    simplified,
                );
            if k < last {
                assert(front[k] == files[k]);
                let i = choose|i: int| 0 <= i < before.len() && before[i] == section;
                assert(now[i] == section);
            } else {
                assert(now[now.len() - 1] == section);
            }
        }
    }
}

/// A report on a deletion has a section on each file, in order: its lines, all of them
/// deleted, or why it cannot be read.
pub proof fn law_reports_tell_of_each_deletion(
    files: Seq<Seq<char>>,
    contents: Seq<ContentFacts>,
    buffer: usize,
    simplified: bool,
    k: int,
)
    requires
        0 <= k < files.len(),
    ensures
        ({
            let sections = repo::read_sections(
                ChangeFacts::Delete,
                files,
                contents,
                buffer,
                simplified,
            );
            sections.len() == files.len() && is_deletion_of(
                sections[k],
                files[k],
                contents[k],
                buffer,
                simplified,
            )
        }),
    decreases files.len(),
{
    let front = files.drop_last();
    let before = repo::read_sections(ChangeFacts::Delete, front, contents, buffer, simplified);
    reveal_strlit("");
    if front.len() == 0 {
        assert(before.len() == 0);
    } else {
        law_reports_tell_of_each_deletion(front, contents, buffer, simplified, if k < front.len() {
            k
        } else {
            0
        });
    }
}

/// What a report tells of, for each kind of change: of a new file, all of it, under an
/// "A"; without a change, of all files by their names alone.
pub proof fn law_reports_tell_of_the_change(
    repo: RepoFacts,
    contents: Seq<ContentFacts>,
    buffer: usize,
    simplified: bool,
)
    ensures
        repo.change matches Some(ChangeFacts::Add(file, content)) ==> repo::create_sections(
            repo,
            contents,
            buffer,
            simplified,
        ) == seq![
            Section {
                mark: "A"@,
                file,
                body: if simplified {
                    Body::Bare
                } else {
                    Body::Lines(diff::diff_lines(""@, content, buffer))
                },
            },
        ],
        repo.change is None ==> repo::create_sections(repo, contents, buffer, simplified).len()
            == repo.files.len() && forall|k: int|
            0 <= k < repo.files.len() ==> repo::create_sections(
                repo,
                contents,
                buffer,
                simplified,
            )[k] == (Section { mark: "><"@, file: #[trigger] repo.files[k], body: Body::Bare }),
        repo.change matches Some(change) ==> (!(change is Add) ==> repo::create_sections(
            repo,
            contents,
            buffer,
            simplified,
        ) == repo::read_sections(change, repo.files, contents, buffer, simplified)),
{
}

// ---------------------------------------------------------------------------
// Files and arguments
// ---------------------------------------------------------------------------

/// A file that was found below a repository is known by the way that leads to it from
/// there, behind those found before it. What cannot be read is left out. What does not
/// lie below the repository spoils the whole.
pub proof fn law_files_are_found_below_their_repository(
    base: Seq<char>,
    found: Seq<Result<String, String>>,
    path: String,
    why: String,
    file: Seq<char>,
)
    ensures
        repo::within_repo(base, Seq::empty()) == Some(Seq::<Seq<char>>::empty()),
        repo::within_repo(base, found.push(Err(why))) == repo::within_repo(base, found),
        path@ == paths::join(base, file) && paths::tidy(file) ==> (repo::within_repo(
            base,
            found,
        ) matches Some(files) ==> repo::within_repo(base, found.push(Ok(path))) == Some(
            files.push(file),
        )),
        repo::within_repo(base, found) is None ==> repo::within_repo(
            base,
            found.push(Ok(path)),
        ) is None,
        !paths::lies_under(path@, base) ==> repo::within_repo(base, found.push(Ok(path))) is None,
{
    assert(found.push(Err(why)).drop_last() =~= found);
    assert(found.push(Ok(path)).drop_last() =~= found);
    if paths::tidy(file) {
        paths::law_relative_undoes_join(base, file);
    }
}

/// Nothing but a number from 1 to 3 says how much is shown around a change.
pub proof fn law_buffers_are_small(s: Seq<char>, c: char, d: int)
    ensures
        cli::buffer_in(s) matches Ok(n) ==> 1 <= n <= 3 && numbers::unsigned(s) == Some(n),
        numbers::unsigned(s) matches Some(n) ==> (1 <= n <= 3 ==> cli::buffer_in(s) is Ok),
        text_laws::is_digit_for(c, d) ==> (cli::buffer_in(seq![c]) is Ok <==> 1 <= d <= 3),
        numbers::unsigned(s) is None ==> cli::buffer_in(s) is Err,
{
    text_laws::law_digits_count_by_tens(Seq::empty(), c, d);
}

/// How a change to a file is carried out: only if it is to be committed, and then by
/// removing the file, by writing it, or by making its directory and writing it.
pub proof fn law_files_are_edited_only_to_commit(
    path: Seq<char>,
    file: Seq<char>,
    content: Seq<char>,
    old: ContentFacts,
    buffer: usize,
    tones: Seq<(bool, bool)>,
)
    ensures
        forall|change: ChangeFacts| #[trigger]
            repo::processed(path, change, old, buffer, false, tones).1.len() == 0,
        repo::processed(path, ChangeFacts::Delete, old, buffer, true, tones).1 == seq![
            Wish::Remove(path),
        ],
        content.len() > 0 && content.last() == '\n' ==> repo::processed(
            path,
            ChangeFacts::Add(file, content),
            old,
            buffer,
            true,
            tones,
        ).1.last() == Wish::Write(path, content),
        paths::parent(path) matches Some(dir) ==> repo::processed(
            path,
            ChangeFacts::Add(file, content),
            old,
            buffer,
            true,
            tones,
        ).1[0] == Wish::MakeDirs(dir),
{
}

/// A file that cannot be read is excused, with the reason.
pub proof fn law_excuses_give_the_reason(mark: Seq<char>, file: Seq<char>, why: Seq<char>)
    requires
        text::is_line(why),
    ensures
        report::with_excuse(mark, file, why) == report::title(mark, file) + seq![' ', ' ']
            + "(Could not read file for diff: "@ + why + ")"@ + seq!['\n'],
{
    let words = "(Could not read file for diff: "@;
    reveal_strlit("(Could not read file for diff: ");
    reveal_strlit(")");
    reveal_strlit("\n");
    assert("\n"@ =~= seq!['\n']);
    assert(text::is_line(words));
    assert(text::is_line(")"@));
    lemma_no_breaks(words, why);
    lemma_no_breaks(words + why, ")"@);
    lemma_one_line(words + why + ")"@, 2);
    assert(utils::margin(2) =~= seq![' ', ' ']);
    assert(report::with_excuse(mark, file, why) =~= report::title(mark, file) + seq![' ', ' ']
        + words + why + ")"@ + seq!['\n']);
}

/// What is shown of a file: from what it held to what it is to hold. Nothing is shown of
/// one that is deleted, or that stays as it is.
pub proof fn law_files_are_shown_from_old_to_new(
    change: ChangeFacts,
    old: Seq<char>,
    file: Seq<char>,
    content: Seq<char>,
    buffer: usize,
)
    ensures
        change is Sub || change is Regex ==> repo::file_lines(change, Ok(old), buffer)
            == match repo::updated(change, old) {
            Some(new) => Some(diff::diff_lines(old, new, buffer)),
            None => None,
        },
        repo::file_lines(ChangeFacts::Delete, Ok(old), buffer) is None,
        repo::file_lines(ChangeFacts::Add(file, content.push('\n')), Ok(old), buffer) == Some(
            diff::diff_lines(""@, content.push('\n'), buffer),
        ),
{
}

/// A patch is read only if the two starts of each of its hunks are numbers that a machine
/// word holds.
pub proof fn law_patches_are_read_if_their_numbers_are(patch: Seq<char>)
    ensures
        diff::hunks_fit(patch) <==> forall|i: int|
            0 <= i < text::lines(patch).len() ==> (diff::hunk_starts(
                #[trigger] text::lines(patch)[i],
            ) matches Some((a, b)) ==> numbers::digits_number(a) is Some && numbers::digits_number(
                b,
            ) is Some),
{
    let lines = text::lines(patch);
    if forall|i: int|
        0 <= i < lines.len() ==> (diff::hunk_starts(#[trigger] lines[i]) matches Some((a, b))
            ==> numbers::digits_number(a) is Some && numbers::digits_number(b) is Some) {
        assert forall|i: int| 0 <= i < lines.len() implies diff::line_fits(#[trigger] lines[i]) by {}
    }
    if diff::hunks_fit(patch) {
        assert forall|i: int| 0 <= i < lines.len() implies (diff::hunk_starts(
            #[trigger] lines[i],
        ) matches Some((a, b)) ==> numbers::digits_number(a) is Some && numbers::digits_number(
            b,
        ) is Some) by {
            assert(diff::line_fits(lines[i]));
        }
    }
}

} // verus!
