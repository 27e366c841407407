//! Differences between texts: how they are shown, and how the texts are rebuilt
//! from a patch.
use crate::numbers;
use crate::numbers::{decimal_of, padded, parse_digits};
use crate::paint;
use crate::paint::{paint, Tone};
use crate::text;
use crate::text::{
    cat2, cat4, chars_of, joined, lines_of, matches_at, owned, slice_of, starts_with,
    trim_start_matches, trimmed_end,
};
use vstd::prelude::*;

verus! {

// ---------------------------------------------------------------------------
// Changes from one text to another
// ---------------------------------------------------------------------------

/// What becomes of a line.
#[derive(Debug, Clone, Copy, PartialEq, Eq, Structural)]
pub enum Tag {
    Delete,
    Insert,
    Equal,
}

/// A line of a difference, with its place in the old and in the new text.
#[derive(Debug)]
pub struct LineChange {
    pub tag: Tag,
    pub old_index: Option<usize>,
    pub new_index: Option<usize>,
    pub text: String,
}

/// What a `LineChange` says.
pub struct LineFacts {
    pub tag: Tag,
    pub old_index: Option<usize>,
    pub new_index: Option<usize>,
    pub text: Seq<char>,
}

impl View for LineChange {
    type V = LineFacts;

    open spec fn view(&self) -> LineFacts {
        LineFacts {
            tag: self.tag,
            old_index: self.old_index,
            new_index: self.new_index,
            text: self.text@,
        }
    }
}

/// What several `LineChange`s say.
pub open spec fn changes_facts(v: Seq<LineChange>) -> Seq<LineFacts> {
    v.map_values(|c: LineChange| c@)
}

/// The line changes from one text to another, with so many unchanged lines
/// around them.
pub uninterp spec fn line_changes(original: Seq<char>, updated: Seq<char>, buffer: usize) -> Seq<
    LineFacts,
>;

/// Where a line change stands: in the new text if it is inserted, else in the old.
pub open spec fn place(c: LineFacts) -> Option<usize> {
    match c.tag {
        Tag::Insert => c.new_index,
        _ => c.old_index,
    }
}

/// `similar::TextDiff::from_lines`, then `grouped_ops`, then `iter_changes`: the
/// changes of all groups, in order, which depend on the arguments alone. A line
/// that is inserted has a place in the new text and any other line one in the
/// old; a text has no more lines than characters. `grouped_ops` doubles `buffer`.
#[verifier::external_body]
fn changes_between(original: &str, updated: &str, buffer: usize) -> (r: Vec<LineChange>)
    requires
        2 * buffer <= usize::MAX,
    ensures
        changes_facts(r@) == line_changes(original@, updated@, buffer),
        forall|i: int|
            0 <= i < r@.len() ==> (place((#[trigger] r@[i])@) matches Some(at) && at < (
            if r@[i].tag == Tag::Insert {
                updated@.len()
            } else {
                original@.len()
            })),
{
    let diff = similar::TextDiff::from_lines(original, updated);
    let ops: Vec<similar::DiffOp> = diff.grouped_ops(buffer).into_iter().flatten().collect();
    let changes = ops.iter().flat_map(|op| diff.iter_changes(op));
    let convert = |c: similar::Change<&str>| LineChange {
        tag: match c.tag() {
            similar::ChangeTag::Delete => Tag::Delete,
            similar::ChangeTag::Insert => Tag::Insert,
            similar::ChangeTag::Equal => Tag::Equal,
        },
        old_index: c.old_index(),
        new_index: c.new_index(),
        text: c.to_string(),
    };
    changes.map(convert).collect()
}

// ---------------------------------------------------------------------------
// Showing a difference
// ---------------------------------------------------------------------------

/// A line as a difference shows it: what becomes of it, its number and its text.
pub struct DiffLine {
    pub tag: Tag,
    pub number: nat,
    pub text: Seq<char>,
}

/// The lines that show the difference between two texts. Where nothing is left,
/// every line of the old text is deleted.
pub open spec fn diff_lines(original: Seq<char>, updated: Seq<char>, buffer: usize) -> Seq<
    DiffLine,
> {
    if updated.len() == 0 {
        deleted_lines(text::lines(original))
    } else {
        changed_lines(line_changes(original, updated, buffer))
    }
}

/// `lines`, numbered and deleted.
pub open spec fn deleted_lines(lines: Seq<Seq<char>>) -> Seq<DiffLine> {
    lines.map(
        |i: int, line: Seq<char>| DiffLine { tag: Tag::Delete, number: (i + 1) as nat, text: line },
    )
}

/// Line changes, numbered from 1 in the text in which they stand, without the
/// white space at their ends.
pub open spec fn changed_lines(changes: Seq<LineFacts>) -> Seq<DiffLine> {
    changes.map_values(
        |c: LineFacts|
            DiffLine {
                tag: c.tag,
                number: (place(c).unwrap() + 1) as nat,
                text: text::trim_end(c.text),
            },
    )
}

/// The tone of a line.
pub open spec fn tone(tag: Tag) -> Tone {
    match tag {
        Tag::Delete => Tone::Red,
        Tag::Insert => Tone::Green,
        Tag::Equal => Tone::Dimmed,
    }
}

/// What stands before the number of a line.
pub open spec fn sign(tag: Tag) -> Seq<char> {
    match tag {
        Tag::Delete => "-"@,
        Tag::Insert => "+"@,
        Tag::Equal => " "@,
    }
}

/// What stands before the text of a line.
pub open spec fn head(line: DiffLine) -> Seq<char> {
    sign(line.tag) + numbers::pad_start(numbers::decimal(line.number), 4)
}

/// A line of output from its two parts.
pub open spec fn row(head: Seq<char>, text: Seq<char>) -> Seq<char> {
    head + " | "@ + text + "\n"@
}

/// A line of output from its two parts, each in its tone or without one.
pub fn output_row(head: &str, text: &str) -> (r: String)
    ensures
        r@ == row(head@, text@),
{
    cat4(head, " | ", text, "\n")
}

/// Whether `out` shows `line`: its parts in their tone or without one.
pub open spec fn shows_line(out: Seq<char>, line: DiffLine) -> bool {
    exists|a: Seq<char>, b: Seq<char>|
        paint::painting(a, head(line), tone(line.tag), 0) && paint::painting(
            b,
            line.text,
            tone(line.tag),
            0,
        ) && out == #[trigger] row(a, b)
}

/// Whether `pieces` show `lines`, one each.
pub open spec fn piecewise(pieces: Seq<Seq<char>>, lines: Seq<DiffLine>) -> bool {
    &&& pieces.len() == lines.len()
    &&& forall|i: int| 0 <= i < pieces.len() ==> shows_line(#[trigger] pieces[i], lines[i])
}

/// Whether `out` shows `lines`, one after the other.
pub open spec fn shows(out: Seq<char>, lines: Seq<DiffLine>) -> bool {
    exists|pieces: Seq<Seq<char>>| #[trigger] piecewise(pieces, lines) && out == text::flat(pieces)
}

/// A line as it is shown. `tones` says of each of its parts whether its tone
/// shows.
pub open spec fn line_in(line: DiffLine, tones: (bool, bool)) -> Seq<char> {
    row(
        paint::painted(head(line), tone(line.tag), 0, tones.0),
        paint::painted(line.text, tone(line.tag), 0, tones.1),
    )
}

/// Lines as they are shown, one after the other. `tones` says of the parts of each
/// of them whether their tones show.
pub open spec fn lines_in(lines: Seq<DiffLine>, tones: Seq<(bool, bool)>) -> Seq<char> {
    text::flat(Seq::new(lines.len(), |i: int| line_in(lines[i], tones[i])))
}

/// What shows lines is fixed by them and by whether their tones show.
pub proof fn lemma_shown_in_tones(out: Seq<char>, lines: Seq<DiffLine>) -> (tones: Seq<
    (bool, bool),
>)
    requires
        shows(out, lines),
    ensures
        tones.len() == lines.len(),
        out == lines_in(lines, tones),
{
    let pieces = choose|pieces: Seq<Seq<char>>|
        #[trigger] piecewise(pieces, lines) && out == text::flat(pieces);
    let tones = Seq::new(
        lines.len(),
        |i: int| choose|t: (bool, bool)| pieces[i] == #[trigger] line_in(lines[i], t),
    );
    assert forall|i: int| 0 <= i < pieces.len() implies pieces[i] == line_in(
        lines[i],
        tones[i],
    ) by {
        let line = lines[i];
        assert(shows_line(pieces[i], line));
        let (a, b) = choose|a: Seq<char>, b: Seq<char>|
            paint::painting(a, head(line), tone(line.tag), 0) && paint::painting(
                b,
                line.text,
                tone(line.tag),
                0,
            ) && pieces[i] == #[trigger] row(a, b);
        let t = (
            a == paint::painted(head(line), tone(line.tag), 0, true),
            b == paint::painted(line.text, tone(line.tag), 0, true),
        );
        assert(pieces[i] == line_in(line, t));
    }
    assert(pieces =~= Seq::new(lines.len(), |i: int| line_in(lines[i], tones[i])));
    tones
}

/// The line of a difference.
fn draw_line(tag: Tag, number: u64, text: &str) -> (r: String)
    ensures
        shows_line(r@, (DiffLine { tag, number: number as nat, text: text@ })),
{
    let ghost line = DiffLine { tag, number: number as nat, text: text@ };
    let (mark, tone) = match tag {
        Tag::Delete => ("-", Tone::Red),
        Tag::Insert => ("+", Tone::Green),
        Tag::Equal => (" ", Tone::Dimmed),
    };
    let a = paint(&cat2(mark, &padded(&decimal_of(number), 4)), tone, 0);
    let b = paint(text, tone, 0);
    let r = output_row(&a, &b);
    assert(paint::painting(a@, head(line), self::tone(line.tag), 0));
    assert(r@ == row(a@, b@));
    r
}

/// Adds the line of a difference to an output.
fn add_line(out: &mut String, tag: Tag, number: u64, text: &str, Ghost(pieces): Ghost<
    Seq<Seq<char>>,
>) -> (more: Ghost<Seq<Seq<char>>>)
    requires
        old(out)@ == text::flat(pieces),
    ensures
        final(out)@ == text::flat(more@),
        more@.len() == pieces.len() + 1,
        more@.drop_last() == pieces,
        shows_line(more@.last(), (DiffLine { tag, number: number as nat, text: text@ })),
{
    let line = draw_line(tag, number, text);
    let ghost more = pieces.push(line@);
    out.append(&line);
    assert(more.drop_last() =~= pieces);
    Ghost(more)
}

/// Shows `lines` as deleted.
fn draw_deleted(original: &str) -> (r: String)
    ensures
        shows(r@, deleted_lines(text::lines(original@))),
{
    let lines = lines_of(original);
    let ghost all = deleted_lines(text::lines(original@));
    let mut r = String::new();
    let mut pieces: Ghost<Seq<Seq<char>>> = Ghost(Seq::empty());
    let mut i: usize = 0;
    assert(r@ =~= text::flat(pieces@));
    while i < lines.len()
        invariant
            i <= lines@.len(),
            text::views(lines@) == text::lines(original@),
            all == deleted_lines(text::lines(original@)),
            r@ == text::flat(pieces@),
            piecewise(pieces@, all.take(i as int)),
        decreases lines.len() - i,
    {
        assert(text::views(lines@)[i as int] == lines@[i as int]@);
        let ghost before = pieces@;
        pieces = add_line(&mut r, Tag::Delete, i as u64 + 1, &lines[i], Ghost(pieces@));
        proof {
            let now = all.take(i + 1);
            assert(now[i as int] == all[i as int]);
            assert forall|k: int| 0 <= k < pieces@.len() implies shows_line(
                #[trigger] pieces@[k],
                now[k],
            ) by {
                if k < before.len() {
                    assert(pieces@.drop_last()[k] == pieces@[k]);
                    assert(all.take(i as int)[k] == now[k]);
                }
            }
        }
        i += 1;
    }
    assert(all.take(i as int) =~= all);
    r
}

/// Shows line changes, each of which has a place in the text in which it stands.
pub fn draw_changes(changes: &Vec<LineChange>) -> (r: String)
    requires
        forall|i: int|
            0 <= i < changes@.len() ==> (place((#[trigger] changes@[i])@) matches Some(at) && at
                < usize::MAX),
    ensures
        shows(r@, changed_lines(changes_facts(changes@))),
{
    let ghost all = changed_lines(changes_facts(changes@));
    let mut r = String::new();
    let mut pieces: Ghost<Seq<Seq<char>>> = Ghost(Seq::empty());
    let mut i: usize = 0;
    assert(r@ =~= text::flat(pieces@));
    while i < changes.len()
        invariant
            i <= changes@.len(),
            forall|k: int|
                0 <= k < changes@.len() ==> (place((#[trigger] changes@[k])@) matches Some(at) && at
                    < usize::MAX),
            all == changed_lines(changes_facts(changes@)),
            r@ == text::flat(pieces@),
            piecewise(pieces@, all.take(i as int)),
        decreases changes@.len() - i,
    {
        let c = &changes[i];
        assert(place(changes@[i as int]@) is Some);
        let at: usize = match c.tag {
            Tag::Insert => match c.new_index {
                Some(at) => at,
                None => 0,
            },
            _ => match c.old_index {
                Some(at) => at,
                None => 0,
            },
        };
        let ghost before = pieces@;
        pieces =
        add_line(&mut r, c.tag, (at + 1) as u64, &trimmed_end(&c.text), Ghost(pieces@));
        proof {
            let now = all.take(i + 1);
            assert(now[i as int] == all[i as int]);
            assert(changes_facts(changes@)[i as int] == changes@[i as int]@);
            assert forall|k: int| 0 <= k < pieces@.len() implies shows_line(
                #[trigger] pieces@[k],
                now[k],
            ) by {
                if k < before.len() {
                    assert(pieces@.drop_last()[k] == pieces@[k]);
                    assert(all.take(i as int)[k] == now[k]);
                }
            }
        }
        i += 1;
    }
    assert(all.take(i as int) =~= all);
    r
}

/// Shows the difference between two texts, with `buffer` unchanged lines around
/// each change. Whether the tones show is up to the terminal.
pub fn generate_diff(original: &str, updated: &str, buffer: usize) -> (r: String)
    requires
        updated@.len() > 0 ==> 2 * buffer <= usize::MAX,
    ensures
        shows(r@, diff_lines(original@, updated@, buffer)),
{
    if updated.is_empty() {
        return draw_deleted(original);
    }
    let changes = changes_between(original, updated, buffer);
    let old_len = chars_of(original).len();
    let new_len = chars_of(updated).len();
    assert forall|i: int| 0 <= i < changes@.len() implies (place(
        (#[trigger] changes@[i])@,
    ) matches Some(at) && at < usize::MAX) by {
        assert(old_len <= usize::MAX && new_len <= usize::MAX);
    }
    draw_changes(&changes)
}

// ---------------------------------------------------------------------------
// Reading a patch
// ---------------------------------------------------------------------------

/// Whether `\d` of the `regex` crate matches a character beyond ASCII.
pub uninterp spec fn foreign_digit(c: char) -> bool;

/// `regex::Regex::is_match` for the pattern `^\d$` on a text of one character. It
/// depends on the character alone.
#[verifier::external_body]
fn is_foreign_digit(c: char) -> (r: bool)
    ensures
        r == foreign_digit(c),
{
    regex::Regex::new(r"^\d$").unwrap().is_match(&c.to_string())
}

/// Whether a character counts as a digit in the header of a hunk.
pub open spec fn is_hunk_digit(c: char) -> bool {
    if (c as u32) < 128 {
        '0' <= c && c <= '9'
    } else {
        foreign_digit(c)
    }
}

/// Whether a character counts as a digit in the header of a hunk.
fn hunk_digit(c: char) -> (r: bool)
    ensures
        r == is_hunk_digit(c),
{
    if (c as u32) < 128 {
        '0' <= c && c <= '9'
    } else {
        is_foreign_digit(c)
    }
}

/// The first position from `from` on that holds no digit.
pub open spec fn digits_end(s: Seq<char>, from: int) -> int
    decreases s.len() - from,
{
    if 0 <= from < s.len() && is_hunk_digit(s[from]) {
        digits_end(s, from + 1)
    } else {
        from
    }
}

/// The position behind a comma and digits that stand at `from`, or `from`.
pub open spec fn count_end(s: Seq<char>, from: int) -> int {
    if 0 <= from < s.len() && s[from] == ',' && digits_end(s, from + 1) > from + 1 {
        digits_end(s, from + 1)
    } else {
        from
    }
}

/// The two starting line numbers in the header of a hunk, in the old and in the
/// new text, as they are written there. A header begins with
/// `@@ -start,count +start,count @@`, where each count, with its comma, may be
/// missing.
pub open spec fn hunk_starts(line: Seq<char>) -> Option<(Seq<char>, Seq<char>)> {
    let from1 = 4;
    let to1 = digits_end(line, from1);
    let from2 = count_end(line, to1) + 2;
    let to2 = digits_end(line, from2);
    if text::begins_with(line, "@@ -"@) && from1 < to1 && text::occurs_at(line, " +"@, from2 - 2)
        && from2 < to2 && text::occurs_at(line, " @@"@, count_end(line, to2)) {
        Some((line.subrange(from1, to1), line.subrange(from2, to2)))
    } else {
        None
    }
}

/// The first position from `from` on that holds no digit.
fn end_of_digits(s: &Vec<char>, from: usize) -> (r: usize)
    requires
        from <= s@.len(),
    ensures
        r == digits_end(s@, from as int),
        from <= r <= s@.len(),
{
    let mut i: usize = from;
    while i < s.len() && hunk_digit(s[i])
        invariant
            from <= i <= s@.len(),
            digits_end(s@, from as int) == digits_end(s@, i as int),
        ensures
            from <= i <= s@.len(),
            digits_end(s@, from as int) == i,
        decreases s@.len() - i,
    {
        i += 1;
    }
    i
}

/// The position behind a comma and digits that stand at `from`, or `from`.
fn end_of_count(s: &Vec<char>, from: usize) -> (r: usize)
    requires
        from <= s@.len(),
    ensures
        r == count_end(s@, from as int),
        from <= r <= s@.len(),
{
    if from < s.len() && s[from] == ',' {
        let end = end_of_digits(s, from + 1);
        if end > from + 1 {
            return end;
        }
    }
    from
}

/// The two starting line numbers in the header of a hunk.
pub fn parse_hunk_header(line: &str) -> (r: Option<(String, String)>)
    ensures
        (match r {
            Some((a, b)) => Some((a@, b@)),
            None => None,
        }) == hunk_starts(line@),
{
    proof {
        reveal_strlit("@@ -");
        reveal_strlit(" +");
        reveal_strlit(" @@");
    }
    let s = chars_of(line);
    if !matches_at(&s, &chars_of("@@ -"), 0) {
        return None;
    }
    let to1 = end_of_digits(&s, 4);
    let gap = end_of_count(&s, to1);
    if to1 == 4 || !matches_at(&s, &chars_of(" +"), gap) {
        return None;
    }
    assert(" +"@.len() == 2);
    let from2 = gap + 2;
    let to2 = end_of_digits(&s, from2);
    let tail = end_of_count(&s, to2);
    if to2 == from2 || !matches_at(&s, &chars_of(" @@"), tail) {
        return None;
    }
    Some((slice_of(&s, 4, to1), slice_of(&s, from2, to2)))
}

/// The file that a patch is being read for: its name, and as much of its old and
/// of its new text as the patch shows.
pub struct Draft {
    pub name: Seq<char>,
    pub orig: Seq<Seq<char>>,
    pub upd: Seq<Seq<char>>,
}

/// A file in a patch: its name, its old text and its new text.
pub type Rebuilt = (Seq<char>, Seq<char>, Seq<char>);

/// A draft of which nothing is known.
pub open spec fn blank_draft() -> Draft {
    Draft { name: Seq::empty(), orig: Seq::empty(), upd: Seq::empty() }
}

/// `lines`, with empty lines behind them so that the next one has the number
/// `next`, if it would have a smaller one.
pub open spec fn filled(lines: Seq<Seq<char>>, next: nat) -> Seq<Seq<char>> {
    if next > lines.len() + 1 {
        lines + Seq::new((next - 1 - lines.len()) as nat, |i: int| Seq::<char>::empty())
    } else {
        lines
    }
}

/// The number that digits denote.
pub open spec fn start_of(digits: Seq<char>) -> nat {
    match numbers::digits_number(digits) {
        Some(n) => n,
        None => 0,
    }
}

/// What a line of a patch, other than one that begins a file, adds to a draft.
pub open spec fn drafted(d: Draft, line: Seq<char>) -> Draft {
    if text::begins_with(line, "+++ b/"@) {
        Draft { name: text::without_leading(line, "+++ b/"@), ..d }
    } else if let Some((a, b)) = hunk_starts(line) {
        Draft { orig: filled(d.orig, start_of(a)), upd: filled(d.upd, start_of(b)), ..d }
    } else if text::begins_with(line, " "@) {
        Draft { orig: d.orig.push(line.skip(1)), upd: d.upd.push(line.skip(1)), ..d }
    } else if text::begins_with(line, "-"@) && !text::begins_with(line, "---"@) {
        Draft { orig: d.orig.push(line.skip(1)), ..d }
    } else if text::begins_with(line, "+"@) && !text::begins_with(line, "+++"@) {
        Draft { upd: d.upd.push(line.skip(1)), ..d }
    } else {
        d
    }
}

/// The file that a draft stands for, if it has a name.
pub open spec fn finished(d: Draft) -> Seq<Rebuilt> {
    if d.name.len() == 0 {
        Seq::empty()
    } else {
        seq![(d.name, text::join(d.orig, "\n"@), text::join(d.upd, "\n"@))]
    }
}

/// The files that the lines of a patch have completed, and the draft of the one
/// that they have begun.
pub open spec fn read_lines(lines: Seq<Seq<char>>) -> (Seq<Rebuilt>, Draft)
    decreases lines.len(),
{
    if lines.len() == 0 {
        (Seq::empty(), blank_draft())
    } else {
        let (files, d) = read_lines(lines.drop_last());
        if text::begins_with(lines.last(), "diff --git "@) {
            (files + finished(d), blank_draft())
        } else {
            (files, drafted(d, lines.last()))
        }
    }
}

/// The files in a patch.
pub open spec fn rebuilt(patch: Seq<char>) -> Seq<Rebuilt> {
    let (files, d) = read_lines(text::lines(patch));
    files + finished(d)
}

/// Whether digits denote a number that a machine word holds.
pub open spec fn start_fits(digits: Seq<char>) -> bool {
    numbers::digits_number(digits) is Some
}

/// Whether the starting line numbers in a line, if it is the header of a hunk,
/// are numbers that a machine word holds.
pub open spec fn line_fits(line: Seq<char>) -> bool {
    hunk_starts(line) matches Some((a, b)) ==> start_fits(a) && start_fits(b)
}

/// Whether all starting line numbers in a patch are numbers that a machine word
/// holds.
pub open spec fn hunks_fit(patch: Seq<char>) -> bool {
    forall|i: int| 0 <= i < text::lines(patch).len() ==> line_fits(#[trigger] text::lines(patch)[i])
}

/// The number that digits denote, if a machine word holds it.
fn read_start(digits: &str) -> (r: Option<usize>)
    ensures
        r is Some <==> start_fits(digits@),
        r matches Some(n) ==> n == start_of(digits@),
{
    let v = chars_of(digits);
    assert(v@.subrange(0, v@.len() as int) =~= v@);
    parse_digits(&v, 0, v.len())
}

/// Whether all starting line numbers in a patch are numbers that a machine word
/// holds.
pub fn patch_is_readable(patch: &str) -> (r: bool)
    ensures
        r == hunks_fit(patch@),
{
    let lines = lines_of(patch);
    let ghost all = text::views(lines@);
    let mut i: usize = 0;
    while i < lines.len()
        invariant
            i <= lines@.len(),
            all == text::views(lines@),
            all == text::lines(patch@),
            forall|k: int| 0 <= k < i ==> line_fits(#[trigger] all[k]),
        decreases lines@.len() - i,
    {
        assert(all[i as int] == lines@[i as int]@);
        match parse_hunk_header(&lines[i]) {
            Some((a, b)) => {
                if read_start(&a).is_none() || read_start(&b).is_none() {
                    assert(!line_fits(all[i as int]));
                    return false;
                }
            },
            None => {},
        }
        i += 1;
    }
    true
}

/// Adds empty lines so that the next one has the number `next`.
fn fill(lines: &mut Vec<String>, next: usize)
    ensures
        text::views(final(lines)@) == filled(text::views(old(lines)@), next as nat),
{
    broadcast use text::lemma_views_push;

    let ghost before = text::views(lines@);
    while next > 0 && next - 1 > lines.len()
        invariant
            lines@.len() >= before.len(),
            next as int - 1 > before.len() ==> lines@.len() <= next - 1,
            next as int - 1 <= before.len() ==> lines@.len() == before.len(),
            text::views(lines@) == before + Seq::new(
                (lines@.len() - before.len()) as nat,
                |i: int| Seq::<char>::empty(),
            ),
        decreases next as int - 1 - lines@.len(),
    {
        let ghost now = text::views(lines@);
        let empty = String::new();
        assert(empty@ =~= Seq::empty());
        lines.push(empty);
        assert(text::views(lines@) == now.push(Seq::<char>::empty()));
        assert(text::views(lines@) =~= before + Seq::new(
            (lines@.len() - before.len()) as nat,
            |i: int| Seq::<char>::empty(),
        ));
    }
    assert(text::views(lines@) =~= filled(before, next as nat));
}

/// What follows the first character of a line.
fn tail_of(line: &str) -> (r: String)
    requires
        line@.len() > 0,
    ensures
        r@ == line@.skip(1),
{
    let v = chars_of(line);
    let r = slice_of(&v, 1, v.len());
    assert(r@ =~= line@.skip(1));
    r
}

/// A file that a patch is being read for.
struct Work {
    name: String,
    orig: Vec<String>,
    upd: Vec<String>,
}

impl Work {
    spec fn draft(self) -> Draft {
        Draft { name: self.name@, orig: text::views(self.orig@), upd: text::views(self.upd@) }
    }

    fn new() -> (w: Work)
        ensures
            w.draft() == blank_draft(),
    {
        let w = Work { name: String::new(), orig: Vec::new(), upd: Vec::new() };
        assert(w.name@ =~= Seq::empty());
        assert(text::views(w.orig@) =~= Seq::empty());
        assert(text::views(w.upd@) =~= Seq::empty());
        w
    }

    /// Takes in a line of the patch, other than one that begins a file.
    fn take(&mut self, line: &str)
        requires
            line_fits(line@),
        ensures
            final(self).draft() == drafted(old(self).draft(), line@),
    {
        broadcast use text::lemma_views_push;

        proof {
            reveal_strlit(" ");
            reveal_strlit("-");
            reveal_strlit("+");
        }
        if starts_with(line, "+++ b/") {
            self.name = trim_start_matches(line, "+++ b/");
            return ;
        }
        match parse_hunk_header(line) {
            Some((a, b)) => {
                match (read_start(&a), read_start(&b)) {
                    (Some(start), Some(upd_start)) => {
                        fill(&mut self.orig, start);
                        fill(&mut self.upd, upd_start);
                    },
                    _ => {},
                }
                return ;
            },
            None => {},
        }
        if starts_with(line, " ") {
            self.orig.push(tail_of(line));
            self.upd.push(tail_of(line));
        } else if starts_with(line, "-") && !starts_with(line, "---") {
            self.orig.push(tail_of(line));
        } else if starts_with(line, "+") && !starts_with(line, "+++") {
            self.upd.push(tail_of(line));
        }
    }
}

/// A file in a patch, as facts.
pub open spec fn rebuilt_facts(file: (String, String, String)) -> Rebuilt {
    (file.0@, file.1@, file.2@)
}

/// The files in a patch, as facts.
pub open spec fn all_rebuilt(files: Seq<(String, String, String)>) -> Seq<Rebuilt> {
    files.map_values(|file: (String, String, String)| rebuilt_facts(file))
}

/// Adds the file that a draft stands for.
fn finish(files: &mut Vec<(String, String, String)>, work: &Work)
    ensures
        all_rebuilt(final(files)@) == all_rebuilt(old(files)@) + finished(work.draft()),
{
    let ghost before = all_rebuilt(files@);
    if !work.name.as_str().is_empty() {
        let file = (owned(&work.name), joined(&work.orig, "\n"), joined(&work.upd, "\n"));
        files.push(file);
        assert(all_rebuilt(files@) =~= before + finished(work.draft()));
    } else {
        assert(all_rebuilt(files@) =~= before + finished(work.draft()));
    }
}

/// The files in a patch: of each its name, and as much of its old and of its new
/// text as the patch shows, with empty lines where it shows nothing.
pub fn reconstruct_files_from_unified_diff(diff_text: &str) -> (r: Vec<(String, String, String)>)
    requires
        hunks_fit(diff_text@),
    ensures
        all_rebuilt(r@) == rebuilt(diff_text@),
{
    let lines = lines_of(diff_text);
    let ghost all = text::views(lines@);
    let mut r: Vec<(String, String, String)> = Vec::new();
    let mut work = Work::new();
    let mut i: usize = 0;
    assert(all_rebuilt(r@) =~= Seq::empty());
    while i < lines.len()
        invariant
            i <= lines@.len(),
            hunks_fit(diff_text@),
            all == text::views(lines@),
            all == text::lines(diff_text@),
            (all_rebuilt(r@), work.draft()) == read_lines(all.take(i as int)),
        decreases lines@.len() - i,
    {
        assert(all[i as int] == lines@[i as int]@);
        assert(all.take(i + 1).drop_last() =~= all.take(i as int));
        assert(line_fits(all[i as int]));
        if starts_with(&lines[i], "diff --git ") {
            finish(&mut r, &work);
            work = Work::new();
        } else {
            work.take(&lines[i]);
        }
        i += 1;
    }
    assert(all.take(i as int) =~= all);
    finish(&mut r, &work);
    r
}

/// The files in a patch, or nothing where it has a starting line number that no
/// machine word holds.
pub fn try_reconstruct(diff_text: &str) -> (r: Option<Vec<(String, String, String)>>)
    ensures
        r is Some <==> hunks_fit(diff_text@),
        r matches Some(files) ==> all_rebuilt(files@) == rebuilt(diff_text@),
{
    if patch_is_readable(diff_text) {
        Some(reconstruct_files_from_unified_diff(diff_text))
    } else {
        None
    }
}

// ---------------------------------------------------------------------------
// What a patch tells
// ---------------------------------------------------------------------------

/// What becomes of a line from the old text to the new one.
pub enum Fate {
    Kept,
    Removed,
    Added,
}

/// A line as a patch shows it: a mark, and then the line.
pub open spec fn marked(line: (Fate, Seq<char>)) -> Seq<char> {
    match line.0 {
        Fate::Kept => " "@ + line.1,
        Fate::Removed => "-"@ + line.1,
        Fate::Added => "+"@ + line.1,
    }
}

/// The lines of the old text.
pub open spec fn old_lines(lines: Seq<(Fate, Seq<char>)>) -> Seq<Seq<char>> {
    lines.filter_map(
        |line: (Fate, Seq<char>)|
            if line.0 is Added {
                None
            } else {
                Some(line.1)
            },
    )
}

/// The lines of the new text.
pub open spec fn new_lines(lines: Seq<(Fate, Seq<char>)>) -> Seq<Seq<char>> {
    lines.filter_map(
        |line: (Fate, Seq<char>)|
            if line.0 is Removed {
                None
            } else {
                Some(line.1)
            },
    )
}

/// Whether a line, with its mark, can be told from the lines that name a file.
pub open spec fn unmistakable(line: (Fate, Seq<char>)) -> bool {
    match line.0 {
        Fate::Kept => true,
        Fate::Removed => !text::begins_with(line.1, "--"@),
        Fate::Added => !text::begins_with(line.1, "++"@),
    }
}

proof fn lemma_begins(s: Seq<char>, p: Seq<char>, i: int)
    requires
        text::begins_with(s, p),
        0 <= i < p.len(),
    ensures
        s[i] == p[i],
{
    assert(s.subrange(0, p.len() as int)[i] == p[i]);
}

proof fn lemma_marked(d: Draft, line: (Fate, Seq<char>))
    requires
        unmistakable(line),
    ensures
        !text::begins_with(marked(line), "diff --git "@),
        drafted(d, marked(line)) == (Draft {
            name: d.name,
            orig: if line.0 is Added {
                d.orig
            } else {
                d.orig.push(line.1)
            },
            upd: if line.0 is Removed {
                d.upd
            } else {
                d.upd.push(line.1)
            },
        }),
{
    reveal_strlit("diff --git ");
    reveal_strlit("+++ b/");
    reveal_strlit("@@ -");
    reveal_strlit(" ");
    reveal_strlit("-");
    reveal_strlit("---");
    reveal_strlit("--");
    reveal_strlit("+");
    reveal_strlit("+++");
    reveal_strlit("++");
    let whole = marked(line);
    assert(whole.skip(1) =~= line.1);
    assert(whole.subrange(0, 1) =~= seq![whole[0]]);
    assert(" "@ =~= seq![' ']);
    assert("-"@ =~= seq!['-']);
    assert("+"@ =~= seq!['+']);
    if text::begins_with(whole, "diff --git "@) {
        lemma_begins(whole, "diff --git "@, 0);
    }
    if text::begins_with(whole, "@@ -"@) {
        lemma_begins(whole, "@@ -"@, 0);
    }
    if text::begins_with(whole, "---"@) {
        lemma_begins(whole, "---"@, 0);
        lemma_begins(whole, "---"@, 1);
        lemma_begins(whole, "---"@, 2);
        assert(line.1.subrange(0, 2) =~= "--"@);
    }
    if text::begins_with(whole, "+++"@) {
        lemma_begins(whole, "+++"@, 0);
        lemma_begins(whole, "+++"@, 1);
        lemma_begins(whole, "+++"@, 2);
        assert(line.1.subrange(0, 2) =~= "++"@);
    }
    if text::begins_with(whole, "+++ b/"@) {
        lemma_begins(whole, "+++ b/"@, 0);
        lemma_begins(whole, "+++ b/"@, 1);
        lemma_begins(whole, "+++ b/"@, 2);
        assert(line.1.subrange(0, 2) =~= "++"@);
    }
}

/// The lines of a hunk add to both texts of the file that they are about: those
/// that were kept to both, those that were removed to the old one and those that
/// were added to the new one, each in its order.
pub proof fn law_hunks_rebuild_both_texts(
    before: Seq<Seq<char>>,
    lines: Seq<(Fate, Seq<char>)>,
)
    requires
        forall|i: int| 0 <= i < lines.len() ==> unmistakable(#[trigger] lines[i]),
    ensures
        ({
            let (files, d) = read_lines(before);
            read_lines(before + lines.map_values(|line: (Fate, Seq<char>)| marked(line))) == (
                files,
                Draft {
                    name: d.name,
                    orig: d.orig + old_lines(lines),
                    upd: d.upd + new_lines(lines),
                },
            )
        }),
    decreases lines.len(),
{
    let shown = lines.map_values(|line: (Fate, Seq<char>)| marked(line));
    let (files, d) = read_lines(before);
    if lines.len() == 0 {
        assert(before + shown =~= before);
        assert(d.orig + old_lines(lines) =~= d.orig);
        assert(d.upd + new_lines(lines) =~= d.upd);
    } else {
        let front = lines.drop_last();
        assert forall|i: int| 0 <= i < front.len() implies unmistakable(#[trigger] front[i]) by {
            assert(front[i] == lines[i]);
        }
        law_hunks_rebuild_both_texts(before, front);
        assert((before + shown).drop_last() =~= before + front.map_values(
            |line: (Fate, Seq<char>)| marked(line),
        ));
        assert((before + shown).last() == marked(lines.last()));
        assert(unmistakable(lines[lines.len() - 1]));
        let now = read_lines((before + shown).drop_last()).1;
        lemma_marked(now, lines.last());
        let next = drafted(now, marked(lines.last()));
        assert(next.orig =~= d.orig + old_lines(lines));
        assert(next.upd =~= d.upd + new_lines(lines));
    }
}

/// The lines behind the header of a hunk stand where the header says, unless
/// lines that stand there are known already: what is missing before them is
/// filled up with empty lines. Nothing that is known is lost.
pub proof fn law_hunks_stand_where_their_headers_say(
    d: Draft,
    header: Seq<char>,
    old_start: Seq<char>,
    new_start: Seq<char>,
)
    requires
        hunk_starts(header) == Some((old_start, new_start)),
    ensures
        ({
            let next = drafted(d, header);
            &&& d.orig.is_prefix_of(next.orig)
            &&& d.upd.is_prefix_of(next.upd)
            &&& start_of(old_start) > d.orig.len() ==> next.orig.len() + 1 == start_of(old_start)
            &&& start_of(old_start) <= d.orig.len() ==> next.orig == d.orig
            &&& start_of(new_start) > d.upd.len() ==> next.upd.len() + 1 == start_of(new_start)
            &&& start_of(new_start) <= d.upd.len() ==> next.upd == d.upd
            &&& next.name == d.name
        }),
{
    reveal_strlit("+++ b/");
    reveal_strlit("@@ -");
    let next = drafted(d, header);
    lemma_begins(header, "@@ -"@, 0);
    if text::begins_with(header, "+++ b/"@) {
        lemma_begins(header, "+++ b/"@, 0);
    }
    assert(d.orig.is_prefix_of(next.orig));
    assert(d.upd.is_prefix_of(next.upd));
}

} // verus!
