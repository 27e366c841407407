//! The report on a repository: a section for each file that is concerned.
use crate::diff;
use crate::diff::DiffLine;
use crate::text;
use crate::text::{cat2, cat3, lines_of};
use crate::utils;
use crate::utils::indent;
use vstd::prelude::*;

verus! {

/// What a section says of its file.
pub enum Body {
    /// Nothing but its name.
    Bare,
    /// How it changes.
    Lines(Seq<DiffLine>),
    /// That it could not be read, and why.
    Unreadable(Seq<char>),
}

/// A section: how the file is concerned, its name, and what there is to say.
pub struct Section {
    pub mark: Seq<char>,
    pub file: Seq<char>,
    pub body: Body,
}

/// The first line of a section.
pub open spec fn title(mark: Seq<char>, file: Seq<char>) -> Seq<char> {
    utils::indented(mark + " "@ + file, 2) + "\n"@
}

/// The lines of a difference, as they stand in a section.
pub open spec fn inset(shown: Seq<char>) -> Seq<char> {
    text::flat(text::lines(shown).map_values(|line: Seq<char>| utils::indented(line, 4) + "\n"@))
}

/// A section about a difference, from how that difference is shown.
pub open spec fn with_diff(mark: Seq<char>, file: Seq<char>, shown: Seq<char>) -> Seq<char> {
    title(mark, file) + inset(shown)
}

/// A section about a file that could not be read.
pub open spec fn with_excuse(mark: Seq<char>, file: Seq<char>, why: Seq<char>) -> Seq<char> {
    title(mark, file) + (utils::indented("(Could not read file for diff: "@ + why + ")"@, 2)
        + "\n"@)
}

/// Whether `out` is a section about a difference.
pub open spec fn diff_shown(
    out: Seq<char>,
    mark: Seq<char>,
    file: Seq<char>,
    lines: Seq<DiffLine>,
) -> bool {
    exists|shown: Seq<char>|
        diff::shows(shown, lines) && out == #[trigger] with_diff(mark, file, shown)
}

/// Whether `out` is this section.
pub open spec fn section_shown(out: Seq<char>, s: Section) -> bool {
    match s.body {
        Body::Bare => out == title(s.mark, s.file),
        Body::Lines(lines) => diff_shown(out, s.mark, s.file, lines),
        Body::Unreadable(why) => out == with_excuse(s.mark, s.file, why),
    }
}

/// Whether `pieces` are these sections, one each.
pub open spec fn each_shown(pieces: Seq<Seq<char>>, sections: Seq<Section>) -> bool {
    &&& pieces.len() == sections.len()
    &&& forall|i: int| 0 <= i < pieces.len() ==> section_shown(#[trigger] pieces[i], sections[i])
}

/// Whether `out` is these sections, one after the other.
pub open spec fn sections_shown(out: Seq<char>, sections: Seq<Section>) -> bool {
    exists|pieces: Seq<Seq<char>>|
        #[trigger] each_shown(pieces, sections) && out == text::flat(pieces)
}

proof fn lemma_one_more(out: Seq<char>, sections: Seq<Section>, piece: Seq<char>, s: Section)
    requires
        sections_shown(out, sections),
        section_shown(piece, s),
    ensures
        sections_shown(out + piece, sections.push(s)),
{
    let pieces = choose|pieces: Seq<Seq<char>>|
        #[trigger] each_shown(pieces, sections) && out == text::flat(pieces);
    let more = pieces.push(piece);
    assert(more.drop_last() =~= pieces);
    assert(each_shown(more, sections.push(s)));
}

/// The first line of a section.
pub fn section_title(mark: &str, file: &str) -> (r: String)
    ensures
        r@ == title(mark@, file@),
{
    cat2(&indent(&cat3(mark, " ", file), 2), "\n")
}

/// A section about a difference, from how that difference is shown.
pub fn section_with_diff(mark: &str, file: &str, shown: &str) -> (r: String)
    ensures
        r@ == with_diff(mark@, file@, shown@),
{
    let mut r = section_title(mark, file);
    let rows = lines_of(shown);
    let ghost start = r@;
    let ghost all = text::lines(shown@).map_values(
        |line: Seq<char>| utils::indented(line, 4) + "\n"@,
    );
    let mut i: usize = 0;
    assert(start + text::flat(all.take(0)) =~= start);
    while i < rows.len()
        invariant
            i <= rows@.len(),
            text::views(rows@) == text::lines(shown@),
            all == text::lines(shown@).map_values(
                |line: Seq<char>| utils::indented(line, 4) + "\n"@,
            ),
            r@ == start + text::flat(all.take(i as int)),
        decreases rows@.len() - i,
    {
        assert(text::views(rows@)[i as int] == rows@[i as int]@);
        let row = cat2(&indent(&rows[i], 4), "\n");
        assert(row@ == all[i as int]);
        r.append(&row);
        assert(all.take(i + 1).drop_last() =~= all.take(i as int));
        assert(r@ =~= start + text::flat(all.take(i + 1)));
        i += 1;
    }
    assert(text::views(rows@).len() == rows@.len());
    assert(all.take(i as int) =~= all);
    r
}

/// A section about a file that could not be read.
pub fn section_with_excuse(mark: &str, file: &str, why: &str) -> (r: String)
    ensures
        r@ == with_excuse(mark@, file@, why@),
{
    let excuse = cat3("(Could not read file for diff: ", why, ")");
    cat2(&section_title(mark, file), &cat2(&indent(&excuse, 2), "\n"))
}

/// Sections, in the making.
pub struct Page {
    pub text: String,
    /// Whether there are none.
    pub empty: bool,
    pub sections: Ghost<Seq<Section>>,
}

impl Page {
    /// The text is that of the sections.
    pub open spec fn wf(self) -> bool {
        &&& sections_shown(self.text@, self.sections@)
        &&& (self.empty <==> self.sections@.len() == 0)
    }

    /// No sections.
    pub fn new() -> (p: Page)
        ensures
            p.wf(),
            p.sections@ == Seq::<Section>::empty(),
    {
        let p = Page { text: String::new(), empty: true, sections: Ghost(Seq::empty()) };
        proof {
            let none = Seq::<Seq<char>>::empty();
            assert(each_shown(none, p.sections@));
            assert(p.text@ =~= text::flat(none));
        }
        p
    }

    /// Adds the text of one more section.
    fn add(&mut self, piece: &str, s: Ghost<Section>)
        requires
            old(self).wf(),
            section_shown(piece@, s@),
        ensures
            final(self).wf(),
            final(self).sections@ == old(self).sections@.push(s@),
    {
        proof {
            lemma_one_more(self.text@, self.sections@, piece@, s@);
        }
        self.text.append(piece);
        self.empty = false;
        self.sections = Ghost(self.sections@.push(s@));
    }

    /// Adds a section that only names its file.
    pub fn add_name(&mut self, mark: &str, file: &str)
        requires
            old(self).wf(),
        ensures
            final(self).wf(),
            final(self).sections@ == old(self).sections@.push(
                (Section { mark: mark@, file: file@, body: Body::Bare }),
            ),
    {
        let piece = section_title(mark, file);
        self.add(&piece, Ghost(Section { mark: mark@, file: file@, body: Body::Bare }));
    }

    /// Adds a section about a difference, from how that difference is shown.
    pub fn add_diff(&mut self, mark: &str, file: &str, shown: &str, lines: Ghost<Seq<DiffLine>>)
        requires
            old(self).wf(),
            diff::shows(shown@, lines@),
        ensures
            final(self).wf(),
            final(self).sections@ == old(self).sections@.push(
                (Section { mark: mark@, file: file@, body: Body::Lines(lines@) }),
            ),
    {
        let piece = section_with_diff(mark, file, shown);
        let ghost s = Section { mark: mark@, file: file@, body: Body::Lines(lines@) };
        assert(piece@ == with_diff(mark@, file@, shown@));
        self.add(&piece, Ghost(s));
    }

    /// Adds a section about a file that could not be read.
    pub fn add_excuse(&mut self, mark: &str, file: &str, why: &str)
        requires
            old(self).wf(),
        ensures
            final(self).wf(),
            final(self).sections@ == old(self).sections@.push(
                (Section { mark: mark@, file: file@, body: Body::Unreadable(why@) }),
            ),
    {
        let piece = section_with_excuse(mark, file, why);
        self.add(&piece, Ghost(Section { mark: mark@, file: file@, body: Body::Unreadable(why@) }));
    }
}

} // verus!
