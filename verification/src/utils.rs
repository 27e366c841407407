//! Layout of the output.
use vstd::prelude::*;

use crate::numbers::blanks;
use crate::text;
use crate::text::{joined, lines_of};

verus! {

broadcast use crate::text::lemma_views_push;

/// `n` blanks.
pub open spec fn margin(n: nat) -> Seq<char> {
    Seq::new(n, |i: int| ' ')
}

/// The lines of `s`, each behind a margin.
pub open spec fn indented_lines(s: Seq<char>, n: nat) -> Seq<Seq<char>> {
    text::lines(s).map_values(|line: Seq<char>| margin(n) + line)
}

/// `s` with a margin before each of its lines, and without a line feed after
/// the last.
pub open spec fn indented(s: Seq<char>, n: nat) -> Seq<char> {
    text::join(indented_lines(s, n), "\n"@)
}

/// Puts a margin of `width` blanks before each line of `s`.
pub fn indent(s: &str, width: usize) -> (r: String)
    ensures
        r@ == indented(s@, width as nat),
{
    let pad = blanks(width);
    let rows = lines_of(s);
    let mut out: Vec<String> = Vec::new();
    let mut i: usize = 0;
    while i < rows.len()
        invariant
            i <= rows@.len(),
            pad@ == margin(width as nat),
            text::views(rows@) == text::lines(s@),
            text::views(out@) == indented_lines(s@, width as nat).take(i as int),
        decreases rows@.len() - i,
    {
        let mut row = pad.clone();
        row.append(rows[i].as_str());
        assert(text::views(rows@)[i as int] == rows@[i as int]@);
        assert(row@ == indented_lines(s@, width as nat)[i as int]);
        out.push(row);
        assert(indented_lines(s@, width as nat).take(i + 1) =~= indented_lines(
            s@,
            width as nat,
        ).take(i as int).push(row@));
        i += 1;
    }
    assert(text::views(out@) =~= indented_lines(s@, width as nat)) by {
        assert(text::views(rows@).len() == rows@.len());
    }
    joined(&out, "\n")
}

proof fn lemma_margin_keeps_lines(line: Seq<char>, n: nat)
    requires
        text::is_line(line),
    ensures
        text::is_line(margin(n) + line),
{
    let wide = margin(n) + line;
    assert forall|c: char| #[trigger] wide.contains(c) implies c == ' ' || line.contains(c) by {
        let k = choose|k: int| 0 <= k < wide.len() && wide[k] == c;
        if k >= n {
            assert(line[k - n] == c);
        }
    }
}

pub proof fn lemma_indented_lines(s: Seq<char>, a: nat)
    requires
        a > 0,
        !s.contains('\r'),
    ensures
        text::lines(indented(s, a)) == indented_lines(s, a),
{
    let once = indented_lines(s, a);
    text::lemma_lines_are_lines(s);
    assert forall|i: int| 0 <= i < once.len() implies text::is_line(#[trigger] once[i]) by {
        lemma_margin_keeps_lines(text::lines(s)[i], a);
    }
    text::law_lines_undo_join(once);
}

/// Two margins add up, and a margin leaves as many lines as there were: putting a
/// margin before the lines of a text, and then another, is putting one of both
/// widths before them. A margin of no blanks loses an empty line at the end, and
/// a carriage return can become part of the end of a line, so there is a first
/// margin and no carriage return.
pub proof fn law_margins_add_up(s: Seq<char>, a: nat, b: nat)
    requires
        a > 0,
        !s.contains('\r'),
    ensures
        indented(indented(s, a), b) == indented(s, a + b),
        text::lines(indented(s, a)).len() == text::lines(s).len(),
{
    let once = indented_lines(s, a);
    lemma_indented_lines(s, a);
    assert(text::lines(indented(s, a)) == once);
    assert forall|i: int| 0 <= i < once.len() implies indented_lines(indented(s, a), b)[i]
        == #[trigger] indented_lines(s, a + b)[i] by {
        assert(margin(b) + (margin(a) + text::lines(s)[i]) =~= margin(a + b) + text::lines(s)[i]);
    }
    assert(indented_lines(indented(s, a), b) =~= indented_lines(s, a + b));
}

} // verus!
