//! What texts, numerals and paths have in common with what they are made from.
use crate::numbers;
use crate::paths;
use crate::text;
use crate::utils;
use vstd::prelude::*;

verus! {

// ---------------------------------------------------------------------------
// Parts of a text
// ---------------------------------------------------------------------------

/// A text begins with another one if, and only if, something put behind that one
/// gives it; it ends with it, and holds it, in the same sense.
pub proof fn law_parts_of_a_text(a: Seq<char>, b: Seq<char>, c: Seq<char>, s: Seq<char>)
    ensures
        text::begins_with(a + b, a),
        text::finishes_with(a + b, b),
        text::holds(a + b + c, b),
        text::begins_with(s, a) ==> s == a + s.skip(a.len() as int),
        text::finishes_with(s, a) ==> s == s.take(s.len() - a.len()) + a,
        text::holds(s, a) ==> exists|at: int|
            0 <= at <= s.len() - a.len() && s == #[trigger] s.take(at) + a + s.skip(at + a.len()),
{
    assert((a + b).subrange(0, a.len() as int) =~= a);
    let whole = a + b;
    assert(whole.subrange(whole.len() - b.len(), whole.len() as int) =~= b);
    let long = a + b + c;
    assert(long.subrange(a.len() as int, (a.len() + b.len()) as int) =~= b);
    assert(text::occurs_at(long, b, a.len() as int));
    if text::begins_with(s, a) {
        assert(s =~= s.subrange(0, a.len() as int) + s.skip(a.len() as int));
    }
    if text::finishes_with(s, a) {
        let n = s.len() - a.len();
        assert(s =~= s.take(n) + s.subrange(n, s.len() as int));
    }
    if text::holds(s, a) {
        let at = choose|at: int| #[trigger] text::occurs_at(s, a, at);
        assert(s =~= s.take(at) + s.subrange(at, at + a.len()) + s.skip(at + a.len()));
    }
}

/// Copies of a text are taken away from the front of another one as long as there
/// are any, and nothing else is.
pub proof fn law_copies_are_taken_away(s: Seq<char>, p: Seq<char>)
    requires
        p.len() > 0,
    ensures
        text::without_leading(p + s, p) == text::without_leading(s, p),
        !text::begins_with(s, p) ==> text::without_leading(s, p) == s,
        text::without_trailing(s + p, p) == text::without_trailing(s, p),
        !text::finishes_with(s, p) ==> text::without_trailing(s, p) == s,
{
    let front = p + s;
    assert(front.subrange(0, p.len() as int) =~= p);
    assert(front.skip(p.len() as int) =~= s);
    let back = s + p;
    assert(back.subrange(back.len() - p.len(), back.len() as int) =~= p);
    assert(back.take(back.len() - p.len()) =~= s);
}

// ---------------------------------------------------------------------------
// White space
// ---------------------------------------------------------------------------

/// Blanks, tabulators, line feeds and carriage returns are white space; no letter,
/// digit or mark of ASCII is.
pub proof fn law_white_space(c: char)
    ensures
        c == ' ' || c == '\t' || c == '\n' || c == '\r' ==> text::is_space(c),
        '!' <= c && c <= '~' ==> !text::is_space(c),
{
}

/// Whether what stands in a text from `from` to `to` is all of it but for what is to
/// be dropped around it.
spec fn is_kernel(s: Seq<char>, drop: spec_fn(char) -> bool, from: int, to: int) -> bool {
    &&& 0 <= from <= to <= s.len()
    &&& forall|k: int| 0 <= k < from || to <= k < s.len() ==> drop(#[trigger] s[k])
    &&& from < to ==> !drop(s[from]) && !drop(s[to - 1])
}

proof fn lemma_front(s: Seq<char>, drop: spec_fn(char) -> bool) -> (n: int)
    ensures
        0 <= n <= s.len(),
        text::trim_front(s, drop) == s.skip(n),
        forall|k: int| 0 <= k < n ==> drop(#[trigger] s[k]),
        n < s.len() ==> !drop(s[n]),
    decreases s.len(),
{
    if s.len() > 0 && drop(s[0]) {
        let rest = s.drop_first();
        let m = lemma_front(rest, drop);
        assert(rest.skip(m) =~= s.skip(m + 1));
        assert forall|k: int| 0 <= k < m + 1 implies drop(#[trigger] s[k]) by {
            if k > 0 {
                assert(rest[k - 1] == s[k]);
            }
        }
        m + 1
    } else {
        assert(s.skip(0) =~= s);
        0
    }
}

proof fn lemma_back(s: Seq<char>, drop: spec_fn(char) -> bool) -> (n: int)
    ensures
        0 <= n <= s.len(),
        text::trim_back(s, drop) == s.take(n),
        forall|k: int| n <= k < s.len() ==> drop(#[trigger] s[k]),
        n > 0 ==> !drop(s[n - 1]),
    decreases s.len(),
{
    if s.len() > 0 && drop(s.last()) {
        let rest = s.drop_last();
        let m = lemma_back(rest, drop);
        assert(rest.take(m) =~= s.take(m));
        assert forall|k: int| m <= k < s.len() implies drop(#[trigger] s[k]) by {
            if k < rest.len() {
                assert(rest[k] == s[k]);
            }
        }
        m
    } else {
        assert(s.take(s.len() as int) =~= s);
        s.len() as int
    }
}

proof fn lemma_kernel(s: Seq<char>, drop: spec_fn(char) -> bool) -> (r: (int, int))
    ensures
        is_kernel(s, drop, r.0, r.1),
        text::trim_back(text::trim_front(s, drop), drop) == s.subrange(r.0, r.1),
{
    let from = lemma_front(s, drop);
    let rest = s.skip(from);
    let n = lemma_back(rest, drop);
    assert(rest.take(n) =~= s.subrange(from, from + n));
    assert forall|k: int| 0 <= k < from || from + n <= k < s.len() implies drop(
        #[trigger] s[k],
    ) by {
        if k >= from {
            assert(rest[k - from] == s[k]);
        }
    }
    if n > 0 {
        assert(rest[n - 1] == s[from + n - 1]);
        assert(rest[0] == s[from]);
    }
    (from, from + n)
}

/// Whether there is white space, and nothing else, around what stands in a text from
/// `from` to `to`.
pub open spec fn in_white(s: Seq<char>, from: int, to: int) -> bool {
    &&& 0 <= from <= to <= s.len()
    &&& forall|k: int| 0 <= k < from || to <= k < s.len() ==> text::is_space(#[trigger] s[k])
    &&& from < to ==> !text::is_space(s[from]) && !text::is_space(s[to - 1])
}

/// Whether there are copies of a character, and nothing else, around what stands in a
/// text from `from` to `to`.
pub open spec fn in_copies(s: Seq<char>, c: char, from: int, to: int) -> bool {
    &&& 0 <= from <= to <= s.len()
    &&& forall|k: int| 0 <= k < from || to <= k < s.len() ==> #[trigger] s[k] == c
    &&& from < to ==> s[from] != c && s[to - 1] != c
}

/// What is left of a text without the white space, or the copies of a character,
/// around it: all of it but those at its two ends.
pub proof fn law_trimming(s: Seq<char>, c: char)
    ensures
        exists|from: int, to: int| #[trigger]
            in_white(s, from, to) && text::trim(s) == s.subrange(from, to),
        exists|from: int, to: int| #[trigger]
            in_copies(s, c, from, to) && text::trim_char(s, c) == s.subrange(from, to),
        exists|n: int|
            0 <= n <= s.len() && text::trim_end(s) == #[trigger] s.take(n) && (n > 0
                ==> !text::is_space(s[n - 1])) && forall|k: int|
                n <= k < s.len() ==> text::is_space(#[trigger] s[k]),
{
    let a = lemma_kernel(s, text::white());
    assert forall|k: int| 0 <= k < a.0 || a.1 <= k < s.len() implies text::is_space(
        #[trigger] s[k],
    ) by {
        assert(text::white()(s[k]));
    }
    assert(in_white(s, a.0, a.1));
    let b = lemma_kernel(s, text::only(c));
    assert forall|k: int| 0 <= k < b.0 || b.1 <= k < s.len() implies #[trigger] s[k] == c by {
        assert(text::only(c)(s[k]));
    }
    assert(in_copies(s, c, b.0, b.1));
    let n = lemma_back(s, text::white());
    assert forall|k: int| n <= k < s.len() implies text::is_space(#[trigger] s[k]) by {
        assert(text::white()(s[k]));
    }
    assert(text::trim_end(s) == s.take(n));
}

// ---------------------------------------------------------------------------
// Lines and lists
// ---------------------------------------------------------------------------

/// A line reaches to the next line feed, or to the end. A carriage return before the
/// line feed belongs to the end of the line.
pub proof fn law_lines_end_at_line_feeds(line: Seq<char>, rest: Seq<char>)
    requires
        !line.contains('\n'),
    ensures
        text::lines(Seq::empty()) == Seq::<Seq<char>>::empty(),
        line.len() > 0 ==> text::lines(line) == seq![line],
        line.len() == 0 || line.last() != '\r' ==> text::lines(line.push('\n') + rest) == seq![line]
            + text::lines(rest),
        text::lines(line.push('\r').push('\n') + rest) == seq![line] + text::lines(rest),
{
    assert forall|k: int| 0 <= k < line.len() implies line[k] != '\n' by {
        assert(line.contains(line[k]));
    }
    text::lemma_first_newline(line, line.len() as int);
    let one = line.push('\n') + rest;
    text::lemma_first_newline(one, line.len() as int);
    assert(one.take(line.len() as int) =~= line);
    assert(one.skip(line.len() as int + 1) =~= rest);
    let two = line.push('\r').push('\n') + rest;
    text::lemma_first_newline(two, line.len() as int + 1);
    assert(two.take(line.len() as int + 1) =~= line.push('\r'));
    assert(line.push('\r').drop_last() =~= line);
    assert(two.skip(line.len() as int + 2) =~= rest);
}

/// What is joined stands one after the other, with the separator between each two.
pub proof fn law_joining(parts: Seq<Seq<char>>, part: Seq<char>, sep: Seq<char>)
    ensures
        text::join(Seq::empty(), sep) == Seq::<char>::empty(),
        text::join(seq![part], sep) == part,
        parts.len() > 0 ==> text::join(parts.push(part), sep) == text::join(parts, sep) + sep
            + part,
        text::flat(Seq::empty()) == Seq::<char>::empty(),
        text::flat(parts.push(part)) == text::flat(parts) + part,
{
    assert(parts.push(part).drop_last() =~= parts);
    assert(seq![part].drop_last() =~= Seq::<Seq<char>>::empty());
}

/// A list of texts is shown between brackets, each text as `Debug` shows it, with a
/// comma and a blank between each two.
pub proof fn law_lists_are_shown_in_brackets(items: Seq<Seq<char>>, item: Seq<char>)
    ensures
        text::quoted_list(Seq::empty()) == "["@ + "]"@,
        text::quoted_list(seq![item]) == "["@ + text::quoted(item) + "]"@,
        items.len() > 0 ==> text::quoted_list(items.push(item)) == text::quoted_list(
            items,
        ).drop_last() + ", "@ + text::quoted(item) + "]"@,
{
    let quote = |s: Seq<char>| text::quoted(s);
    reveal_strlit("]");
    assert(Seq::<Seq<char>>::empty().map_values(quote) =~= Seq::empty());
    assert("["@ + Seq::empty() + "]"@ =~= "["@ + "]"@);
    assert(seq![item].map_values(quote) =~= seq![text::quoted(item)]);
    law_joining(items.map_values(quote), text::quoted(item), ", "@);
    assert(items.push(item).map_values(quote) =~= items.map_values(quote).push(
        text::quoted(item),
    ));
    if items.len() > 0 {
        let front = text::join(items.map_values(quote), ", "@);
        assert(text::quoted_list(items).drop_last() =~= "["@ + front);
        assert("["@ + (front + ", "@ + text::quoted(item)) + "]"@ =~= "["@ + front + ", "@
            + text::quoted(item) + "]"@);
    }
}

// ---------------------------------------------------------------------------
// Replacing
// ---------------------------------------------------------------------------

/// The first copy of a text gives way to another one, and what follows it is treated
/// in the same way. What stands before it stays.
pub proof fn law_replacing_goes_from_copy_to_copy(
    s: Seq<char>,
    from: Seq<char>,
    to: Seq<char>,
    at: int,
)
    requires
        from.len() > 0,
        text::occurs_at(s, from, at),
        forall|k: int| 0 <= k < at ==> !text::occurs_at(s, from, k),
    ensures
        text::replace(s, from, to) == s.take(at) + to + text::replace(
            s.skip(at + from.len()),
            from,
            to,
        ),
    decreases at,
{
    if at == 0 {
        assert(s.take(0) + to =~= to);
    } else {
        assert(!text::occurs_at(s, from, 0));
        let t = s.drop_first();
        assert(t.subrange(at - 1, at - 1 + from.len()) =~= s.subrange(at, at + from.len()));
        assert forall|k: int| 0 <= k < at - 1 implies !text::occurs_at(t, from, k) by {
            if text::occurs_at(t, from, k) {
                assert(t.subrange(k, k + from.len()) =~= s.subrange(k + 1, k + 1 + from.len()));
                assert(text::occurs_at(s, from, k + 1));
            }
        }
        law_replacing_goes_from_copy_to_copy(t, from, to, at - 1);
        let rest = text::replace(s.skip(at + from.len()), from, to);
        assert(t.skip(at - 1 + from.len()) =~= s.skip(at + from.len()));
        assert(seq![s[0]] + (t.take(at - 1) + to + rest) =~= s.take(at) + to + rest);
    }
}

/// The empty text stands before each character of a text, and at its end.
pub proof fn law_replacing_the_empty_text(c: char, s: Seq<char>, to: Seq<char>)
    ensures
        text::replace(Seq::empty(), Seq::empty(), to) == to,
        text::replace(seq![c] + s, Seq::empty(), to) == to.push(c) + text::replace(
            s,
            Seq::empty(),
            to,
        ),
{
    assert((seq![c] + s).drop_first() =~= s);
    assert(to + seq![c] =~= to.push(c));
}

// ---------------------------------------------------------------------------
// Numerals
// ---------------------------------------------------------------------------

/// Whether a character is the digit for a number.
pub open spec fn is_digit_for(c: char, d: int) -> bool {
    0 <= d < 10 && c as int == 48 + d
}

/// A numeral is made of the digits of ten, the ones last, without zeros before it.
pub proof fn law_numerals_are_decimal(n: nat)
    ensures
        is_digit_for(numbers::decimal(n).last(), n as int % 10),
        numbers::decimal(n).len() > 0,
        n >= 10 ==> numbers::decimal(n).drop_last() == numbers::decimal(n / 10),
        n < 10 ==> numbers::decimal(n).len() == 1,
{
    if n >= 10 {
        assert(numbers::decimal(n).drop_last() =~= numbers::decimal(n / 10));
    }
}

/// Digits stand for a number by tens, and nothing else does. Numbers beyond what a
/// machine word holds are refused.
pub proof fn law_digits_count_by_tens(s: Seq<char>, c: char, d: int)
    ensures
        numbers::digits_number(Seq::empty()) is None,
        is_digit_for(c, d) ==> numbers::digits_number(seq![c]) == Some(d as nat),
        is_digit_for(c, d) && 10 * numbers::value(s) + d <= usize::MAX ==> (
        numbers::digits_number(s) matches Some(n) ==> numbers::digits_number(s.push(c)) == Some(
            (10 * n + d) as nat,
        )),
        is_digit_for(c, d) && 10 * numbers::value(s) + d > usize::MAX ==> numbers::digits_number(
            s.push(c),
        ) is None,
        !(exists|e: int| is_digit_for(c, e)) ==> numbers::digits_number(s.push(c)) is None,
        numbers::digits_number(s) is None && s.len() > 0 ==> numbers::digits_number(s.push(c)) is None,
{
    reveal_with_fuel(numbers::value, 2);
    let more = s.push(c);
    assert(more.drop_last() =~= s);
    assert(seq![c].drop_last() =~= Seq::<char>::empty());
    assert forall|i: int| 0 <= i < s.len() implies more[i] == #[trigger] s[i] by {}
    assert(more[s.len() as int] == c);
    if is_digit_for(c, d) {
        assert(numbers::digit_value(c) == Some(d as nat));
        if numbers::is_digits(s) {
            assert forall|i: int| 0 <= i < more.len() implies numbers::digit_value(
                #[trigger] more[i],
            ) is Some by {
                if i < s.len() {
                    assert(numbers::digit_value(s[i]) is Some);
                }
            }
        }
    }
    if numbers::digit_value(c) is Some {
        assert(is_digit_for(c, c as int - 48));
    }
    if numbers::is_digits(more) && s.len() > 0 {
        assert forall|i: int| 0 <= i < s.len() implies numbers::digit_value(
            #[trigger] s[i],
        ) is Some by {
            assert(numbers::digit_value(more[i]) is Some);
        }
        numbers::lemma_value_grows(more, s.len() as int);
        assert(more.take(s.len() as int) =~= s);
    }
}

/// One plus sign may stand before digits, and a minus sign stands before the numeral
/// of a negative number.
pub proof fn law_signs(s: Seq<char>, n: int)
    ensures
        numbers::unsigned(seq!['+'] + s) == numbers::digits_number(s),
        s.len() == 0 || s[0] != '+' ==> numbers::unsigned(s) == numbers::digits_number(s),
        n >= 0 ==> numbers::signed(n) == numbers::decimal(n as nat),
        n < 0 ==> numbers::signed(n) == seq!['-'] + numbers::decimal((-n) as nat),
{
    reveal_strlit("-");
    assert((seq!['+'] + s).drop_first() =~= s);
    assert("-"@ =~= seq!['-']);
}

/// A text is brought to a width by blanks before it. It is never cut short.
pub proof fn law_blanks_fill_the_width(s: Seq<char>, width: nat)
    ensures
        numbers::pad_start(s, width).len() == if s.len() < width {
            width
        } else {
            s.len()
        },
        ({
            let out = numbers::pad_start(s, width);
            let n = out.len() - s.len();
            out.skip(n) == s && forall|k: int| 0 <= k < n ==> #[trigger] out[k] == ' '
        }),
{
    let out = numbers::pad_start(s, width);
    assert(out.skip(out.len() - s.len()) =~= s);
}

/// A margin of so many blanks stands before each line of a text, and nothing else is
/// changed.
pub proof fn law_margins_stand_before_lines(s: Seq<char>, n: nat, i: int)
    requires
        n > 0,
        !s.contains('\r'),
        0 <= i < text::lines(s).len(),
    ensures
        text::lines(utils::indented(s, n)).len() == text::lines(s).len(),
        ({
            let line = text::lines(utils::indented(s, n))[i];
            &&& line.len() == n + text::lines(s)[i].len()
            &&& line.skip(n as int) == text::lines(s)[i]
            &&& forall|k: int| 0 <= k < n ==> #[trigger] line[k] == ' '
        }),
{
    let once = utils::indented_lines(s, n);
    utils::lemma_indented_lines(s, n);
    let line = text::lines(utils::indented(s, n))[i];
    assert(line == utils::margin(n) + text::lines(s)[i]);
    assert(line.skip(n as int) =~= text::lines(s)[i]);
}

// ---------------------------------------------------------------------------
// Paths
// ---------------------------------------------------------------------------

/// A path seen from a directory is that directory and the path, with one slash
/// between them. An absolute path is the same from everywhere.
pub proof fn law_paths_go_down(base: Seq<char>, path: Seq<char>)
    ensures
        path.len() > 0 && path[0] == '/' ==> paths::join(base, path) == path,
        path.len() == 0 || path[0] != '/' ==> {
            &&& base.len() > 0 && base.last() != '/' ==> paths::join(base, path) == base.push('/')
                + path
            &&& base.len() > 0 && base.last() == '/' ==> paths::join(base, path) == base + path
            &&& base.len() == 0 ==> paths::join(base, path) == path
        },
{
    reveal_strlit("/");
    assert(base + "/"@ =~= base.push('/'));
    if base.len() == 0 {
        assert(base + path =~= path);
    }
}

} // verus!
