//! Plain text: the handful of string operations the rest of the crate is
//! built on, each with its meaning as a function on sequences of characters.
use vstd::prelude::*;

verus! {

/// `String::push` appends one character.
pub assume_specification[ String::push ](s: &mut String, c: char)
    ensures
        final(s)@ == old(s)@.push(c),
;

/// The texts that a list of strings holds.
pub open spec fn views(v: Seq<String>) -> Seq<Seq<char>> {
    v.map_values(|s: String| s@)
}

/// Adding a string to a list adds its text.
pub broadcast proof fn lemma_views_push(v: Seq<String>, x: String)
    ensures
        #[trigger] views(v.push(x)) == views(v).push(x@),
{
    assert(views(v.push(x)) =~= views(v).push(x@));
}

/// The characters of `s`, in order.
pub fn chars_of(s: &str) -> (v: Vec<char>)
    ensures
        v@ == s@,
{
    let mut v: Vec<char> = Vec::new();
    for c in it: s.chars()
        invariant
            v@ == it.seq().take(it.index() as int),
            it.seq() == s@,
    {
        v.push(c);
    }
    v
}

/// The text between two positions.
pub fn slice_of(v: &Vec<char>, from: usize, to: usize) -> (s: String)
    requires
        from <= to <= v@.len(),
    ensures
        s@ == v@.subrange(from as int, to as int),
{
    let mut s = String::new();
    let mut i: usize = from;
    while i < to
        invariant
            from <= i <= to <= v@.len(),
            s@ == v@.subrange(from as int, i as int),
        decreases to - i,
    {
        s.push(v[i]);
        i += 1;
    }
    s
}

/// An owned copy of `s`.
pub fn owned(s: &str) -> (r: String)
    ensures
        r@ == s@,
{
    s.to_owned()
}

/// Two texts, one after the other.
pub fn cat2(a: &str, b: &str) -> (r: String)
    ensures
        r@ == a@ + b@,
{
    let mut r = a.to_owned();
    r.append(b);
    r
}

/// Three texts, one after the other.
pub fn cat3(a: &str, b: &str, c: &str) -> (r: String)
    ensures
        r@ == a@ + b@ + c@,
{
    let mut r = cat2(a, b);
    r.append(c);
    r
}

/// Four texts, one after the other.
pub fn cat4(a: &str, b: &str, c: &str, d: &str) -> (r: String)
    ensures
        r@ == a@ + b@ + c@ + d@,
{
    let mut r = cat3(a, b, c);
    r.append(d);
    r
}

/// Five texts, one after the other.
pub fn cat5(a: &str, b: &str, c: &str, d: &str, e: &str) -> (r: String)
    ensures
        r@ == a@ + b@ + c@ + d@ + e@,
{
    let mut r = cat4(a, b, c, d);
    r.append(e);
    r
}

/// Six texts, one after the other.
pub fn cat6(a: &str, b: &str, c: &str, d: &str, e: &str, f: &str) -> (r: String)
    ensures
        r@ == a@ + b@ + c@ + d@ + e@ + f@,
{
    let mut r = cat5(a, b, c, d, e);
    r.append(f);
    r
}

/// Seven texts, one after the other.
pub fn cat7(a: &str, b: &str, c: &str, d: &str, e: &str, f: &str, g: &str) -> (r: String)
    ensures
        r@ == a@ + b@ + c@ + d@ + e@ + f@ + g@,
{
    let mut r = cat6(a, b, c, d, e, f);
    r.append(g);
    r
}

/// Whether two texts are the same.
pub fn same(a: &str, b: &str) -> (r: bool)
    ensures
        r == (a@ == b@),
{
    let x = a.to_owned();
    let y = b.to_owned();
    x == y
}

/// The same strings once more.
pub fn copies(items: &Vec<String>) -> (r: Vec<String>)
    ensures
        views(r@) == views(items@),
{
    let mut r: Vec<String> = Vec::new();
    let mut i: usize = 0;
    while i < items.len()
        invariant
            i <= items@.len(),
            r@.len() == i,
            forall|k: int| 0 <= k < i ==> #[trigger] r@[k]@ == items@[k]@,
        decreases items@.len() - i,
    {
        r.push(owned(&items[i]));
        i += 1;
    }
    assert(views(r@) =~= views(items@));
    r
}

/// Whether `x` is one of `items`.
pub fn listed(items: &Vec<String>, x: &str) -> (r: bool)
    ensures
        r == views(items@).contains(x@),
{
    let mut i: usize = 0;
    while i < items.len()
        invariant
            i <= items@.len(),
            forall|k: int| 0 <= k < i ==> #[trigger] views(items@)[k] != x@,
        decreases items@.len() - i,
    {
        assert(views(items@)[i as int] == items@[i as int]@);
        if same(&items[i], x) {
            return true;
        }
        i += 1;
    }
    false
}

// ---------------------------------------------------------------------------
// Prefixes, suffixes and occurrences
// ---------------------------------------------------------------------------

/// Whether `p` stands in `s` at position `at`.
pub open spec fn occurs_at(s: Seq<char>, p: Seq<char>, at: int) -> bool {
    &&& 0 <= at
    &&& at + p.len() <= s.len()
    &&& s.subrange(at, at + p.len()) == p
}

/// Whether `s` begins with `p`.
pub open spec fn begins_with(s: Seq<char>, p: Seq<char>) -> bool {
    occurs_at(s, p, 0)
}

/// Whether `s` ends with `p`.
pub open spec fn finishes_with(s: Seq<char>, p: Seq<char>) -> bool {
    occurs_at(s, p, s.len() - p.len())
}

/// Whether `p` stands somewhere in `s`.
pub open spec fn holds(s: Seq<char>, p: Seq<char>) -> bool {
    exists|at: int| #[trigger] occurs_at(s, p, at)
}

/// Whether `p` stands in `s` at position `at`.
pub fn matches_at(s: &Vec<char>, p: &Vec<char>, at: usize) -> (r: bool)
    ensures
        r == occurs_at(s@, p@, at as int),
{
    if at > s.len() || p.len() > s.len() - at {
        return false;
    }
    let mut i: usize = 0;
    while i < p.len()
        invariant
            i <= p@.len(),
            at + p@.len() <= s.len(),
            forall|k: int| 0 <= k < i ==> s@[at + k] == p@[k],
        decreases p@.len() - i,
    {
        if s[at + i] != p[i] {
            assert(s@.subrange(at as int, at + p@.len())[i as int] == s@[at + i]);
            return false;
        }
        i += 1;
    }
    assert(s@.subrange(at as int, at + p@.len()) =~= p@);
    true
}

/// Whether `s` begins with `p`.
pub fn starts_with(s: &str, p: &str) -> (r: bool)
    ensures
        r == begins_with(s@, p@),
{
    matches_at(&chars_of(s), &chars_of(p), 0)
}

/// What follows `p` in `s`, if `s` begins with `p`.
pub fn strip_prefix(s: &str, p: &str) -> (r: Option<String>)
    ensures
        r is Some <==> begins_with(s@, p@),
        r matches Some(t) ==> t@ == s@.skip(p@.len() as int),
{
    let v = chars_of(s);
    let q = chars_of(p);
    if matches_at(&v, &q, 0) {
        let t = slice_of(&v, q.len(), v.len());
        assert(t@ =~= s@.skip(p@.len() as int));
        Some(t)
    } else {
        None
    }
}

/// Whether `p` stands somewhere in `s`.
pub fn contains(s: &str, p: &str) -> (r: bool)
    ensures
        r == holds(s@, p@),
{
    let v = chars_of(s);
    let q = chars_of(p);
    let mut i: usize = 0;
    while i < v.len()
        invariant
            v@ == s@,
            q@ == p@,
            i <= v@.len(),
            forall|k: int| 0 <= k < i ==> !occurs_at(s@, p@, k),
        decreases v@.len() - i,
    {
        if matches_at(&v, &q, i) {
            return true;
        }
        i += 1;
    }
    let last = matches_at(&v, &q, i);
    assert(last ==> occurs_at(s@, p@, i as int));
    last
}

/// `s` without any of the copies of `p` that it begins with.
pub open spec fn without_leading(s: Seq<char>, p: Seq<char>) -> Seq<char>
    decreases s.len(),
{
    if p.len() > 0 && begins_with(s, p) {
        without_leading(s.skip(p.len() as int), p)
    } else {
        s
    }
}

/// `s` without any of the copies of `p` that it ends with.
pub open spec fn without_trailing(s: Seq<char>, p: Seq<char>) -> Seq<char>
    decreases s.len(),
{
    if p.len() > 0 && finishes_with(s, p) {
        without_trailing(s.take(s.len() - p.len()), p)
    } else {
        s
    }
}

/// `s` without any of the copies of `p` that it begins with.
pub fn trim_start_matches(s: &str, p: &str) -> (r: String)
    ensures
        r@ == without_leading(s@, p@),
{
    let v = chars_of(s);
    let q = chars_of(p);
    let mut i: usize = 0;
    assert(v@.skip(0) =~= v@);
    if q.len() > 0 {
        while matches_at(&v, &q, i)
            invariant
                i <= v.len(),
                q@ == p@,
                p@.len() > 0,
                without_leading(s@, p@) == without_leading(v@.skip(i as int), p@),
            ensures
                i <= v@.len(),
                !occurs_at(v@, p@, i as int),
                without_leading(s@, p@) == without_leading(v@.skip(i as int), p@),
            decreases v@.len() - i,
        {
            proof {
                let rest = v@.skip(i as int);
                assert(rest.subrange(0, p@.len() as int) =~= v@.subrange(i as int, i + p@.len()));
                assert(rest.skip(p@.len() as int) =~= v@.skip(i + p@.len()));
            }
            i += q.len();
        }
        proof {
            let rest = v@.skip(i as int);
            if begins_with(rest, p@) {
                assert(rest.subrange(0, p@.len() as int) =~= v@.subrange(i as int, i + p@.len()));
            }
        }
    }
    let r = slice_of(&v, i, v.len());
    assert(r@ =~= v@.skip(i as int));
    r
}

/// `s` without any of the copies of `p` that it ends with.
pub fn trim_end_matches(s: &str, p: &str) -> (r: String)
    ensures
        r@ == without_trailing(s@, p@),
{
    let v = chars_of(s);
    let q = chars_of(p);
    let mut end: usize = v.len();
    assert(v@.take(v@.len() as int) =~= v@);
    if q.len() > 0 {
        while end >= q.len() && matches_at(&v, &q, end - q.len())
            invariant
                end <= v@.len(),
                q@ == p@,
                p@.len() > 0,
                without_trailing(s@, p@) == without_trailing(v@.take(end as int), p@),
            ensures
                end <= v@.len(),
                end < p@.len() || !occurs_at(v@, p@, end - p@.len()),
                without_trailing(s@, p@) == without_trailing(v@.take(end as int), p@),
            decreases end,
        {
            proof {
                let front = v@.take(end as int);
                assert(front.subrange(end - p@.len(), end as int) =~= v@.subrange(
                    end - p@.len(),
                    end as int,
                ));
                assert(front.take(end - p@.len()) =~= v@.take(end - p@.len()));
            }
            end -= q.len();
        }
        proof {
            let front = v@.take(end as int);
            if finishes_with(front, p@) {
                assert(front.subrange(end - p@.len(), end as int) =~= v@.subrange(
                    end - p@.len(),
                    end as int,
                ));
            }
        }
    }
    let r = slice_of(&v, 0, end);
    assert(r@ =~= v@.take(end as int));
    r
}

// ---------------------------------------------------------------------------
// White space
// ---------------------------------------------------------------------------

/// The characters with the Unicode property `White_Space`.
pub open spec fn is_space(c: char) -> bool {
    let n = c as u32;
    ||| 0x9 <= n <= 0xd
    ||| n == 0x20
    ||| n == 0x85
    ||| n == 0xa0
    ||| n == 0x1680
    ||| 0x2000 <= n <= 0x200a
    ||| n == 0x2028
    ||| n == 0x2029
    ||| n == 0x202f
    ||| n == 0x205f
    ||| n == 0x3000
}

/// Whether `c` has the Unicode property `White_Space`.
pub fn is_white(c: char) -> (r: bool)
    ensures
        r == is_space(c),
{
    let n = c as u32;
    (0x9 <= n && n <= 0xd) || n == 0x20 || n == 0x85 || n == 0xa0 || n == 0x1680 || (0x2000 <= n
        && n <= 0x200a) || n == 0x2028 || n == 0x2029 || n == 0x202f || n == 0x205f || n == 0x3000
}

/// A set of characters that may be trimmed away.
pub open spec fn white() -> spec_fn(char) -> bool {
    |c: char| is_space(c)
}

/// The set that holds one character.
pub open spec fn only(x: char) -> spec_fn(char) -> bool {
    |c: char| c == x
}

/// `s` from its first character outside `drop` on.
pub open spec fn trim_front(s: Seq<char>, drop: spec_fn(char) -> bool) -> Seq<char>
    decreases s.len(),
{
    if s.len() > 0 && drop(s[0]) {
        trim_front(s.drop_first(), drop)
    } else {
        s
    }
}

/// `s` up to its last character outside `drop`.
pub open spec fn trim_back(s: Seq<char>, drop: spec_fn(char) -> bool) -> Seq<char>
    decreases s.len(),
{
    if s.len() > 0 && drop(s.last()) {
        trim_back(s.drop_last(), drop)
    } else {
        s
    }
}

/// `s` without the white space around it.
pub open spec fn trim(s: Seq<char>) -> Seq<char> {
    trim_back(trim_front(s, white()), white())
}

/// `s` without the white space after it.
pub open spec fn trim_end(s: Seq<char>) -> Seq<char> {
    trim_back(s, white())
}

/// `s` without the copies of `c` around it.
pub open spec fn trim_char(s: Seq<char>, c: char) -> Seq<char> {
    trim_back(trim_front(s, only(c)), only(c))
}

proof fn lemma_trim_front(s: Seq<char>, drop: spec_fn(char) -> bool, n: int)
    requires
        0 <= n <= s.len(),
        forall|k: int| 0 <= k < n ==> drop(#[trigger] s[k]),
        n < s.len() ==> !drop(s[n]),
    ensures
        trim_front(s, drop) == s.skip(n),
    decreases n,
{
    if n == 0 {
        assert(s.skip(0) =~= s);
    } else {
        assert(drop(s[0]));
        let t = s.drop_first();
        assert forall|k: int| 0 <= k < n - 1 implies drop(#[trigger] t[k]) by {
            assert(t[k] == s[k + 1]);
        }
        lemma_trim_front(t, drop, n - 1);
        assert(t.skip(n - 1) =~= s.skip(n));
    }
}

proof fn lemma_trim_back(s: Seq<char>, drop: spec_fn(char) -> bool, n: int)
    requires
        0 <= n <= s.len(),
        forall|k: int| n <= k < s.len() ==> drop(#[trigger] s[k]),
        n > 0 ==> !drop(s[n - 1]),
    ensures
        trim_back(s, drop) == s.take(n),
    decreases s.len() - n,
{
    if n == s.len() {
        assert(s.take(n) =~= s);
    } else {
        assert(drop(s.last()));
        let t = s.drop_last();
        assert forall|k: int| n <= k < t.len() implies drop(#[trigger] t[k]) by {
            assert(t[k] == s[k]);
        }
        lemma_trim_back(t, drop, n);
        assert(t.take(n) =~= s.take(n));
    }
}

/// What is left of `v` after one trimming at each end that is asked for; the
/// characters dropped are `only`, or white space where that is `None`.
fn trim_ends(v: &Vec<char>, which: Option<char>, front: bool) -> (r: String)
    ensures
        ({
            let drop = match which {
                Some(c) => only(c),
                None => white(),
            };
            r@ == trim_back(
                if front {
                    trim_front(v@, drop)
                } else {
                    v@
                },
                drop,
            )
        }),
{
    let ghost drop = match which {
        Some(c) => only(c),
        None => white(),
    };
    let mut a: usize = 0;
    if front {
        while a < v.len() && dropped(v[a], which)
            invariant
                a <= v@.len(),
                drop == (match which {
                    Some(c) => only(c),
                    None => white(),
                }),
                forall|k: int| 0 <= k < a ==> drop(#[trigger] v@[k]),
            ensures
                a <= v@.len(),
                forall|k: int| 0 <= k < a ==> drop(#[trigger] v@[k]),
                a < v@.len() ==> !drop(v@[a as int]),
            decreases v@.len() - a,
        {
            a += 1;
        }
        proof {
            lemma_trim_front(v@, drop, a as int);
        }
    }
    let ghost rest = v@.skip(a as int);
    assert(front || rest =~= v@);
    let mut b: usize = v.len();
    while b > a && dropped(v[b - 1], which)
        invariant
            a <= b <= v@.len(),
            rest == v@.skip(a as int),
            drop == (match which {
                Some(c) => only(c),
                None => white(),
            }),
            forall|k: int| b - a <= k < rest.len() ==> drop(#[trigger] rest[k]),
        ensures
            a <= b <= v@.len(),
            forall|k: int| b - a <= k < rest.len() ==> drop(#[trigger] rest[k]),
            b > a ==> !drop(rest[b - a - 1]),
        decreases b,
    {
        assert(rest[b - a - 1] == v@[b - 1]);
        b -= 1;
    }
    proof {
        lemma_trim_back(rest, drop, b - a);
        assert(rest.take(b - a) =~= v@.subrange(a as int, b as int));
    }
    slice_of(v, a, b)
}

/// Whether `c` is `which`, or white space where that is `None`.
fn dropped(c: char, which: Option<char>) -> (r: bool)
    ensures
        r == (match which {
            Some(x) => only(x)(c),
            None => white()(c),
        }),
{
    match which {
        Some(x) => c == x,
        None => is_white(c),
    }
}

/// `s` without the white space around it.
pub fn trimmed(s: &str) -> (r: String)
    ensures
        r@ == trim(s@),
{
    trim_ends(&chars_of(s), None, true)
}

/// `s` without the white space after it.
pub fn trimmed_end(s: &str) -> (r: String)
    ensures
        r@ == trim_end(s@),
{
    trim_ends(&chars_of(s), None, false)
}

/// `s` without the copies of `c` around it.
pub fn trimmed_of(s: &str, c: char) -> (r: String)
    ensures
        r@ == trim_char(s@, c),
{
    trim_ends(&chars_of(s), Some(c), true)
}

/// Whether `s` holds nothing but white space.
pub open spec fn is_blank(s: Seq<char>) -> bool {
    trim(s).len() == 0
}

/// Whether `s` holds nothing but white space.
pub fn blank(s: &str) -> (r: bool)
    ensures
        r == is_blank(s@),
{
    let t = trimmed(s);
    t.as_str().is_empty()
}

// ---------------------------------------------------------------------------
// Lines
// ---------------------------------------------------------------------------

/// The position of the first line feed in `s`, or its length where there is
/// none.
pub open spec fn first_newline(s: Seq<char>) -> nat
    decreases s.len(),
{
    if s.len() == 0 || s[0] == '\n' {
        0
    } else {
        1 + first_newline(s.drop_first())
    }
}

/// `s` without the carriage return that may end it.
pub open spec fn strip_cr(s: Seq<char>) -> Seq<char> {
    if s.len() > 0 && s.last() == '\r' {
        s.drop_last()
    } else {
        s
    }
}

/// The lines of `s`: a line ends in a line feed, or in a carriage return and a
/// line feed, and the last line need not be ended.
pub open spec fn lines(s: Seq<char>) -> Seq<Seq<char>>
    decreases s.len(),
{
    if s.len() == 0 {
        Seq::empty()
    } else if first_newline(s) >= s.len() {
        seq![s]
    } else {
        seq![strip_cr(s.take(first_newline(s) as int))] + lines(s.skip(first_newline(s) as int + 1))
    }
}

pub proof fn lemma_first_newline(s: Seq<char>, n: int)
    requires
        0 <= n <= s.len(),
        forall|k: int| 0 <= k < n ==> s[k] != '\n',
        n < s.len() ==> s[n] == '\n',
    ensures
        first_newline(s) == n,
    decreases n,
{
    if n > 0 {
        let t = s.drop_first();
        assert forall|k: int| 0 <= k < n - 1 implies t[k] != '\n' by {
            assert(t[k] == s[k + 1]);
        }
        lemma_first_newline(t, n - 1);
    }
}

/// The lines of `s`.
pub fn lines_of(s: &str) -> (r: Vec<String>)
    ensures
        views(r@) == lines(s@),
{
    let v = chars_of(s);
    let mut out: Vec<String> = Vec::new();
    let mut start: usize = 0;
    assert(v@.skip(0) =~= v@);
    assert(views(out@) + lines(v@) =~= lines(v@));
    while start < v.len()
        invariant
            start <= v@.len(),
            lines(s@) == views(out@) + lines(v@.skip(start as int)),
        decreases v@.len() - start,
    {
        let mut end: usize = start;
        while end < v.len() && v[end] != '\n'
            invariant
                start <= end <= v@.len(),
                forall|k: int| start <= k < end ==> v@[k] != '\n',
            ensures
                start <= end <= v@.len(),
                forall|k: int| start <= k < end ==> v@[k] != '\n',
                end < v@.len() ==> v@[end as int] == '\n',
            decreases v@.len() - end,
        {
            end += 1;
        }
        let ghost rest = v@.skip(start as int);
        proof {
            lemma_first_newline(rest, end - start);
        }
        let ghost before = views(out@);
        if end == v.len() {
            let line = slice_of(&v, start, end);
            assert(line@ =~= rest);
            out.push(line);
            assert(views(out@) =~= before.push(rest));
            assert(v@.skip(end as int).len() == 0);
            assert(before + lines(rest) =~= views(out@) + lines(v@.skip(end as int)));
            start = end;
        } else {
            let cut = if end > start && v[end - 1] == '\r' {
                end - 1
            } else {
                end
            };
            let line = slice_of(&v, start, cut);
            assert(line@ =~= strip_cr(rest.take(end - start)));
            out.push(line);
            assert(views(out@) =~= before.push(line@));
            assert(rest.skip(end - start + 1) =~= v@.skip(end + 1));
            assert(before + lines(rest) =~= views(out@) + lines(v@.skip(end + 1)));
            start = end + 1;
        }
    }
    assert(v@.skip(start as int).len() == 0);
    assert(views(out@) + lines(v@.skip(start as int)) =~= views(out@));
    out
}

/// `parts`, with `sep` between each two of them.
pub open spec fn join(parts: Seq<Seq<char>>, sep: Seq<char>) -> Seq<char>
    decreases parts.len(),
{
    if parts.len() == 0 {
        Seq::empty()
    } else if parts.len() == 1 {
        parts[0]
    } else {
        join(parts.drop_last(), sep) + sep + parts.last()
    }
}

proof fn lemma_join_front(parts: Seq<Seq<char>>, sep: Seq<char>)
    requires
        parts.len() > 1,
    ensures
        join(parts, sep) == parts[0] + sep + join(parts.drop_first(), sep),
    decreases parts.len(),
{
    let rest = parts.drop_first();
    if parts.len() == 2 {
        assert(parts.drop_last() =~= seq![parts[0]]);
        assert(rest =~= seq![parts[1]]);
        assert(join(parts.drop_last(), sep) == parts[0]);
        assert(join(rest, sep) == parts[1]);
    } else {
        lemma_join_front(parts.drop_last(), sep);
        assert(parts.drop_last().drop_first() =~= rest.drop_last());
        assert(join(parts, sep) =~= parts[0] + sep + join(rest, sep));
    }
}

/// Whether `line` can stand for a line of its own: it holds neither a line feed
/// nor a carriage return.
pub open spec fn is_line(line: Seq<char>) -> bool {
    !line.contains('\n') && !line.contains('\r')
}

/// Joining lines with line feeds and taking the lines of that gives the lines
/// back, if there is something in the last of them.
pub proof fn law_lines_undo_join(parts: Seq<Seq<char>>)
    requires
        forall|i: int| 0 <= i < parts.len() ==> is_line(#[trigger] parts[i]),
        parts.len() > 0 ==> parts.last().len() > 0,
    ensures
        lines(join(parts, "\n"@)) == parts,
    decreases parts.len(),
{
    reveal_strlit("\n");
    let s = join(parts, "\n"@);
    if parts.len() > 0 {
        let first = parts[0];
        assert(is_line(first));
        assert forall|k: int| 0 <= k < first.len() implies first[k] != '\n' by {
            assert(first.contains(first[k]));
        }
        if parts.len() == 1 {
            lemma_first_newline(s, first.len() as int);
            assert(parts =~= seq![s]);
        } else {
            let rest = parts.drop_first();
            lemma_join_front(parts, "\n"@);
            assert forall|k: int| 0 <= k < first.len() implies s[k] != '\n' by {
                assert(s[k] == first[k]);
            }
            lemma_first_newline(s, first.len() as int);
            assert(s.take(first.len() as int) =~= first);
            assert(s.skip(first.len() as int + 1) =~= join(rest, "\n"@));
            assert(strip_cr(first) == first) by {
                assert(first.len() > 0 ==> first.contains(first.last()));
            }
            assert forall|i: int| 0 <= i < rest.len() implies is_line(#[trigger] rest[i]) by {
                assert(rest[i] == parts[i + 1]);
            }
            law_lines_undo_join(rest);
            assert(parts =~= seq![first] + rest);
        }
    }
}

proof fn lemma_newline_is_first(s: Seq<char>)
    ensures
        forall|k: int| 0 <= k < first_newline(s) && k < s.len() ==> s[k] != '\n',
    decreases s.len(),
{
    if s.len() > 0 && s[0] != '\n' {
        let t = s.drop_first();
        lemma_newline_is_first(t);
        assert forall|k: int| 0 <= k < first_newline(s) && k < s.len() implies s[k] != '\n' by {
            if k > 0 {
                assert(t[k - 1] == s[k]);
            }
        }
    }
}

/// The lines of a text without a carriage return can each stand for a line.
pub proof fn lemma_lines_are_lines(s: Seq<char>)
    requires
        !s.contains('\r'),
    ensures
        forall|i: int| 0 <= i < lines(s).len() ==> is_line(#[trigger] lines(s)[i]),
    decreases s.len(),
{
    if s.len() > 0 {
        lemma_newline_is_first(s);
        let n = first_newline(s) as int;
        if n < s.len() {
            let first = s.take(n);
            let rest = s.skip(n + 1);
            assert forall|c: char| #[trigger] first.contains(c) implies s.contains(c) && c != '\n' by {
                let k = choose|k: int| 0 <= k < first.len() && first[k] == c;
                assert(s[k] == c);
            }
            assert forall|c: char| #[trigger] rest.contains(c) implies s.contains(c) by {
                let k = choose|k: int| 0 <= k < rest.len() && rest[k] == c;
                assert(s[n + 1 + k] == c);
            }
            assert(strip_cr(first) == first) by {
                assert(first.len() > 0 ==> first.contains(first.last()));
            }
            lemma_lines_are_lines(rest);
            assert forall|i: int| 0 <= i < lines(s).len() implies is_line(#[trigger] lines(s)[i]) by {
                if i > 0 {
                    assert(lines(s)[i] == lines(rest)[i - 1]);
                }
            }
        } else {
            assert(is_line(s)) by {
                if s.contains('\n') {
                    let k = choose|k: int| 0 <= k < s.len() && s[k] == '\n';
                    assert(s[k] != '\n');
                }
            }
        }
    }
}

/// `parts`, with `sep` between each two of them.
pub fn joined(parts: &Vec<String>, sep: &str) -> (r: String)
    ensures
        r@ == join(views(parts@), sep@),
{
    let mut r = String::new();
    let mut i: usize = 0;
    assert(views(parts@).take(0).len() == 0);
    while i < parts.len()
        invariant
            i <= parts@.len(),
            r@ == join(views(parts@).take(i as int), sep@),
        decreases parts@.len() - i,
    {
        let ghost now = views(parts@).take(i + 1);
        assert(now.drop_last() =~= views(parts@).take(i as int));
        assert(now.last() == parts@[i as int]@);
        if i == 0 {
            assert(r@ + parts@[i as int]@ =~= parts@[i as int]@);
        } else {
            r.append(sep);
        }
        r.append(parts[i].as_str());
        i += 1;
    }
    assert(views(parts@).take(i as int) =~= views(parts@));
    r
}

/// `parts`, one after the other.
pub open spec fn flat(parts: Seq<Seq<char>>) -> Seq<char>
    decreases parts.len(),
{
    if parts.len() == 0 {
        Seq::empty()
    } else {
        flat(parts.drop_last()) + parts.last()
    }
}

// ---------------------------------------------------------------------------
// Replacing
// ---------------------------------------------------------------------------

/// `to` before each character of `s`, and once after the last.
pub open spec fn spread(s: Seq<char>, to: Seq<char>) -> Seq<char>
    decreases s.len(),
{
    if s.len() == 0 {
        to
    } else {
        to + seq![s[0]] + spread(s.drop_first(), to)
    }
}

/// `s` with `to` in place of each copy of `from`, taken from the left and
/// without overlap. The empty text stands before each character and at the
/// end.
pub open spec fn replace(s: Seq<char>, from: Seq<char>, to: Seq<char>) -> Seq<char>
    decreases s.len(),
{
    if from.len() == 0 {
        spread(s, to)
    } else if s.len() == 0 {
        s
    } else if begins_with(s, from) {
        to + replace(s.skip(from.len() as int), from, to)
    } else {
        seq![s[0]] + replace(s.drop_first(), from, to)
    }
}

/// `s` with `to` in place of each copy of `from`.
pub fn replaced(s: &str, from: &str, to: &str) -> (r: String)
    ensures
        r@ == replace(s@, from@, to@),
{
    let v = chars_of(s);
    let f = chars_of(from);
    let mut r = String::new();
    let mut i: usize = 0;
    assert(v@.skip(0) =~= v@);
    if f.len() == 0 {
        assert(r@ + spread(v@, to@) =~= spread(v@, to@));
        while i < v.len()
            invariant
                i <= v@.len(),
                spread(s@, to@) == r@ + spread(v@.skip(i as int), to@),
            decreases v@.len() - i,
        {
            let ghost rest = v@.skip(i as int);
            let ghost before = r@;
            r.append(to);
            r.push(v[i]);
            assert(rest.drop_first() =~= v@.skip(i + 1));
            assert(before + spread(rest, to@) =~= r@ + spread(v@.skip(i + 1), to@));
            i += 1;
        }
        r.append(to);
    } else {
        assert(r@ + replace(v@, from@, to@) =~= replace(v@, from@, to@));
        while i < v.len()
            invariant
                i <= v.len(),
                f@ == from@,
                f@.len() > 0,
                replace(s@, from@, to@) == r@ + replace(v@.skip(i as int), from@, to@),
            decreases v@.len() - i,
        {
            let ghost rest = v@.skip(i as int);
            let ghost before = r@;
            proof {
                if i + f@.len() <= v@.len() {
                    assert(rest.subrange(0, f@.len() as int) =~= v@.subrange(
                        i as int,
                        i + f@.len(),
                    ));
                }
            }
            if matches_at(&v, &f, i) {
                r.append(to);
                assert(rest.skip(f@.len() as int) =~= v@.skip(i + f@.len()));
                assert(before + replace(rest, from@, to@) =~= r@ + replace(
                    v@.skip(i + f@.len()),
                    from@,
                    to@,
                ));
                i += f.len();
            } else {
                r.push(v[i]);
                assert(rest.drop_first() =~= v@.skip(i + 1));
                assert(before + replace(rest, from@, to@) =~= r@ + replace(
                    v@.skip(i + 1),
                    from@,
                    to@,
                ));
                i += 1;
            }
        }
        assert(v@.skip(i as int).len() == 0);
        assert(r@ + v@.skip(i as int) =~= r@);
    }
    r
}

/// A text that does not hold `from` is left as it is.
pub proof fn law_replacing_what_is_absent_changes_nothing(s: Seq<char>, from: Seq<char>, to: Seq<char>)
    requires
        !holds(s, from),
    ensures
        replace(s, from, to) == s,
    decreases s.len(),
{
    if from.len() == 0 {
        assert(s.subrange(0, 0) =~= from);
        assert(occurs_at(s, from, 0));
    } else if s.len() > 0 {
        assert(!occurs_at(s, from, 0));
        let t = s.drop_first();
        assert forall|at: int| !#[trigger] occurs_at(t, from, at) by {
            if occurs_at(t, from, at) {
                assert(t.subrange(at, at + from.len()) =~= s.subrange(at + 1, at + 1 + from.len()));
                assert(occurs_at(s, from, at + 1));
            }
        }
        law_replacing_what_is_absent_changes_nothing(t, from, to);
        assert(seq![s[0]] + t =~= s);
    }
}

// ---------------------------------------------------------------------------
// Quoting
// ---------------------------------------------------------------------------

/// A text between quotes, with escapes, as `Debug` writes it.
pub uninterp spec fn quoted(s: Seq<char>) -> Seq<char>;

/// `<str as Debug>::fmt`, through `format!("{:?}", s)`. What it writes depends
/// on the text alone.
#[verifier::external_body]
fn debug_str(s: &str) -> (r: String)
    ensures
        r@ == quoted(s@),
{
    format!("{:?}", s)
}

/// Texts as `Debug` writes a list of them.
pub open spec fn quoted_list(items: Seq<Seq<char>>) -> Seq<char> {
    "["@ + join(items.map_values(|s: Seq<char>| quoted(s)), ", "@) + "]"@
}

/// Texts as `Debug` writes a list of them.
pub fn debug_list(items: &Vec<String>) -> (r: String)
    ensures
        r@ == quoted_list(views(items@)),
{
    let mut parts: Vec<String> = Vec::new();
    let mut i: usize = 0;
    while i < items.len()
        invariant
            i <= items@.len(),
            parts@.len() == i,
            forall|k: int| 0 <= k < i ==> #[trigger] parts@[k]@ == quoted(items@[k]@),
        decreases items@.len() - i,
    {
        parts.push(debug_str(&items[i]));
        i += 1;
    }
    assert(views(parts@) =~= views(items@).map_values(|s: Seq<char>| quoted(s)));
    cat3("[", &joined(&parts, ", "), "]")
}

} // verus!
