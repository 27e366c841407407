//! Paths, as texts with `/` between their parts.
use crate::text;
use crate::text::{cat2, cat3, chars_of, owned, slice_of};
use vstd::prelude::*;

verus! {

/// `path` seen from `base`. An absolute path is the same from everywhere.
pub open spec fn join(base: Seq<char>, path: Seq<char>) -> Seq<char> {
    if path.len() > 0 && path[0] == '/' {
        path
    } else if base.len() == 0 || base.last() == '/' {
        base + path
    } else {
        base + "/"@ + path
    }
}

/// `path` seen from `base`.
pub fn joined_path(base: &str, path: &str) -> (r: String)
    ensures
        r@ == join(base@, path@),
{
    let b = chars_of(base);
    let p = chars_of(path);
    if p.len() > 0 && p[0] == '/' {
        owned(path)
    } else if b.len() == 0 || b[b.len() - 1] == '/' {
        cat2(base, path)
    } else {
        cat3(base, "/", path)
    }
}

// ---------------------------------------------------------------------------
// The parts of a path
// ---------------------------------------------------------------------------

/// The first separator from `from` on, or the end.
pub open spec fn part_end(s: Seq<char>, from: int) -> int
    decreases s.len() - from,
{
    if 0 <= from < s.len() && s[from] != '/' {
        part_end(s, from + 1)
    } else {
        from
    }
}

/// Whether what stands between two positions is a part: it is not empty, and it
/// is no `.` but at the very beginning.
pub open spec fn is_part(s: Seq<char>, from: int, to: int) -> bool {
    from < to && !(from > 0 && to == from + 1 && s[from] == '.')
}

/// The parts from `from` on, each with its two ends.
pub open spec fn parts_from(s: Seq<char>, from: int) -> Seq<(int, int)>
    decreases s.len() + 1 - from,
    via parts_from_ends
{
    if 0 <= from < s.len() {
        let to = part_end(s, from);
        let rest = parts_from(s, to + 1);
        if is_part(s, from, to) {
            seq![(from, to)] + rest
        } else {
            rest
        }
    } else {
        Seq::empty()
    }
}

#[via_fn]
proof fn parts_from_ends(s: Seq<char>, from: int) {
    if 0 <= from < s.len() {
        lemma_part_end(s, from);
    }
}

proof fn lemma_part_end(s: Seq<char>, from: int)
    requires
        0 <= from <= s.len(),
    ensures
        from <= part_end(s, from) <= s.len(),
        forall|k: int| from <= k < part_end(s, from) ==> s[k] != '/',
        part_end(s, from) < s.len() ==> s[part_end(s, from)] == '/',
    decreases s.len() - from,
{
    if from < s.len() && s[from] != '/' {
        lemma_part_end(s, from + 1);
    }
}

/// The parts of a path, each with its two ends. The root is a part of its own.
pub open spec fn parts(s: Seq<char>) -> Seq<(int, int)> {
    if s.len() > 0 && s[0] == '/' {
        seq![(0int, 1int)] + parts_from(s, 1)
    } else {
        parts_from(s, 0)
    }
}

/// The text of the `i`th part.
pub open spec fn part(s: Seq<char>, i: int) -> Seq<char> {
    s.subrange(parts(s)[i].0, parts(s)[i].1)
}

/// Whether the parts of `base` are the first parts of `path`.
pub open spec fn lies_under(path: Seq<char>, base: Seq<char>) -> bool {
    &&& parts(base).len() <= parts(path).len()
    &&& forall|i: int| 0 <= i < parts(base).len() ==> #[trigger] part(base, i) == part(path, i)
}

/// A path from its `from`th part to the one before the `to`th.
pub open spec fn stretch(s: Seq<char>, from: int, to: int) -> Seq<char> {
    if from < to {
        s.subrange(parts(s)[from].0, parts(s)[to - 1].1)
    } else {
        Seq::empty()
    }
}

/// What leads from `base` to `path`, if the one lies under the other.
pub open spec fn relative(path: Seq<char>, base: Seq<char>) -> Option<Seq<char>> {
    if lies_under(path, base) {
        Some(stretch(path, parts(base).len() as int, parts(path).len() as int))
    } else {
        None
    }
}

/// What a path lies in; nothing for the root and for the empty path.
pub open spec fn parent(s: Seq<char>) -> Option<Seq<char>> {
    let n = parts(s).len() as int;
    if n == 0 || part(s, n - 1) == "/"@ {
        None
    } else {
        Some(stretch(s, 0, n - 1))
    }
}

proof fn lemma_parts_from(s: Seq<char>, from: int)
    requires
        0 <= from,
    ensures
        forall|i: int|
            0 <= i < parts_from(s, from).len() ==> {
                let p = #[trigger] parts_from(s, from)[i];
                from <= p.0 < p.1 <= s.len()
            },
        forall|i: int, j: int|
            0 <= i < j < parts_from(s, from).len() ==> (#[trigger] parts_from(s, from)[i]).1
                <= (#[trigger] parts_from(s, from)[j]).0,
    decreases s.len() + 1 - from,
{
    if from < s.len() {
        let to = part_end(s, from);
        lemma_part_end(s, from);
        lemma_parts_from(s, to + 1);
        let rest = parts_from(s, to + 1);
        let all = parts_from(s, from);
        if is_part(s, from, to) {
            assert forall|i: int| 0 <= i < all.len() implies ({
                let p = #[trigger] all[i];
                from <= p.0 < p.1 <= s.len()
            }) by {
                if i > 0 {
                    assert(all[i] == rest[i - 1]);
                }
            }
            assert forall|i: int, j: int| 0 <= i < j < all.len() implies (#[trigger] all[i]).1 <= (
            #[trigger] all[j]).0 by {
                assert(all[j] == rest[j - 1]);
                if i > 0 {
                    assert(all[i] == rest[i - 1]);
                }
            }
        }
    }
}

proof fn lemma_parts(s: Seq<char>)
    ensures
        forall|i: int|
            0 <= i < parts(s).len() ==> {
                let p = #[trigger] parts(s)[i];
                0 <= p.0 < p.1 <= s.len()
            },
        forall|i: int, j: int|
            0 <= i < j < parts(s).len() ==> (#[trigger] parts(s)[i]).1 <= (
            #[trigger] parts(s)[j]).0,
{
    lemma_parts_from(s, 0);
    lemma_parts_from(s, 1);
}

/// The first separator from `from` on, or the end.
pub fn end_of_part(s: &Vec<char>, from: usize) -> (to: usize)
    requires
        from <= s@.len(),
    ensures
        to == part_end(s@, from as int),
        from <= to <= s@.len(),
{
    let mut to: usize = from;
    while to < s.len() && s[to] != '/'
        invariant
            from <= to <= s@.len(),
            part_end(s@, from as int) == part_end(s@, to as int),
        ensures
            from <= to <= s@.len(),
            part_end(s@, from as int) == to,
        decreases s@.len() - to,
    {
        to += 1;
    }
    to
}

/// The ends of parts, as positions.
spec fn ends(v: Seq<(usize, usize)>) -> Seq<(int, int)> {
    v.map_values(|p: (usize, usize)| (p.0 as int, p.1 as int))
}

/// The parts of a path, each with its two ends.
fn parts_of(s: &Vec<char>) -> (r: Vec<(usize, usize)>)
    ensures
        ends(r@) == parts(s@),
{
    let mut r: Vec<(usize, usize)> = Vec::new();
    let mut from: usize = 0;
    assert(ends(r@) =~= Seq::empty());
    if s.len() > 0 && s[0] == '/' {
        r.push((0, 1));
        from = 1;
        assert(ends(r@) =~= seq![(0int, 1int)]);
    }
    assert(parts(s@) =~= ends(r@) + parts_from(s@, from as int));
    while from < s.len()
        invariant
            parts(s@) == ends(r@) + parts_from(s@, from as int),
        decreases s@.len() - from,
    {
        let to = end_of_part(s, from);
        let ghost before = ends(r@);
        if from < to && !(from > 0 && to == from + 1 && s[from] == '.') {
            r.push((from, to));
            assert(ends(r@) =~= before.push((from as int, to as int)));
            assert(parts(s@) =~= ends(r@) + parts_from(s@, to + 1));
        }
        if to == s.len() {
            assert(parts_from(s@, to + 1) =~= Seq::empty());
            assert(ends(r@) + parts_from(s@, to + 1) =~= ends(r@));
            return r;
        }
        from = to + 1;
    }
    assert(ends(r@) + parts_from(s@, from as int) =~= ends(r@));
    r
}

/// What leads from `base` to `path`, if the one lies under the other.
pub fn relative_to(path: &str, base: &str) -> (r: Option<String>)
    ensures
        r is Some <==> relative(path@, base@) is Some,
        r matches Some(t) ==> relative(path@, base@) == Some(t@),
{
    let p = chars_of(path);
    let b = chars_of(base);
    let whole = parts_of(&p);
    let front = parts_of(&b);
    proof {
        lemma_parts(path@);
        lemma_parts(base@);
    }
    if front.len() > whole.len() {
        assert(!lies_under(path@, base@));
        return None;
    }
    let mut i: usize = 0;
    while i < front.len()
        invariant
            i <= front@.len() <= whole@.len(),
            p@ == path@,
            b@ == base@,
            ends(whole@) == parts(path@),
            ends(front@) == parts(base@),
            forall|k: int|
                0 <= k < parts(path@).len() ==> {
                    let q = #[trigger] parts(path@)[k];
                    0 <= q.0 < q.1 <= path@.len()
                },
            forall|k: int|
                0 <= k < parts(base@).len() ==> {
                    let q = #[trigger] parts(base@)[k];
                    0 <= q.0 < q.1 <= base@.len()
                },
            forall|k: int| 0 <= k < i ==> #[trigger] part(base@, k) == part(path@, k),
        decreases front@.len() - i,
    {
        assert(parts(path@)[i as int] == ends(whole@)[i as int]);
        assert(parts(base@)[i as int] == ends(front@)[i as int]);
        let x = slice_of(&p, whole[i].0, whole[i].1);
        let y = slice_of(&b, front[i].0, front[i].1);
        assert(x@ == part(path@, i as int));
        assert(y@ == part(base@, i as int));
        if !text::same(&x, &y) {
            assert(!lies_under(path@, base@));
            return None;
        }
        i += 1;
    }
    assert(lies_under(path@, base@));
    Some(stretch_of(&p, &whole, front.len(), whole.len()))
}

/// A path from its `from`th part to the one before the `to`th.
fn stretch_of(s: &Vec<char>, all: &Vec<(usize, usize)>, from: usize, to: usize) -> (r: String)
    requires
        ends(all@) == parts(s@),
        from <= to <= all@.len(),
    ensures
        r@ == stretch(s@, from as int, to as int),
{
    if from < to {
        proof {
            lemma_parts(s@);
            assert(parts(s@)[from as int] == ends(all@)[from as int]);
            assert(parts(s@)[to - 1] == ends(all@)[to - 1]);
        }
        slice_of(s, all[from].0, all[to - 1].1)
    } else {
        let r = String::new();
        assert(r@ =~= Seq::empty());
        r
    }
}

/// What a path lies in; nothing for the root and for the empty path.
pub fn parent_of(path: &str) -> (r: Option<String>)
    ensures
        r is Some <==> parent(path@) is Some,
        r matches Some(t) ==> parent(path@) == Some(t@),
{
    let p = chars_of(path);
    let all = parts_of(&p);
    let n = all.len();
    if n == 0 {
        return None;
    }
    proof {
        lemma_parts(path@);
        assert(parts(path@)[n - 1] == ends(all@)[n - 1]);
    }
    let last = slice_of(&p, all[n - 1].0, all[n - 1].1);
    assert(last@ == part(path@, n - 1));
    if text::same(&last, "/") {
        None
    } else {
        Some(stretch_of(&p, &all, 0, n - 1))
    }
}

// ---------------------------------------------------------------------------
// Going down and looking back
// ---------------------------------------------------------------------------

/// Whether a path leads down from where it starts, by its parts alone: it is not
/// absolute, and there is nothing in it but its parts and what stands between
/// them.
pub open spec fn tidy(path: Seq<char>) -> bool {
    &&& path.len() > 0 && path[0] != '/'
    &&& part(path, 0) != "."@
    &&& stretch(path, 0, parts(path).len() as int) == path
}

/// Parts that stand `n` positions later.
spec fn shifted(v: Seq<(int, int)>, n: int) -> Seq<(int, int)> {
    v.map_values(|p: (int, int)| (p.0 + n, p.1 + n))
}

proof fn lemma_part_end_is(s: Seq<char>, from: int, to: int)
    requires
        0 <= from <= to <= s.len(),
        forall|i: int| from <= i < to ==> s[i] != '/',
        to < s.len() ==> s[to] == '/',
    ensures
        part_end(s, from) == to,
    decreases to - from,
{
    if from < to {
        lemma_part_end_is(s, from + 1, to);
    }
}

proof fn lemma_parts_behind(s: Seq<char>, path: Seq<char>, n: int, from: int)
    requires
        0 < n <= s.len(),
        path == s.skip(n),
        0 <= from,
        from == 0 ==> !(part_end(path, 0) == 1 && path[0] == '.'),
    ensures
        parts_from(s, n + from) == shifted(parts_from(path, from), n),
    decreases path.len() + 1 - from,
{
    if from < path.len() {
        let to = part_end(path, from);
        lemma_part_end(path, from);
        assert forall|i: int| n + from <= i < n + to implies s[i] != '/' by {
            assert(s[i] == path[i - n]);
        }
        if to < path.len() {
            assert(s[n + to] == path[to]);
        }
        lemma_part_end_is(s, n + from, n + to);
        lemma_parts_behind(s, path, n, to + 1);
        assert(s[n + from] == path[from]);
        let rest = parts_from(path, to + 1);
        assert(shifted(seq![(from, to)] + rest, n) =~= seq![(n + from, n + to)] + shifted(rest, n));
    } else {
        assert(shifted(parts_from(path, from), n) =~= Seq::empty());
    }
}

proof fn lemma_parts_before(s: Seq<char>, base: Seq<char>, n: int, from: int)
    requires
        base.len() > 0,
        base.len() <= n <= s.len(),
        base == s.take(base.len() as int),
        n == base.len() && base.last() == '/' || n == base.len() + 1 && s[n - 1] == '/',
        0 <= from <= base.len(),
    ensures
        parts_from(s, from) == parts_from(base, from) + parts_from(s, n),
    decreases base.len() - from,
{
    if from < base.len() {
        let to = part_end(base, from);
        lemma_part_end(base, from);
        assert forall|i: int| from <= i < to implies s[i] != '/' by {
            assert(s[i] == base[i]);
        }
        if to < base.len() {
            assert(s[to] == base[to]);
        } else {
            assert(base[base.len() - 1] != '/');
        }
        lemma_part_end_is(s, from, to);
        assert(s[from] == base[from]);
        if to < base.len() {
            lemma_parts_before(s, base, n, to + 1);
        } else {
            assert(parts_from(base, to + 1) + parts_from(s, n) =~= parts_from(s, n));
        }
        let rest = parts_from(base, to + 1);
        if is_part(base, from, to) {
            assert(seq![(from, to)] + (rest + parts_from(s, n)) =~= (seq![(from, to)] + rest)
                + parts_from(s, n));
        }
    } else {
        assert(parts_from(base, from) + parts_from(s, n) =~= parts_from(s, n));
        if n > base.len() {
            lemma_part_end_is(s, from, from);
        }
    }
}

proof fn lemma_parts_joined(base: Seq<char>, path: Seq<char>)
    requires
        tidy(path),
        base.len() > 0,
    ensures
        ({
            let s = join(base, path);
            let n = s.len() - path.len();
            &&& parts(s) == parts(base) + shifted(parts(path), n)
            &&& s.skip(n) == path
            &&& s.take(base.len() as int) == base
        }),
{
    let s = join(base, path);
    let k = parts(path).len() as int;
    lemma_parts(path);
    assert(parts(path)[0].0 == 0 && parts(path)[k - 1].1 == path.len());
    reveal_strlit("/");
    reveal_strlit(".");
    let n: int = s.len() - path.len();
    assert(s.skip(n) =~= path);
    assert(s.take(base.len() as int) =~= base);
    lemma_part_end(path, 0);
    if part_end(path, 0) == 1 && path[0] == '.' {
        assert(parts(path)[0] == (0int, 1int));
        assert(part(path, 0) =~= "."@);
    }
    lemma_parts_behind(s, path, n, 0);
    if base[0] == '/' {
        lemma_parts_before(s, base, n, 1);
        assert(parts(s) =~= parts(base) + shifted(parts(path), n));
    } else {
        lemma_parts_before(s, base, n, 0);
    }
    assert(s[0] == base[0]);
}

/// What leads from a directory to something below it is what one went down by.
pub proof fn law_relative_undoes_join(base: Seq<char>, path: Seq<char>)
    requires
        tidy(path),
    ensures
        relative(join(base, path), base) == Some(path),
{
    let s = join(base, path);
    let m = parts(base).len() as int;
    let k = parts(path).len() as int;
    lemma_parts(path);
    assert(parts(path)[0].0 == 0 && parts(path)[k - 1].1 == path.len());
    if base.len() == 0 {
        assert(s =~= path);
    } else {
        let n: int = s.len() - path.len();
        lemma_parts_joined(base, path);
        lemma_parts(base);
        assert forall|i: int| 0 <= i < m implies #[trigger] part(base, i) == part(s, i) by {
            assert(parts(s)[i] == parts(base)[i]);
            assert(part(s, i) =~= part(base, i));
        }
        assert(parts(s)[m] == shifted(parts(path), n)[0]);
        assert(parts(s)[m + k - 1] == shifted(parts(path), n)[k - 1]);
        assert(stretch(s, m, m + k) =~= path);
    }
}

proof fn lemma_name_parts(name: Seq<char>)
    requires
        name.len() > 0,
        !name.contains('/'),
        name != "."@,
    ensures
        parts(name) == seq![(0int, name.len() as int)],
        tidy(name),
        name[0] != '/',
{
    assert forall|i: int| 0 <= i < name.len() implies name[i] != '/' by {
        assert(name.contains(name[i]));
    }
    lemma_part_end_is(name, 0, name.len() as int);
    assert(parts_from(name, name.len() + 1int).len() == 0);
    assert(parts(name) =~= seq![(0int, name.len() as int)]);
    assert(part(name, 0) =~= name);
    assert(stretch(name, 0, 1) =~= name);
}

/// What a name in a directory lies in is that directory.
pub proof fn law_parent_undoes_join(base: Seq<char>, name: Seq<char>)
    requires
        base.len() > 0,
        stretch(base, 0, parts(base).len() as int) == base,
        name.len() > 0,
        !name.contains('/'),
        name != "."@,
    ensures
        parent(join(base, name)) == Some(base),
{
    let s = join(base, name);
    let m = parts(base).len() as int;
    lemma_name_parts(name);
    lemma_parts_joined(base, name);
    lemma_parts(base);
    if m > 1 {
        assert(parts(base)[0].1 <= parts(base)[m - 1].0);
    }
    lemma_parent_is(s, base, name, s.len() - name.len());
}

proof fn lemma_parent_is(s: Seq<char>, base: Seq<char>, name: Seq<char>, n: int)
    requires
        parts(s) == parts(base) + shifted(seq![(0int, name.len() as int)], n),
        0 <= n <= s.len(),
        base.len() <= s.len(),
        s.skip(n) == name,
        s.take(base.len() as int) == base,
        name.len() > 0,
        name[0] != '/',
        base.len() > 0,
        stretch(base, 0, parts(base).len() as int) == base,
        forall|i: int|
            0 <= i < parts(base).len() ==> {
                let p = #[trigger] parts(base)[i];
                0 <= p.0 < p.1 <= base.len()
            },
        parts(base).len() > 0 ==> parts(base)[0].0 < parts(base).last().1,
    ensures
        parent(s) == Some(base),
{
    let m = parts(base).len() as int;
    assert(m > 0);
    assert(parts(s)[m] == (n, n + name.len()));
    assert(part(s, m) =~= name);
    assert("/"@[0] == '/') by {
        reveal_strlit("/");
    }
    assert(parts(s)[0] == parts(base)[0] && parts(s)[m - 1] == parts(base)[m - 1]);
    let from = parts(base)[0].0;
    let to = parts(base)[m - 1].1;
    assert forall|k: int| 0 <= k < base.len() implies s[k] == base[k] by {
        assert(s.take(base.len() as int)[k] == s[k]);
    }
    assert(s.subrange(from, to) =~= base.subrange(from, to));
}

} // verus!
