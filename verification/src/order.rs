//! The dictionary order of texts, by code point.
use vstd::prelude::*;

use crate::text;
use crate::text::chars_of;

verus! {

/// Whether `a` comes before `b` or is the same.
pub open spec fn at_most(a: Seq<char>, b: Seq<char>) -> bool
    decreases a.len(),
{
    if a.len() == 0 {
        true
    } else if b.len() == 0 {
        false
    } else if a[0] == b[0] {
        at_most(a.drop_first(), b.drop_first())
    } else {
        (a[0] as int) < (b[0] as int)
    }
}

/// Whether `a` comes before `b` and is not the same.
pub open spec fn less(a: Seq<char>, b: Seq<char>) -> bool {
    at_most(a, b) && a != b
}

/// Of two texts, one comes first.
pub proof fn lemma_total(a: Seq<char>, b: Seq<char>)
    ensures
        at_most(a, b) || at_most(b, a),
    decreases a.len(),
{
    if a.len() > 0 && b.len() > 0 && a[0] == b[0] {
        lemma_total(a.drop_first(), b.drop_first());
    }
}

/// Two texts that each come first are the same.
pub proof fn lemma_antisymmetric(a: Seq<char>, b: Seq<char>)
    requires
        at_most(a, b),
        at_most(b, a),
    ensures
        a == b,
    decreases a.len(),
{
    if a.len() > 0 && b.len() > 0 {
        assert(a[0] == b[0]);
        lemma_antisymmetric(a.drop_first(), b.drop_first());
        assert(a =~= seq![a[0]] + a.drop_first());
        assert(b =~= seq![b[0]] + b.drop_first());
    } else {
        assert(a =~= b);
    }
}

/// The order carries over.
pub proof fn lemma_transitive(a: Seq<char>, b: Seq<char>, c: Seq<char>)
    requires
        at_most(a, b),
        at_most(b, c),
    ensures
        at_most(a, c),
    decreases a.len(),
{
    if a.len() > 0 && b.len() > 0 && c.len() > 0 && a[0] == b[0] && b[0] == c[0] {
        lemma_transitive(a.drop_first(), b.drop_first(), c.drop_first());
    }
}

/// Whether `a` comes before `b` or is the same.
pub fn no_later(a: &str, b: &str) -> (r: bool)
    ensures
        r == at_most(a@, b@),
{
    let x = chars_of(a);
    let y = chars_of(b);
    let mut i: usize = 0;
    assert(x@.skip(0) =~= x@);
    assert(y@.skip(0) =~= y@);
    while i < x.len() && i < y.len() && x[i] == y[i]
        invariant
            i <= x@.len(),
            i <= y@.len(),
            at_most(a@, b@) == at_most(x@.skip(i as int), y@.skip(i as int)),
        ensures
            i <= x@.len(),
            i <= y@.len(),
            i == x@.len() || i == y@.len() || x@[i as int] != y@[i as int],
            at_most(a@, b@) == at_most(x@.skip(i as int), y@.skip(i as int)),
        decreases x@.len() - i,
    {
        assert(x@.skip(i as int).drop_first() =~= x@.skip(i + 1));
        assert(y@.skip(i as int).drop_first() =~= y@.skip(i + 1));
        i += 1;
    }
    if i == x.len() {
        true
    } else if i == y.len() {
        false
    } else {
        x[i] < y[i]
    }
}

/// Whether the texts of a list come in strictly rising order.
pub open spec fn rising(v: Seq<Seq<char>>) -> bool {
    forall|i: int, j: int| 0 <= i < j < v.len() ==> less(#[trigger] v[i], #[trigger] v[j])
}

/// The texts of `items`, each once, in rising order.
pub fn sorted_once(items: &Vec<String>) -> (r: Vec<String>)
    ensures
        rising(text::views(r@)),
        forall|t: Seq<char>| #[trigger]
            text::views(r@).contains(t) <==> text::views(items@).contains(t),
{
    let mut r: Vec<String> = Vec::new();
    let mut i: usize = 0;
    while i < items.len()
        invariant
            i <= items@.len(),
            rising(text::views(r@)),
            forall|t: Seq<char>| #[trigger]
                text::views(r@).contains(t) <==> text::views(items@).take(i as int).contains(t),
        decreases items@.len() - i,
    {
        let ghost done = text::views(items@).take(i as int);
        let ghost x = items@[i as int]@;
        proof {
            let next = text::views(items@).take(i + 1);
            assert(next =~= done.push(x));
            assert forall|t: Seq<char>| #[trigger] next.contains(t) <==> done.contains(t) || t
                == x by {
                if done.contains(t) {
                    let k = choose|k: int| 0 <= k < done.len() && done[k] == t;
                    assert(next[k] == t);
                }
                if t == x {
                    assert(next[done.len() as int] == t);
                }
            }
        }
        insert_once(&mut r, &items[i]);
        i += 1;
    }
    assert(text::views(items@).take(items@.len() as int) =~= text::views(items@));
    r
}

/// Puts `x` at its place in a rising list, unless the list has it already.
fn insert_once(r: &mut Vec<String>, x: &String)
    requires
        rising(text::views(old(r)@)),
    ensures
        rising(text::views(final(r)@)),
        forall|t: Seq<char>| #[trigger]
            text::views(final(r)@).contains(t) <==> text::views(old(r)@).contains(t) || t == x@,
{
    let ghost before = text::views(r@);
    let mut p: usize = 0;
    while p < r.len() && !no_later(x.as_str(), r[p].as_str())
        invariant
            p <= r@.len(),
            before == text::views(r@),
            forall|k: int| 0 <= k < p ==> !at_most(x@, #[trigger] before[k]),
        ensures
            p <= r@.len(),
            forall|k: int| 0 <= k < p ==> !at_most(x@, #[trigger] before[k]),
            p < r@.len() ==> at_most(x@, before[p as int]),
        decreases r@.len() - p,
    {
        assert(before[p as int] == r@[p as int]@);
        p += 1;
    }
    if p < r.len() && *x == r[p] {
        assert(before[p as int] == x@);
        return;
    }
    r.insert(p, x.clone());
    proof {
        let after = text::views(r@);
        assert(after =~= before.insert(p as int, x@));
        assert forall|i: int, j: int| 0 <= i < j < after.len() implies less(
            #[trigger] after[i],
            #[trigger] after[j],
        ) by {
            if i < p && j > p {
                assert(less(before[i], before[j - 1]));
            } else if i < p && j == p {
                assert(!at_most(x@, before[i]));
                lemma_total(x@, before[i]);
            } else if i == p && j > p {
                if p < j - 1 {
                    assert(less(before[p as int], before[j - 1]));
                    lemma_transitive(x@, before[p as int], before[j - 1]);
                    if x@ == before[j - 1] {
                        lemma_antisymmetric(x@, before[p as int]);
                    }
                }
            } else if i > p {
                assert(less(before[i - 1], before[j - 1]));
            } else {
                assert(less(before[i], before[j]));
            }
        }
        assert forall|t: Seq<char>| #[trigger] after.contains(t) <==> before.contains(t) || t
            == x@ by {
            if before.contains(t) {
                let k = choose|k: int| 0 <= k < before.len() && before[k] == t;
                if k < p {
                    assert(after[k] == t);
                } else {
                    assert(after[k + 1] == t);
                }
            }
            if t == x@ {
                assert(after[p as int] == t);
            }
            if after.contains(t) {
                let k = choose|k: int| 0 <= k < after.len() && after[k] == t;
                if k < p {
                    assert(before[k] == t);
                } else if k > p {
                    assert(before[k - 1] == t);
                }
            }
        }
    }
}

} // verus!
