//! Looking for the clones below a directory.
use crate::text;
use crate::text::owned;
use vstd::prelude::*;

verus! {

/// What stands in a directory.
#[derive(Debug)]
pub struct Entry {
    pub path: String,
    /// It is a directory.
    pub is_dir: bool,
    /// It has a directory `.git` in it.
    pub has_git: bool,
}

/// What an `Entry` says.
pub struct EntryFacts {
    pub path: Seq<char>,
    pub is_dir: bool,
    pub has_git: bool,
}

impl View for Entry {
    type V = EntryFacts;

    open spec fn view(&self) -> EntryFacts {
        EntryFacts { path: self.path@, is_dir: self.is_dir, has_git: self.has_git }
    }
}

/// What several entries say.
pub open spec fn entries_facts(v: Seq<Entry>) -> Seq<EntryFacts> {
    v.map_values(|e: Entry| e@)
}

/// A place in the result of a search: a clone that was found, or a directory
/// whose clones are still to be found.
pub enum Spot {
    Found(Seq<char>),
    Open(Seq<char>),
}

/// What an entry adds to a search: a clone is found, any other directory is to be
/// searched, and a file is left out.
pub open spec fn spots_of(e: EntryFacts) -> Seq<Spot> {
    if e.is_dir && e.has_git {
        seq![Spot::Found(e.path)]
    } else if e.is_dir {
        seq![Spot::Open(e.path)]
    } else {
        Seq::empty()
    }
}

/// What the entries of a directory add to a search.
pub open spec fn spots(entries: Seq<EntryFacts>) -> Seq<Spot>
    decreases entries.len(),
{
    if entries.len() == 0 {
        Seq::empty()
    } else {
        spots(entries.drop_last()) + spots_of(entries.last())
    }
}

/// The clones that were found, as places in the result.
pub open spec fn found_spots(found: Seq<Seq<char>>) -> Seq<Spot> {
    found.map_values(|path: Seq<char>| Spot::Found(path))
}

/// A search, as the places of its result.
pub struct Search {
    /// The clones that stand before every directory that is to be searched.
    pub found: Vec<String>,
    /// What comes after them, in reverse: paths, and whether a path is that of a
    /// clone.
    pub pending: Vec<(String, bool)>,
}

/// The place that a path stands for.
pub open spec fn spot(item: (String, bool)) -> Spot {
    if item.1 {
        Spot::Found(item.0@)
    } else {
        Spot::Open(item.0@)
    }
}

/// The places that a reversed list of paths stands for.
pub open spec fn pending_spots(v: Seq<(String, bool)>) -> Seq<Spot> {
    Seq::new(v.len(), |i: int| spot(v[v.len() - 1 - i]))
}

impl View for Search {
    type V = Seq<Spot>;

    open spec fn view(&self) -> Seq<Spot> {
        found_spots(text::views(self.found@)) + pending_spots(self.pending@)
    }
}

/// The first directory that is to be searched.
pub open spec fn first_open(s: Seq<Spot>) -> Option<int>
    decreases s.len(),
{
    if s.len() == 0 {
        None
    } else {
        match first_open(s.drop_last()) {
            Some(i) => Some(i),
            None => if s.last() is Open {
                Some(s.len() - 1)
            } else {
                None
            },
        }
    }
}

/// A search after its first open directory was listed.
pub open spec fn opened(s: Seq<Spot>, entries: Seq<EntryFacts>) -> Seq<Spot> {
    match first_open(s) {
        Some(i) => s.take(i) + spots(entries) + s.skip(i + 1),
        None => s,
    }
}

proof fn lemma_first_open(s: Seq<Spot>, n: int)
    requires
        0 <= n <= s.len(),
        forall|k: int| 0 <= k < n ==> (#[trigger] s[k]) is Found,
        n < s.len() ==> s[n] is Open,
    ensures
        first_open(s) == (if n < s.len() {
            Some(n)
        } else {
            None
        }),
    decreases s.len(),
{
    if s.len() > 0 {
        let front = s.drop_last();
        if n < s.len() {
            lemma_first_open(front, n);
        } else {
            assert(s[s.len() - 1] is Found);
            lemma_first_open(front, n - 1);
        }
    }
}

impl Search {
    /// The next thing to look at, if there is anything left, is a directory.
    pub open spec fn wf(self) -> bool {
        self.pending@.len() > 0 ==> !self.pending@.last().1
    }

    proof fn lemma_next(&self)
        requires
            self.wf(),
        ensures
            first_open(self@) == (if self.pending@.len() > 0 {
                Some(self.found@.len() as int)
            } else {
                None
            }),
            self.pending@.len() > 0 ==> self@[self.found@.len() as int] == Spot::Open(
                self.pending@.last().0@,
            ),
    {
        let n = self.found@.len() as int;
        assert(text::views(self.found@).len() == n);
        assert forall|k: int| 0 <= k < n implies (#[trigger] self@[k]) is Found by {
            assert(self@[k] == found_spots(text::views(self.found@))[k]);
        }
        if self.pending@.len() > 0 {
            assert(self@[n] == pending_spots(self.pending@)[0]);
        }
        lemma_first_open(self@, n);
    }

    /// Moves clones that stand next to those that were found.
    fn settle(&mut self)
        ensures
            final(self).wf(),
            final(self)@ == old(self)@,
    {
        broadcast use text::lemma_views_push;

        let ghost all = self@;
        while self.pending.len() > 0 && self.pending[self.pending.len() - 1].1
            invariant
                self@ == all,
            ensures
                self@ == all,
                self.wf(),
            decreases self.pending@.len(),
        {
            let ghost before = *self;
            match self.pending.pop() {
                Some(item) => {
                    self.found.push(item.0);
                    proof {
                        let p = pending_spots(before.pending@);
                        assert(p[0] == Spot::Found(item.0@));
                        assert(text::views(self.found@) == text::views(before.found@).push(
                            item.0@,
                        ));
                        assert(found_spots(text::views(self.found@)) =~= found_spots(
                            text::views(before.found@),
                        ).push(Spot::Found(item.0@)));
                        assert(pending_spots(self.pending@) =~= p.skip(1));
                        assert(self@ =~= before@);
                    }
                },
                None => {},
            }
        }
    }

    /// A search below `root`.
    pub fn new(root: &str) -> (s: Search)
        ensures
            s.wf(),
            s@ == seq![Spot::Open(root@)],
    {
        let s = Search { found: Vec::new(), pending: vec![(owned(root), false)] };
        assert(s@ =~= seq![Spot::Open(root@)]);
        s
    }

    /// The directory that is to be listed next; nothing at the end of the search.
    pub fn next(&self) -> (r: Option<&String>)
        requires
            self.wf(),
        ensures
            r is Some <==> first_open(self@) is Some,
            r matches Some(path) ==> self@[first_open(self@).unwrap()] == Spot::Open(path@),
    {
        proof {
            self.lemma_next();
        }
        if self.pending.len() > 0 {
            Some(&self.pending[self.pending.len() - 1].0)
        } else {
            None
        }
    }

    /// Takes in what the directory that was to be listed holds.
    pub fn list(&mut self, entries: &Vec<Entry>)
        requires
            old(self).wf(),
            first_open(old(self)@) is Some,
        ensures
            final(self).wf(),
            final(self)@ == opened(old(self)@, entries_facts(entries@)),
    {
        let ghost before = *self;
        proof {
            self.lemma_next();
        }
        let _ = self.pending.pop();
        let ghost facts = entries_facts(entries@);
        let ghost left = pending_spots(self.pending@);
        assert(pending_spots(before.pending@).skip(1) =~= left);
        let mut i: usize = entries.len();
        assert(facts.skip(i as int) =~= Seq::empty());
        assert(spots(facts.skip(i as int)) + left =~= left);
        while i > 0
            invariant
                i <= entries@.len(),
                facts == entries_facts(entries@),
                self.found == before.found,
                pending_spots(self.pending@) == spots(facts.skip(i as int)) + left,
            decreases i,
        {
            i -= 1;
            let e = &entries[i];
            let ghost now = pending_spots(self.pending@);
            proof {
                lemma_spots_front(facts.skip(i as int));
                assert(facts.skip(i as int).drop_first() =~= facts.skip(i + 1));
                assert(facts.skip(i as int)[0] == e@);
            }
            if e.is_dir {
                self.pending.push((owned(&e.path), e.has_git));
                assert(pending_spots(self.pending@) =~= spots_of(e@) + now);
            } else {
                assert(spots_of(e@) + now =~= now);
            }
            assert(pending_spots(self.pending@) =~= spots(facts.skip(i as int)) + left);
        }
        assert(facts.skip(0) =~= facts);
        proof {
            let n = before.found@.len() as int;
            let found = found_spots(text::views(before.found@));
            assert(before@.take(n) =~= found);
            assert(before@.skip(n + 1) =~= left);
            assert(self@ =~= found + spots(facts) + left);
        }
        self.settle();
    }

    /// The clones that were found, once the search is at its end.
    pub fn repositories(self) -> (r: Vec<String>)
        requires
            self.wf(),
            first_open(self@) is None,
        ensures
            found_spots(text::views(r@)) == self@,
    {
        proof {
            self.lemma_next();
            assert(self@ =~= found_spots(text::views(self.found@)));
        }
        self.found
    }
}

proof fn lemma_spots_front(entries: Seq<EntryFacts>)
    requires
        entries.len() > 0,
    ensures
        spots(entries) == spots_of(entries[0]) + spots(entries.drop_first()),
    decreases entries.len(),
{
    if entries.len() == 1 {
        assert(entries.drop_last() =~= Seq::empty());
        assert(entries.drop_first() =~= Seq::empty());
        assert(spots(entries) =~= spots_of(entries[0]) + spots(entries.drop_first()));
    } else {
        let front = entries.drop_last();
        lemma_spots_front(front);
        assert(front.drop_first() =~= entries.drop_first().drop_last());
        assert(spots(entries) =~= spots_of(entries[0]) + spots(entries.drop_first()));
    }
}

/// A search for the clones below `root`.
pub fn find_git_repositories(root: &str) -> (s: Search)
    ensures
        s.wf(),
        s@ == seq![Spot::Open(root@)],
{
    Search::new(root)
}

// ---------------------------------------------------------------------------
// What a search finds
// ---------------------------------------------------------------------------

/// What stands below a path. A clone is not looked into.
pub enum Tree {
    File(Seq<char>),
    Clone(Seq<char>),
    Folder(Seq<char>, Seq<Tree>),
}

/// What a directory says of something in it.
pub open spec fn entry_of(t: Tree) -> EntryFacts {
    match t {
        Tree::File(path) => EntryFacts { path, is_dir: false, has_git: false },
        Tree::Clone(path) => EntryFacts { path, is_dir: true, has_git: true },
        Tree::Folder(path, _) => EntryFacts { path, is_dir: true, has_git: false },
    }
}

/// What a directory says of all that is in it.
pub open spec fn entries_of(ts: Seq<Tree>) -> Seq<EntryFacts> {
    ts.map_values(|t: Tree| entry_of(t))
}

/// The clones in a tree, in order.
pub open spec fn clones_in(t: Tree) -> Seq<Seq<char>>
    decreases t,
{
    match t {
        Tree::File(_) => Seq::empty(),
        Tree::Clone(path) => seq![path],
        Tree::Folder(_, inside) => clones(inside),
    }
}

/// The clones in several trees, in order.
pub open spec fn clones(ts: Seq<Tree>) -> Seq<Seq<char>>
    decreases ts,
{
    if ts.len() == 0 {
        Seq::empty()
    } else {
        clones(ts.drop_last()) + clones_in(ts.last())
    }
}

/// Whether `world`, which says what stands in each directory, is right about a
/// tree.
pub open spec fn knows(world: spec_fn(Seq<char>) -> Seq<EntryFacts>, t: Tree) -> bool
    decreases t,
{
    match t {
        Tree::Folder(path, inside) => world(path) == entries_of(inside) && knows_all(
            world,
            inside,
        ),
        _ => true,
    }
}

/// Whether `world` is right about several trees.
pub open spec fn knows_all(world: spec_fn(Seq<char>) -> Seq<EntryFacts>, ts: Seq<Tree>) -> bool
    decreases ts,
{
    ts.len() == 0 || (knows_all(world, ts.drop_last()) && knows(world, ts.last()))
}

/// The path of an open directory.
pub open spec fn open_path(s: Seq<Spot>) -> Seq<char> {
    match first_open(s) {
        Some(i) => s[i]->Open_0,
        None => Seq::empty(),
    }
}

/// Whether `states` is a search through `world`.
pub open spec fn searches(
    states: Seq<Seq<Spot>>,
    world: spec_fn(Seq<char>) -> Seq<EntryFacts>,
    root: Seq<char>,
) -> bool {
    &&& states.len() > 0
    &&& states[0] == seq![Spot::Open(root)]
    &&& forall|k: int|
        0 <= k < states.len() - 1 ==> first_open(#[trigger] states[k]) is Some && states[k + 1]
            == opened(states[k], world(open_path(states[k])))
}

proof fn lemma_spots_split(a: Seq<EntryFacts>, b: Seq<EntryFacts>)
    ensures
        spots(a + b) == spots(a) + spots(b),
    decreases b.len(),
{
    if b.len() == 0 {
        assert(a + b =~= a);
        assert(spots(a) + spots(b) =~= spots(a));
    } else {
        lemma_spots_split(a, b.drop_last());
        assert((a + b).drop_last() =~= a + b.drop_last());
        assert(spots(a + b) =~= spots(a) + spots(b));
    }
}

proof fn lemma_clones_split(a: Seq<Tree>, b: Seq<Tree>)
    ensures
        clones(a + b) == clones(a) + clones(b),
    decreases b.len(),
{
    if b.len() == 0 {
        assert(a + b =~= a);
        assert(clones(a) + clones(b) =~= clones(a));
    } else {
        lemma_clones_split(a, b.drop_last());
        assert((a + b).drop_last() =~= a + b.drop_last());
        assert(clones(a + b) =~= clones(a) + clones(b));
    }
}

proof fn lemma_knows_split(
    world: spec_fn(Seq<char>) -> Seq<EntryFacts>,
    a: Seq<Tree>,
    b: Seq<Tree>,
)
    ensures
        knows_all(world, a + b) == (knows_all(world, a) && knows_all(world, b)),
    decreases b.len(),
{
    if b.len() == 0 {
        assert(a + b =~= a);
    } else {
        lemma_knows_split(world, a, b.drop_last());
        assert((a + b).drop_last() =~= a + b.drop_last());
    }
}

/// Where there is no folder, all clones have been found.
proof fn lemma_no_folder(ts: Seq<Tree>)
    requires
        forall|k: int| 0 <= k < ts.len() ==> !((#[trigger] ts[k]) is Folder),
    ensures
        spots(entries_of(ts)) == found_spots(clones(ts)),
    decreases ts.len(),
{
    if ts.len() == 0 {
        assert(spots(entries_of(ts)) =~= found_spots(clones(ts)));
    } else {
        let front = ts.drop_last();
        assert forall|k: int| 0 <= k < front.len() implies !((#[trigger] front[k]) is Folder) by {
            assert(front[k] == ts[k]);
        }
        lemma_no_folder(front);
        assert(entries_of(ts).drop_last() =~= entries_of(front));
        assert(!(ts[ts.len() - 1] is Folder));
        assert(entries_of(ts).last() == entry_of(ts.last()));
        let e = entry_of(ts.last());
        assert(spots_of(e) =~= found_spots(clones_in(ts.last()))) by {
            reveal_with_fuel(clones_in, 2);
        }
        assert(found_spots(clones(ts)) =~= found_spots(clones(front)) + found_spots(
            clones_in(ts.last()),
        ));
    }
}

/// The first folder among trees.
spec fn first_folder(ts: Seq<Tree>, j: int) -> bool {
    &&& 0 <= j < ts.len()
    &&& ts[j] is Folder
    &&& forall|k: int| 0 <= k < j ==> !((#[trigger] ts[k]) is Folder)
}

proof fn lemma_find_folder(ts: Seq<Tree>) -> (r: Option<int>)
    ensures
        match r {
            Some(j) => first_folder(ts, j),
            None => forall|k: int| 0 <= k < ts.len() ==> !((#[trigger] ts[k]) is Folder),
        },
    decreases ts.len(),
{
    if ts.len() == 0 {
        None
    } else {
        let front = ts.drop_last();
        match lemma_find_folder(front) {
            Some(j) => {
                assert(ts[j] == front[j]);
                assert forall|k: int| 0 <= k < j implies !((#[trigger] ts[k]) is Folder) by {
                    assert(front[k] == ts[k]);
                }
                Some(j)
            },
            None => {
                assert forall|k: int| 0 <= k < ts.len() - 1 implies !((
                #[trigger] ts[k]) is Folder) by {
                    assert(front[k] == ts[k]);
                }
                if ts.last() is Folder {
                    Some(ts.len() - 1)
                } else {
                    None
                }
            },
        }
    }
}

/// Listing the first folder among trees puts what is in it in its place.
proof fn lemma_open_folder(
    world: spec_fn(Seq<char>) -> Seq<EntryFacts>,
    ts: Seq<Tree>,
    j: int,
) -> (next: Seq<Tree>)
    requires
        first_folder(ts, j),
        knows_all(world, ts),
    ensures
        ({
            let s = spots(entries_of(ts));
            &&& first_open(s) is Some
            &&& opened(s, world(open_path(s))) == spots(entries_of(next))
        }),
        knows_all(world, next),
        clones(next) == clones(ts),
{
    let s = spots(entries_of(ts));
    let before = ts.take(j);
    let behind = ts.skip(j + 1);
    let path = ts[j]->Folder_0;
    let inside = ts[j]->Folder_1;
    let one = seq![ts[j]];
    assert(ts =~= before + one + behind);
    assert(one.drop_last() =~= Seq::empty());
    lemma_knows_split(world, before + one, behind);
    lemma_knows_split(world, before, one);
    lemma_clones_split(before + one, behind);
    lemma_clones_split(before, one);
    assert(clones(one) =~= clones(inside)) by {
        reveal_with_fuel(clones, 3);
        reveal_with_fuel(clones_in, 3);
        assert(clones(one) == clones(one.drop_last()) + clones_in(ts[j]));
    }
    assert(knows(world, ts[j])) by {
        reveal_with_fuel(knows_all, 3);
    }
    let a = entries_of(before);
    let b = entries_of(one);
    let c = entries_of(behind);
    assert(entries_of(ts) =~= a + b + c);
    lemma_spots_split(a + b, c);
    lemma_spots_split(a, b);
    assert(b.drop_last() =~= Seq::empty());
    assert(b.last() == entry_of(ts[j]));
    assert(spots(b) =~= seq![Spot::Open(path)]) by {
        reveal_with_fuel(spots, 3);
        assert(spots(b) == spots(b.drop_last()) + spots_of(b.last()));
    }
    assert forall|k: int| 0 <= k < before.len() implies !((#[trigger] before[k]) is Folder) by {
        assert(before[k] == ts[k]);
    }
    lemma_no_folder(before);
    let n = spots(a).len() as int;
    assert forall|k: int| 0 <= k < n implies (#[trigger] s[k]) is Found by {
        assert(s[k] == spots(a)[k]);
        assert(spots(a)[k] == found_spots(clones(before))[k]);
    }
    assert(s[n] == Spot::Open(path));
    lemma_first_open(s, n);
    assert(s.take(n) =~= spots(a));
    assert(s.skip(n + 1) =~= spots(c));
    let next = before + inside + behind;
    lemma_knows_split(world, before + inside, behind);
    lemma_knows_split(world, before, inside);
    lemma_clones_split(before + inside, behind);
    lemma_clones_split(before, inside);
    let d = entries_of(inside);
    assert(entries_of(next) =~= a + d + c);
    lemma_spots_split(a + d, c);
    lemma_spots_split(a, d);
    next
}

proof fn lemma_search(
    states: Seq<Seq<Spot>>,
    world: spec_fn(Seq<char>) -> Seq<EntryFacts>,
    root: Tree,
    k: int,
) -> (ts: Seq<Tree>)
    requires
        root is Folder,
        knows(world, root),
        searches(states, world, root->Folder_0),
        0 <= k < states.len(),
    ensures
        states[k] == spots(entries_of(ts)),
        knows_all(world, ts),
        clones(ts) == clones_in(root),
    decreases k,
{
    if k == 0 {
        let ts = seq![root];
        assert(ts.drop_last() =~= Seq::empty());
        assert(entries_of(ts).drop_last() =~= Seq::empty());
        assert(entries_of(ts).last() == entry_of(root));
        assert(spots(entries_of(ts)) =~= states[0]) by {
            reveal_with_fuel(spots, 3);
        }
        assert(clones(ts) =~= clones_in(root)) by {
            reveal_with_fuel(clones, 3);
        }
        assert(knows_all(world, ts)) by {
            reveal_with_fuel(knows_all, 3);
        }
        ts
    } else {
        let ts = lemma_search(states, world, root, k - 1);
        assert(first_open(states[k - 1]) is Some);
        match lemma_find_folder(ts) {
            Some(j) => lemma_open_folder(world, ts, j),
            None => {
                lemma_no_folder(ts);
                let s = states[k - 1];
                assert forall|m: int| 0 <= m < s.len() implies (#[trigger] s[m]) is Found by {
                    assert(s[m] == found_spots(clones(ts))[m]);
                }
                lemma_first_open(s, s.len() as int);
                ts
            },
        }
    }
}

/// A search that has come to its end has found the clones of the tree below its
/// root, each one and in order, and nothing else.
pub proof fn law_search_finds_every_clone(
    states: Seq<Seq<Spot>>,
    world: spec_fn(Seq<char>) -> Seq<EntryFacts>,
    root: Tree,
)
    requires
        root is Folder,
        knows(world, root),
        searches(states, world, root->Folder_0),
        first_open(states.last()) is None,
    ensures
        states.last() == found_spots(clones_in(root)),
{
    let ts = lemma_search(states, world, root, states.len() - 1);
    match lemma_find_folder(ts) {
        Some(j) => {
            let next = lemma_open_folder(world, ts, j);
        },
        None => {
            lemma_no_folder(ts);
        },
    }
}

} // verus!
