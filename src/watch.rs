use vstd::prelude::*;

verus! {

/// A file seen by the poll loop: its path and last-modified time.
pub struct FileStamp {
    pub path: String,
    pub modified: u64,
}

/// The view of a directory listing.
pub open spec fn listing_view(l: Seq<FileStamp>) -> Seq<(Seq<char>, u64)> {
    l.map_values(|f: FileStamp| (f.path@, f.modified))
}

/// A file is a change when it was not seen before or is newer than when it was.
pub open spec fn file_changed(seen: Map<Seq<char>, u64>, path: Seq<char>, modified: u64) -> bool {
    !seen.contains_key(path) || modified > seen[path]
}

/// The times recorded after going through a listing in order.
pub open spec fn seen_after(seen: Map<Seq<char>, u64>, l: Seq<(Seq<char>, u64)>) -> Map<Seq<char>, u64>
    decreases l.len(),
{
    if l.len() == 0 {
        seen
    } else {
        seen_after(seen, l.drop_last()).insert(l.last().0, l.last().1)
    }
}

/// Whether going through a listing in order meets a changed file.
pub open spec fn tick_changed(seen: Map<Seq<char>, u64>, l: Seq<(Seq<char>, u64)>) -> bool
    decreases l.len(),
{
    if l.len() == 0 {
        false
    } else {
        tick_changed(seen, l.drop_last()) || file_changed(
            seen_after(seen, l.drop_last()),
            l.last().0,
            l.last().1,
        )
    }
}

/// No two files of a listing share a path.
pub open spec fn distinct_paths(l: Seq<(Seq<char>, u64)>) -> bool {
    forall|i: int, j: int| 0 <= i < j < l.len() ==> l[i].0 != l[j].0
}

proof fn lemma_seen_after_other(seen: Map<Seq<char>, u64>, l: Seq<(Seq<char>, u64)>, p: Seq<char>)
    requires
        forall|k: int| 0 <= k < l.len() ==> l[k].0 != p,
    ensures
        seen_after(seen, l).contains_key(p) == seen.contains_key(p),
        seen_after(seen, l)[p] == seen[p],
    decreases l.len(),
{
    if l.len() > 0 {
        lemma_seen_after_other(seen, l.drop_last(), p);
    }
}

proof fn lemma_seen_after_listed(seen: Map<Seq<char>, u64>, l: Seq<(Seq<char>, u64)>, j: int)
    requires
        distinct_paths(l),
        0 <= j < l.len(),
    ensures
        seen_after(seen, l).contains_key(l[j].0),
        seen_after(seen, l)[l[j].0] == l[j].1,
    decreases l.len(),
{
    if j < l.len() - 1 {
        lemma_seen_after_listed(seen, l.drop_last(), j);
    }
}

proof fn lemma_covered_is_quiet(seen: Map<Seq<char>, u64>, l: Seq<(Seq<char>, u64)>)
    requires
        distinct_paths(l),
        forall|k: int|
            0 <= k < l.len() ==> seen.contains_key(#[trigger] l[k].0) && l[k].1 <= seen[l[k].0],
    ensures
        !tick_changed(seen, l),
    decreases l.len(),
{
    if l.len() > 0 {
        let d = l.drop_last();
        lemma_covered_is_quiet(seen, d);
        lemma_seen_after_other(seen, d, l.last().0);
        assert(seen.contains_key(l[l.len() - 1].0));
    }
}

/// Once a tick has recorded a listing, a tick over the same listing finds no
/// change: a reload, and its one notification, come only from a tick that
/// meets a new or newer file.
pub proof fn lemma_same_listing_is_quiet(seen: Map<Seq<char>, u64>, l: Seq<(Seq<char>, u64)>)
    requires
        distinct_paths(l),
    ensures
        !tick_changed(seen_after(seen, l), l),
{
    let s = seen_after(seen, l);
    assert forall|k: int| 0 <= k < l.len() implies s.contains_key(#[trigger] l[k].0) && l[k].1 <= s[l[k].0] by {
        lemma_seen_after_listed(seen, l, k);
    }
    lemma_covered_is_quiet(s, l);
}

/// What the poll loop remembers between ticks: the last-modified time of
/// each descriptor file it has seen.
pub struct WatchState {
    seen: Vec<(String, u64)>,
}

impl WatchState {
    /// No path is recorded twice.
    pub closed spec fn wf(self) -> bool {
        forall|i: int, j: int|
            0 <= i < j < self.seen@.len() ==> self.seen@[i].0@ != self.seen@[j].0@
    }

    /// Whether a time is recorded for `p`.
    pub closed spec fn has(self, p: Seq<char>) -> bool {
        exists|i: int| 0 <= i < self.seen@.len() && self.seen@[i].0@ == p
    }

    /// The recorded time of each path.
    pub closed spec fn view(self) -> Map<Seq<char>, u64> {
        Map::new(
            |p: Seq<char>| self.has(p),
            |p: Seq<char>|
                self.seen@[choose|i: int| 0 <= i < self.seen@.len() && self.seen@[i].0@ == p].1,
        )
    }

    proof fn lemma_at(self, j: int)
        requires
            self.wf(),
            0 <= j < self.seen@.len(),
        ensures
            self.view().contains_key(self.seen@[j].0@),
            self.view()[self.seen@[j].0@] == self.seen@[j].1,
    {
        assert(self.has(self.seen@[j].0@));
    }

    /// Nothing seen yet.
    pub fn new() -> (r: WatchState)
        ensures
            r.wf(),
            r.view() == Map::<Seq<char>, u64>::empty(),
    {
        let r = WatchState { seen: Vec::new() };
        assert(r.view() =~= Map::<Seq<char>, u64>::empty());
        r
    }

    /// Records one file; tells whether it is new or newer than recorded.
    pub fn observe(&mut self, path: &String, modified: u64) -> (r: bool)
        requires
            old(self).wf(),
        ensures
            final(self).wf(),
            r == file_changed(old(self).view(), path@, modified),
            final(self).view() == old(self).view().insert(path@, modified),
    {
        let ghost pre = *self;
        let mut i: usize = 0;
        while i < self.seen.len()
            invariant
                i <= self.seen@.len(),
                *self == pre,
                pre == *old(self),
                pre.wf(),
                forall|k: int| 0 <= k < i ==> self.seen@[k].0@ != path@,
            decreases self.seen.len() - i,
        {
            if self.seen[i].0 == *path {
                let last = self.seen[i].1;
                self.seen[i] = (path.clone(), modified);
                proof {
                    pre.lemma_at(i as int);
                    assert forall|a: int, b: int| 0 <= a < b < self.seen@.len() implies self.seen@[a].0@ != self.seen@[b].0@ by {
                        assert(a != i ==> self.seen@[a] == pre.seen@[a]);
                        assert(b != i ==> self.seen@[b] == pre.seen@[b]);
                    }
                    assert forall|p: Seq<char>| #[trigger] self.view().contains_key(p) == pre.view().insert(path@, modified).contains_key(p)
                        && (self.view().contains_key(p) ==> self.view()[p] == pre.view().insert(path@, modified)[p]) by {
                        if p == path@ {
                            self.lemma_at(i as int);
                        } else {
                            if pre.has(p) {
                                let k = choose|k: int| 0 <= k < pre.seen@.len() && pre.seen@[k].0@ == p;
                                pre.lemma_at(k);
                                self.lemma_at(k);
                            }
                            if self.has(p) {
                                let k = choose|k: int| 0 <= k < self.seen@.len() && self.seen@[k].0@ == p;
                                assert(self.seen@[k] == pre.seen@[k]);
                            }
                        }
                    }
                    assert(self.view() =~= pre.view().insert(path@, modified));
                }
                return modified > last;
            }
            i = i + 1;
        }
        self.seen.push((path.clone(), modified));
        proof {
            assert(!pre.has(path@));
            let n = pre.seen@.len() as int;
            assert forall|a: int, b: int| 0 <= a < b < self.seen@.len() implies self.seen@[a].0@ != self.seen@[b].0@ by {
                assert(self.seen@[a] == pre.seen@[a]);
                if b < n {
                    assert(self.seen@[b] == pre.seen@[b]);
                }
            }
            assert forall|p: Seq<char>| #[trigger] self.view().contains_key(p) == pre.view().insert(path@, modified).contains_key(p)
                && (self.view().contains_key(p) ==> self.view()[p] == pre.view().insert(path@, modified)[p]) by {
                if p == path@ {
                    self.lemma_at(n);
                } else {
                    if pre.has(p) {
                        let k = choose|k: int| 0 <= k < pre.seen@.len() && pre.seen@[k].0@ == p;
                        pre.lemma_at(k);
                        assert(self.seen@[k] == pre.seen@[k]);
                        self.lemma_at(k);
                    }
                    if self.has(p) {
                        let k = choose|k: int| 0 <= k < self.seen@.len() && self.seen@[k].0@ == p;
                        assert(k < n);
                        assert(self.seen@[k] == pre.seen@[k]);
                    }
                }
            }
            assert(self.view() =~= pre.view().insert(path@, modified));
        }
        true
    }

    /// One poll tick over the descriptor files listed, in listing order:
    /// records every file's time and tells whether any was new or newer,
    /// in which case the registry is reloaded and one notification is sent.
    pub fn tick(&mut self, listing: &Vec<FileStamp>) -> (r: bool)
        requires
            old(self).wf(),
        ensures
            final(self).wf(),
            r == tick_changed(old(self).view(), listing_view(listing@)),
            final(self).view() == seen_after(old(self).view(), listing_view(listing@)),
    {
        let ghost start = self.view();
        let ghost lv = listing_view(listing@);
        let mut changed = false;
        let mut i: usize = 0;
        while i < listing.len()
            invariant
                i <= listing@.len(),
                lv == listing_view(listing@),
                self.wf(),
                self.view() == seen_after(start, lv.take(i as int)),
                changed == tick_changed(start, lv.take(i as int)),
            decreases listing.len() - i,
        {
            let c = self.observe(&listing[i].path, listing[i].modified);
            changed = changed || c;
            i = i + 1;
            proof {
                let t = lv.take(i as int);
                assert(t.drop_last() =~= lv.take(i - 1));
                assert(t.last() == (listing@[i - 1].path@, listing@[i - 1].modified));
            }
        }
        assert(lv.take(i as int) =~= lv);
        changed
    }
}

} // verus!
