use vstd::prelude::*;
use crate::script::ScriptInstaller;

verus! {

/// Index of the first installer at or after `i` whose id is `id`, or -1.
pub open spec fn find_from(s: Seq<ScriptInstaller>, id: Seq<char>, i: int) -> int
    decreases s.len() - i,
{
    if i < 0 || i >= s.len() {
        -1
    } else if s[i].config.id@ == id {
        i
    } else {
        find_from(s, id, i + 1)
    }
}

/// Index of the installer whose id is `id`, or -1.
pub open spec fn index_of(s: Seq<ScriptInstaller>, id: Seq<char>) -> int {
    find_from(s, id, 0)
}

/// One descriptor file read during a reload: a parsed descriptor replaces
/// the installer with the same id, or joins the set; a malformed one is skipped.
pub open spec fn reload_step(s: Seq<ScriptInstaller>, d: Option<ScriptInstaller>) -> Seq<
    ScriptInstaller,
> {
    match d {
        None => s,
        Some(x) => {
            let j = index_of(s, x.config.id@);
            if j >= 0 {
                s.update(j, x)
            } else {
                s.push(x)
            }
        },
    }
}

/// The installers a reload yields from the descriptor files, in listing order.
pub open spec fn reloaded(descs: Seq<Option<ScriptInstaller>>) -> Seq<ScriptInstaller>
    decreases descs.len(),
{
    if descs.len() == 0 {
        Seq::empty()
    } else {
        reload_step(reloaded(descs.drop_last()), descs.last())
    }
}

/// The descriptors that parsed, in listing order.
pub open spec fn valid(descs: Seq<Option<ScriptInstaller>>) -> Seq<ScriptInstaller>
    decreases descs.len(),
{
    if descs.len() == 0 {
        Seq::empty()
    } else {
        match descs.last() {
            Some(x) => valid(descs.drop_last()).push(x),
            None => valid(descs.drop_last()),
        }
    }
}

/// No two installers share an id.
pub open spec fn distinct_ids(s: Seq<ScriptInstaller>) -> bool {
    forall|i: int, j: int| 0 <= i < j < s.len() ==> s[i].config.id@ != s[j].config.id@
}

/// What the search for an id finds: -1 exactly when no installer from
/// `i` on has the id, else the first one that has it.
pub proof fn lemma_find_from(s: Seq<ScriptInstaller>, id: Seq<char>, i: int)
    requires
        0 <= i <= s.len(),
    ensures
        find_from(s, id, i) == -1 <==> (forall|k: int| i <= k < s.len() ==> s[k].config.id@ != id),
        find_from(s, id, i) != -1 ==> i <= find_from(s, id, i) < s.len() && s[find_from(s, id, i)].config.id@ == id
            && forall|k: int| i <= k < find_from(s, id, i) ==> s[k].config.id@ != id,
    decreases s.len() - i,
{
    if i < s.len() {
        lemma_find_from(s, id, i + 1);
    }
}

/// Reloading keeps exactly the descriptors that parsed, in listing order,
/// whenever those carry distinct ids: N well-formed files give N installers
/// with their ids, and a malformed file among them costs only itself.
pub proof fn lemma_reload_keeps_valid(descs: Seq<Option<ScriptInstaller>>)
    requires
        distinct_ids(valid(descs)),
    ensures
        reloaded(descs) == valid(descs),
    decreases descs.len(),
{
    if descs.len() > 0 {
        let d = descs.drop_last();
        let prev = valid(d);
        match descs.last() {
            Some(x) => {
                let v = prev.push(x);
                assert forall|i: int, j: int| 0 <= i < j < prev.len() implies prev[i].config.id@ != prev[j].config.id@ by {
                    assert(v[i] == prev[i] && v[j] == prev[j]);
                }
                lemma_reload_keeps_valid(d);
                lemma_find_from(prev, x.config.id@, 0);
                assert forall|k: int| 0 <= k < prev.len() implies prev[k].config.id@ != x.config.id@ by {
                    assert(v[k] == prev[k]);
                    assert(v[prev.len() as int] == x);
                }
            },
            None => {
                lemma_reload_keeps_valid(d);
            },
        }
    }
}

/// Position of the installer whose id is `id`.
pub fn position_of(s: &Vec<ScriptInstaller>, id: &String) -> (r: Option<usize>)
    ensures
        match r {
            Some(j) => j as int == index_of(s@, id@) && j < s@.len(),
            None => index_of(s@, id@) == -1,
        },
{
    let mut i: usize = 0;
    while i < s.len()
        invariant
            i <= s@.len(),
            find_from(s@, id@, i as int) == index_of(s@, id@),
        decreases s.len() - i,
    {
        if s[i].config.id == *id {
            return Some(i);
        }
        i = i + 1;
    }
    None
}

/// One complete set of descriptor-driven installers, keyed by id. A snapshot
/// is never changed: a reload builds a new one that replaces it whole.
pub struct Snapshot {
    installers: Vec<ScriptInstaller>,
}

impl View for Snapshot {
    type V = Seq<ScriptInstaller>;

    closed spec fn view(&self) -> Seq<ScriptInstaller> {
        self.installers@
    }
}

impl Snapshot {
    /// A snapshot with no installers.
    pub fn empty() -> (r: Snapshot)
        ensures
            r@ == Seq::<ScriptInstaller>::empty(),
    {
        Snapshot { installers: Vec::new() }
    }

    /// The snapshot a reload yields from the descriptor files read, in
    /// listing order, `None` standing for a file that did not parse.
    pub fn from_descriptors(descs: Vec<Option<ScriptInstaller>>) -> (r: Snapshot)
        ensures
            r@ == reloaded(descs@),
            distinct_ids(r@),
    {
        let ghost all = descs@;
        let total = descs.len();
        let mut rest = descs;
        let mut installers: Vec<ScriptInstaller> = Vec::new();
        let mut k: usize = 0;
        while rest.len() > 0
            invariant
                k <= all.len(),
                all.len() == total,
                rest@ == all.skip(k as int),
                installers@ == reloaded(all.take(k as int)),
                distinct_ids(installers@),
            decreases rest.len(),
        {
            let d = rest.remove(0);
            let ghost pre = installers@;
            proof {
                assert(d == all[k as int]);
                assert(all.take(k + 1).drop_last() =~= all.take(k as int));
            }
            match d {
                Some(x) => {
                    let ghost xid = x.config.id@;
                    match position_of(&installers, &x.config.id) {
                        Some(j) => {
                            installers[j] = x;
                            proof {
                                lemma_find_from(pre, xid, 0);
                                assert forall|a: int, b: int| 0 <= a < b < installers@.len() implies installers@[a].config.id@
                                    != installers@[b].config.id@ by {
                                    if a != j && b != j {
                                        assert(installers@[a] == pre[a] && installers@[b] == pre[b]);
                                    } else if a == j {
                                        assert(installers@[b] == pre[b]);
                                    } else {
                                        assert(installers@[a] == pre[a]);
                                    }
                                }
                            }
                        },
                        None => {
                            installers.push(x);
                            proof {
                                lemma_find_from(pre, xid, 0);
                                assert forall|a: int, b: int| 0 <= a < b < installers@.len() implies installers@[a].config.id@
                                    != installers@[b].config.id@ by {
                                    assert(installers@[a] == pre[a]);
                                    if b < pre.len() {
                                        assert(installers@[b] == pre[b]);
                                    }
                                }
                            }
                        },
                    }
                },
                None => {},
            }
            k = k + 1;
            proof {
                assert(rest@ =~= all.skip(k as int));
            }
        }
        assert(all.take(k as int) =~= all);
        Snapshot { installers }
    }

    /// The installer with the given id, if the snapshot holds one.
    pub fn get(&self, id: &str) -> (r: Option<&ScriptInstaller>)
        ensures
            r is None <==> forall|k: int| 0 <= k < self@.len() ==> self@[k].config.id@ != id@,
            r is Some ==> index_of(self@, id@) >= 0 && *r->Some_0 == self@[index_of(self@, id@)],
            r is Some ==> r->Some_0.config.id@ == id@,
    {
        let key = id.to_owned();
        proof {
            lemma_find_from(self@, id@, 0);
        }
        match position_of(&self.installers, &key) {
            Some(j) => Some(&self.installers[j]),
            None => None,
        }
    }

    /// Every installer of the snapshot.
    pub fn get_all(&self) -> (r: &Vec<ScriptInstaller>)
        ensures
            r@ == self@,
    {
        &self.installers
    }
}

} // verus!
