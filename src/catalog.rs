use vstd::prelude::*;
use crate::registry::{distinct_ids, index_of, lemma_find_from, position_of, reload_step, Snapshot};
use crate::script::ScriptInstaller;
use crate::installer::Installer;
use vstd::utf8::encode_utf8;

verus! {

/// Whether some installer of `s` has the id `id`.
pub open spec fn has_id(s: Seq<ScriptInstaller>, id: Seq<char>) -> bool {
    exists|k: int| 0 <= k < s.len() && s[k].config.id@ == id
}

/// The installer an id resolves to: the built-in set is searched first,
/// then the registry snapshot.
pub open spec fn resolve(builtins: Seq<ScriptInstaller>, registry: Seq<ScriptInstaller>, id: Seq<char>) -> Option<
    ScriptInstaller,
> {
    if has_id(builtins, id) {
        Some(builtins[index_of(builtins, id)])
    } else if has_id(registry, id) {
        Some(registry[index_of(registry, id)])
    } else {
        None
    }
}

/// The built-in installers. None is compiled in at present.
pub fn create_all_installers() -> (r: Vec<ScriptInstaller>)
    ensures
        r@.len() == 0,
{
    Vec::new()
}

/// The installer an id resolves to; none, the not-found signal, exactly
/// when neither the built-in set nor the registry snapshot holds the id.
pub fn find_installer<'a>(builtins: &'a Vec<ScriptInstaller>, registry: &'a Snapshot, id: &str) -> (r:
    Option<&'a ScriptInstaller>)
    ensures
        r is None <==> !has_id(builtins@, id@) && !has_id(registry@, id@),
        match r {
            Some(x) => resolve(builtins@, registry@, id@) == Some(*x),
            None => resolve(builtins@, registry@, id@) is None,
        },
{
    let key = id.to_owned();
    proof {
        lemma_find_from(builtins@, id@, 0);
        lemma_find_from(registry@, id@, 0);
    }
    match position_of(builtins, &key) {
        Some(j) => Some(&builtins[j]),
        None => {
            let r = registry.get(id);
            proof {
                if has_id(registry@, id@) {
                    let k = choose|k: int| 0 <= k < registry@.len() && registry@[k].config.id@ == id@;
                    assert(registry@[k].config.id@ == id@);
                }
            }
            r
        },
    }
}

/// A set of installers keyed by id, filled by registration.
pub struct InstallerModule {
    installers: Vec<ScriptInstaller>,
}

impl View for InstallerModule {
    type V = Seq<ScriptInstaller>;

    closed spec fn view(&self) -> Seq<ScriptInstaller> {
        self.installers@
    }
}

impl InstallerModule {
    /// No two registered installers share an id.
    pub closed spec fn wf(self) -> bool {
        distinct_ids(self.installers@)
    }

    /// An empty module.
    pub fn new() -> (r: InstallerModule)
        ensures
            r.wf(),
            r@.len() == 0,
    {
        InstallerModule { installers: Vec::new() }
    }

    /// Adds an installer, replacing the one registered under the same id.
    pub fn register(&mut self, installer: ScriptInstaller)
        requires
            old(self).wf(),
        ensures
            final(self).wf(),
            final(self)@ == reload_step(old(self)@, Some(installer)),
    {
        let ghost pre = self.installers@;
        let ghost xid = installer.config.id@;
        proof {
            lemma_find_from(pre, xid, 0);
        }
        match position_of(&self.installers, &installer.config.id) {
            Some(j) => {
                self.installers[j] = installer;
                proof {
                    assert forall|a: int, b: int| 0 <= a < b < self.installers@.len() implies self.installers@[a].config.id@
                        != self.installers@[b].config.id@ by {
                        if a != j && b != j {
                            assert(self.installers@[a] == pre[a] && self.installers@[b] == pre[b]);
                        } else if a == j {
                            assert(self.installers@[b] == pre[b]);
                        } else {
                            assert(self.installers@[a] == pre[a]);
                        }
                    }
                }
            },
            None => {
                self.installers.push(installer);
                proof {
                    assert forall|a: int, b: int| 0 <= a < b < self.installers@.len() implies self.installers@[a].config.id@
                        != self.installers@[b].config.id@ by {
                        assert(self.installers@[a] == pre[a]);
                        if b < pre.len() {
                            assert(self.installers@[b] == pre[b]);
                        }
                    }
                }
            },
        }
    }

    /// The installer registered under `id`.
    pub fn get(&self, id: &str) -> (r: Option<&ScriptInstaller>)
        ensures
            r is None <==> !has_id(self@, id@),
            r is Some ==> *r->Some_0 == self@[index_of(self@, id@)] && r->Some_0.config.id@ == id@,
    {
        let key = id.to_owned();
        proof {
            lemma_find_from(self@, id@, 0);
        }
        match position_of(&self.installers, &key) {
            Some(j) => Some(&self.installers[j]),
            None => {
                proof {
                    if has_id(self@, id@) {
                        let k = choose|k: int| 0 <= k < self@.len() && self@[k].config.id@ == id@;
                        assert(self@[k].config.id@ == id@);
                    }
                }
                None
            },
        }
    }

    /// Every registered installer.
    pub fn get_all(&self) -> (r: &Vec<ScriptInstaller>)
        ensures
            r@ == self@,
    {
        &self.installers
    }
}

/// Byte-wise lexicographic order: the order of `String`.
pub open spec fn bytes_le(a: Seq<u8>, b: Seq<u8>) -> bool
    decreases a.len(),
{
    if a.len() == 0 {
        true
    } else if b.len() == 0 {
        false
    } else if a[0] != b[0] {
        a[0] < b[0]
    } else {
        bytes_le(a.skip(1), b.skip(1))
    }
}

/// The order of two texts, as `String` compares them: by their UTF-8 bytes.
pub open spec fn text_le(a: Seq<char>, b: Seq<char>) -> bool {
    bytes_le(encode_utf8(a), encode_utf8(b))
}

/// Relies on `slice::sort` over `String`: the same strings, rearranged into
/// ascending order of `Ord for String`, which compares the bytes.
#[verifier::external_body]
fn sort_texts(v: &mut Vec<String>)
    ensures
        final(v)@.to_multiset() == old(v)@.to_multiset(),
        forall|i: int, j: int|
            0 <= i < j < final(v)@.len() ==> text_le(final(v)@[i]@, final(v)@[j]@),
{
    v.sort();
}

/// Whether `c` is one of the texts of `s`.
pub open spec fn holds_text(s: Seq<String>, c: Seq<char>) -> bool {
    exists|i: int| 0 <= i < s.len() && s[i]@ == c
}

/// Whether some installer of `s` is in the category `c`.
pub open spec fn has_category(s: Seq<ScriptInstaller>, c: Seq<char>) -> bool {
    exists|k: int| 0 <= k < s.len() && s[k].config.category@ == c
}

fn add_categories(acc: &mut Vec<String>, s: &Vec<ScriptInstaller>)
    requires
        forall|i: int, j: int| 0 <= i < j < old(acc)@.len() ==> old(acc)@[i]@ != old(acc)@[j]@,
    ensures
        forall|i: int, j: int| 0 <= i < j < final(acc)@.len() ==> final(acc)@[i]@ != final(acc)@[j]@,
        forall|c: Seq<char>|
            #[trigger] holds_text(final(acc)@, c) <==> holds_text(old(acc)@, c) || has_category(s@, c),
{
    let ghost start = acc@;
    let mut k: usize = 0;
    while k < s.len()
        invariant
            k <= s@.len(),
            forall|i: int, j: int| 0 <= i < j < acc@.len() ==> acc@[i]@ != acc@[j]@,
            forall|c: Seq<char>|
                #[trigger] holds_text(acc@, c) <==> holds_text(start, c) || has_category(s@.take(k as int), c),
        decreases s.len() - k,
    {
        let cat = s[k].category();
        let cat = cat.to_owned();
        let mut found = false;
        let mut i: usize = 0;
        while i < acc.len()
            invariant
                i <= acc@.len(),
                k < s@.len(),
                forall|c: Seq<char>|
                    #[trigger] holds_text(acc@, c) <==> holds_text(start, c) || has_category(
                        s@.take(k as int),
                        c,
                    ),
                found ==> exists|j: int| 0 <= j < acc@.len() && acc@[j]@ == cat@,
                !found ==> forall|j: int| 0 <= j < i ==> acc@[j]@ != cat@,
            decreases acc.len() - i,
        {
            if acc[i] == cat {
                found = true;
            }
            i = i + 1;
        }
        let ghost pre = acc@;
        if !found {
            acc.push(cat);
            proof {
                assert forall|a: int, b: int| 0 <= a < b < acc@.len() implies acc@[a]@ != acc@[b]@ by {
                    assert(acc@[a] == pre[a]);
                    if b < pre.len() {
                        assert(acc@[b] == pre[b]);
                    }
                }
            }
        }
        k = k + 1;
        proof {
            let t = s@.take(k as int);
            let t0 = s@.take(k - 1);
            assert(t[k - 1] == s@[k - 1]);
            assert forall|c: Seq<char>|
                #[trigger] holds_text(acc@, c) <==> holds_text(start, c) || has_category(t, c) by {
                assert(holds_text(pre, c) <==> holds_text(start, c) || has_category(t0, c));
                if holds_text(pre, c) {
                    let j = choose|j: int| 0 <= j < pre.len() && pre[j]@ == c;
                    assert(acc@[j] == pre[j]);
                }
                if has_category(t0, c) {
                    let m = choose|m: int| 0 <= m < t0.len() && t0[m].config.category@ == c;
                    assert(t[m] == t0[m]);
                }
                if holds_text(acc@, c) {
                    let i = choose|i: int| 0 <= i < acc@.len() && acc@[i]@ == c;
                    if i < pre.len() {
                        assert(acc@[i] == pre[i]);
                        assert(holds_text(pre, c));
                    } else {
                        assert(t[k - 1].config.category@ == c);
                    }
                }
                if has_category(t, c) {
                    let m = choose|m: int| 0 <= m < t.len() && t[m].config.category@ == c;
                    if m < k - 1 {
                        assert(t0[m] == t[m]);
                        assert(has_category(t0, c));
                    } else {
                        assert(c == cat@);
                        if found {
                            assert(holds_text(pre, cat@));
                            let j = choose|j: int| 0 <= j < pre.len() && pre[j]@ == c;
                            assert(acc@[j] == pre[j]);
                        } else {
                            assert(acc@[pre.len() as int] == cat);
                        }
                    }
                }
            }
        }
    }
    assert(s@.take(k as int) =~= s@);
}

/// The distinct categories of every known installer, built-in or
/// registered, in ascending order.
pub fn categories(builtins: &Vec<ScriptInstaller>, registry: &Snapshot) -> (r: Vec<String>)
    ensures
        forall|i: int, j: int| 0 <= i < j < r@.len() ==> r@[i]@ != r@[j]@,
        forall|i: int, j: int| 0 <= i < j < r@.len() ==> text_le(r@[i]@, r@[j]@),
        forall|c: Seq<char>|
            holds_text(r@, c) <==> has_category(builtins@, c)
                || has_category(registry@, c),
{
    let mut acc: Vec<String> = Vec::new();
    add_categories(&mut acc, builtins);
    let ghost first = acc@;
    add_categories(&mut acc, registry.get_all());
    let ghost before = acc@;
    assert forall|c: Seq<char>|
        #[trigger] holds_text(before, c) <==> has_category(builtins@, c) || has_category(registry@, c) by {
        assert(holds_text(first, c) <==> holds_text(Seq::<String>::empty(), c) || has_category(builtins@, c));
        assert(holds_text(before, c) <==> holds_text(first, c) || has_category(registry@, c));
    }
    sort_texts(&mut acc);
    proof {
        broadcast use vstd::seq_lib::group_to_multiset_ensures;
        assert(before.no_duplicates()) by {
            assert forall|i: int, j: int| 0 <= i < before.len() && 0 <= j < before.len() && i != j implies before[i] != before[j] by {
                if i < j {
                    assert(before[i]@ != before[j]@);
                } else {
                    assert(before[j]@ != before[i]@);
                }
            }
        }
        before.lemma_multiset_has_no_duplicates();
        acc@.lemma_multiset_has_no_duplicates_conv();
        assert forall|i: int, j: int| 0 <= i < j < acc@.len() implies acc@[i]@ != acc@[j]@ by {
            assert(acc@.contains(acc@[i]));
            assert(acc@.contains(acc@[j]));
            assert(acc@.to_multiset().count(acc@[i]) > 0);
            assert(acc@.to_multiset().count(acc@[j]) > 0);
            assert(before.to_multiset().count(acc@[i]) > 0);
            assert(before.to_multiset().count(acc@[j]) > 0);
            assert(before.contains(acc@[i]));
            assert(before.contains(acc@[j]));
            let a = choose|a: int| 0 <= a < before.len() && before[a] == acc@[i];
            let b = choose|b: int| 0 <= b < before.len() && before[b] == acc@[j];
            assert(acc@[i] != acc@[j]);
            if a < b {
                assert(before[a]@ != before[b]@);
            } else {
                assert(before[b]@ != before[a]@);
            }
        }
        assert forall|c: Seq<char>|
            #[trigger] holds_text(acc@, c) <==> holds_text(before, c) by {
            if holds_text(acc@, c) {
                let i = choose|i: int| 0 <= i < acc@.len() && acc@[i]@ == c;
                assert(acc@.contains(acc@[i]));
                assert(acc@.to_multiset().count(acc@[i]) > 0);
                assert(before.to_multiset().count(acc@[i]) > 0);
                assert(before.contains(acc@[i]));
            }
            if holds_text(before, c) {
                let i = choose|i: int| 0 <= i < before.len() && before[i]@ == c;
                assert(before.contains(before[i]));
                assert(before.to_multiset().count(before[i]) > 0);
                assert(acc@.to_multiset().count(before[i]) > 0);
                assert(acc@.contains(before[i]));
            }
        }
    }
    acc
}

} // verus!
