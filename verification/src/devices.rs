//! The devices that are being tracked, keyed by their D-Bus object path.
use vstd::prelude::*;

verus! {

/// The map that a list of path-value pairs denotes, later pairs overriding earlier ones.
pub open spec fn pairs_map<V>(es: Seq<(Seq<char>, V)>) -> Map<Seq<char>, V>
    decreases es.len(),
{
    if es.len() == 0 {
        Map::empty()
    } else {
        pairs_map(es.drop_last()).insert(es.last().0, es.last().1)
    }
}

/// No path occurs twice.
pub open spec fn distinct_paths<V>(es: Seq<(Seq<char>, V)>) -> bool {
    forall|i: int, j: int| 0 <= i < j < es.len() ==> #[trigger] es[i].0 != #[trigger] es[j].0
}

/// The pairs with their paths as texts.
pub open spec fn pairs_view<V>(es: Seq<(String, V)>) -> Seq<(Seq<char>, V)> {
    es.map_values(|e: (String, V)| (e.0@, e.1))
}

/// What `DeviceTable::insert` does: `after` tracks `device` under `path` and is otherwise
/// `before`, and `r` is the device that `before` tracked under `path`, if any.
pub open spec fn inserted<V>(
    before: DeviceTable<V>,
    path: Seq<char>,
    device: V,
    after: DeviceTable<V>,
    r: Option<V>,
) -> bool {
    &&& after@ == before@.insert(path, device)
    &&& before@.contains_key(path) ==> r == Some(before@[path])
    &&& !before@.contains_key(path) ==> r is None
}

/// What `DeviceTable::remove` does: `after` is `before` without `path`, and `r` is the
/// device that `before` tracked under `path`, if any.
pub open spec fn removed<V>(before: DeviceTable<V>, path: Seq<char>, after: DeviceTable<V>, r: Option<V>) -> bool {
    &&& after@ == before@.remove(path)
    &&& before@.contains_key(path) ==> r == Some(before@[path])
    &&& !before@.contains_key(path) ==> r is None
}

/// The tracked devices: at most one value per object path.
#[derive(Debug)]
pub struct DeviceTable<V> {
    entries: Vec<(String, V)>,
}

impl<V> View for DeviceTable<V> {
    type V = Map<Seq<char>, V>;

    closed spec fn view(&self) -> Map<Seq<char>, V> {
        pairs_map(pairs_view(self.entries@))
    }
}

impl<V> DeviceTable<V> {
    #[verifier::type_invariant]
    closed spec fn paths_distinct(self) -> bool {
        distinct_paths(pairs_view(self.entries@))
    }

    /// An empty table.
    pub fn new() -> (r: Self)
        ensures
            r@ == Map::<Seq<char>, V>::empty(),
    {
        let r = DeviceTable { entries: Vec::new() };
        assert(pairs_view(r.entries@) =~= Seq::<(Seq<char>, V)>::empty());
        r
    }

    /// The number of tracked devices.
    pub fn len(&self) -> (r: usize)
        ensures
            r == self@.len(),
    {
        proof {
            use_type_invariant(self);
            lemma_pairs_map_len(pairs_view(self.entries@));
        }
        self.entries.len()
    }

    /// Starts tracking a device under its path, and hands back the device that was
    /// tracked under that path before, if any.
    pub fn insert(&mut self, path: String, device: V) -> (r: Option<V>)
        ensures
            inserted(*old(self), path@, device, *final(self), r),
    {
        proof {
            use_type_invariant(&*self);
            lemma_pairs_map_lookup(pairs_view(self.entries@));
        }
        let ghost old_pairs = pairs_view(self.entries@);
        let ghost key = path@;
        let mut entries: Vec<(String, V)> = Vec::new();
        std::mem::swap(&mut entries, &mut self.entries);
        let found = position(&entries, &path);
        let old_value = match found {
            Some(i) => {
                proof {
                    assert(old_pairs[i as int].0 == key);
                    lemma_pairs_map_remove(old_pairs, i as int);
                }
                let (_, v) = entries.remove(i);
                assert(pairs_view(entries@) =~= old_pairs.remove(i as int));
                Some(v)
            },
            None => {
                assert forall|j: int| 0 <= j < old_pairs.len() implies old_pairs[j].0 != key by {
                    assert(old_pairs[j].0 == entries@[j].0@);
                }
                None
            },
        };
        let ghost mid = pairs_view(entries@);
        entries.push((path, device));
        proof {
            assert(pairs_view(entries@) =~= mid.push((key, device)));
            assert(mid.push((key, device)).drop_last() =~= mid);
            lemma_pairs_map_lookup(mid);
            assert forall|a: int, b: int|
                0 <= a < b < pairs_view(entries@).len() implies #[trigger] pairs_view(
                entries@,
            )[a].0 != #[trigger] pairs_view(entries@)[b].0 by {
                if b == mid.len() {
                    assert(pairs_view(entries@)[a] == mid[a]);
                    assert(mid.contains(mid[a]));
                    assert(pairs_map(mid).contains_key(mid[a].0));
                } else {
                    assert(pairs_view(entries@)[a] == mid[a]);
                    assert(pairs_view(entries@)[b] == mid[b]);
                }
            }
            assert(pairs_map(pairs_view(entries@)) =~= pairs_map(mid).insert(key, device));
            assert(pairs_map(mid) =~= pairs_map(old_pairs).remove(key));
            assert(pairs_map(pairs_view(entries@)) =~= pairs_map(old_pairs).insert(key, device));
        }
        self.entries = entries;
        old_value
    }

    /// Stops tracking the device under a path, and hands it back if there was one.
    pub fn remove(&mut self, path: &String) -> (r: Option<V>)
        ensures
            removed(*old(self), path@, *final(self), r),
    {
        proof {
            use_type_invariant(&*self);
            lemma_pairs_map_lookup(pairs_view(self.entries@));
        }
        let ghost old_pairs = pairs_view(self.entries@);
        let mut entries: Vec<(String, V)> = Vec::new();
        std::mem::swap(&mut entries, &mut self.entries);
        let r = match position(&entries, path) {
            Some(i) => {
                proof {
                    assert(old_pairs[i as int].0 == path@);
                    lemma_pairs_map_remove(old_pairs, i as int);
                }
                let (_, v) = entries.remove(i);
                assert(pairs_view(entries@) =~= old_pairs.remove(i as int));
                Some(v)
            },
            None => {
                assert forall|j: int| 0 <= j < old_pairs.len() implies old_pairs[j].0 != path@ by {
                    assert(old_pairs[j].0 == entries@[j].0@);
                }
                assert(pairs_map(old_pairs) =~= pairs_map(old_pairs).remove(path@));
                None
            },
        };
        self.entries = entries;
        r
    }
}

/// The index of the entry for a path, if there is one.
fn position<V>(entries: &Vec<(String, V)>, path: &String) -> (r: Option<usize>)
    ensures
        r matches Some(i) ==> i < entries@.len() && entries@[i as int].0@ == path@,
        r is None ==> forall|i: int| 0 <= i < entries@.len() ==> entries@[i].0@ != path@,
{
    let mut i: usize = 0;
    while i < entries.len()
        invariant
            i <= entries@.len(),
            forall|j: int| 0 <= j < i ==> entries@[j].0@ != path@,
        decreases entries.len() - i,
    {
        if entries[i].0 == *path {
            return Some(i);
        }
        i = i + 1;
    }
    None
}

/// With distinct paths, the map holds exactly the listed paths, each with its value.
proof fn lemma_pairs_map_lookup<V>(es: Seq<(Seq<char>, V)>)
    requires
        distinct_paths(es),
    ensures
        forall|i: int| 0 <= i < es.len() ==> #[trigger] pairs_map(es).contains_key(es[i].0)
            && pairs_map(es)[es[i].0] == es[i].1,
        forall|k: Seq<char>|
            pairs_map(es).contains_key(k) ==> exists|i: int| 0 <= i < es.len() && #[trigger] es[i].0 == k,
    decreases es.len(),
{
    if es.len() > 0 {
        let init = es.drop_last();
        assert(distinct_paths(init));
        lemma_pairs_map_lookup(init);
        assert forall|i: int| 0 <= i < es.len() implies #[trigger] pairs_map(es).contains_key(es[i].0)
            && pairs_map(es)[es[i].0] == es[i].1 by {
            if i < es.len() - 1 {
                assert(init[i].0 == es[i].0 && init[i].1 == es[i].1);
                assert(pairs_map(init).contains_key(init[i].0));
                assert(es[i].0 != es[es.len() - 1].0);
            }
        }
        assert forall|k: Seq<char>| pairs_map(es).contains_key(k) implies exists|i: int|
            0 <= i < es.len() && #[trigger] es[i].0 == k by {
            if k != es.last().0 {
                assert(pairs_map(init).contains_key(k));
                let i = choose|i: int| 0 <= i < init.len() && #[trigger] init[i].0 == k;
                assert(es[i].0 == init[i].0);
            } else {
                assert(es[es.len() - 1].0 == k);
            }
        }
    }
}

/// The map has as many keys as there are pairs, when paths are distinct.
proof fn lemma_pairs_map_len<V>(es: Seq<(Seq<char>, V)>)
    requires
        distinct_paths(es),
    ensures
        pairs_map(es).len() == es.len(),
        pairs_map(es).dom().finite(),
    decreases es.len(),
{
    if es.len() > 0 {
        let init = es.drop_last();
        assert(distinct_paths(init));
        lemma_pairs_map_len(init);
        lemma_pairs_map_lookup(init);
        if pairs_map(init).contains_key(es.last().0) {
            let i = choose|i: int| 0 <= i < init.len() && #[trigger] init[i].0 == es.last().0;
            assert(es[i].0 == es[es.len() - 1].0);
        }
    }
}

/// Taking out the pair of one path takes that path out of the map.
proof fn lemma_pairs_map_remove<V>(es: Seq<(Seq<char>, V)>, i: int)
    requires
        distinct_paths(es),
        0 <= i < es.len(),
    ensures
        pairs_map(es.remove(i)) =~= pairs_map(es).remove(es[i].0),
        distinct_paths(es.remove(i)),
    decreases es.len(),
{
    let init = es.drop_last();
    let k = es[i].0;
    assert(distinct_paths(init));
    assert forall|a: int, b: int| 0 <= a < b < es.remove(i).len() implies #[trigger] es.remove(i)[a].0
        != #[trigger] es.remove(i)[b].0 by {
        let a2 = if a < i {
            a
        } else {
            a + 1
        };
        let b2 = if b < i {
            b
        } else {
            b + 1
        };
        assert(es.remove(i)[a] == es[a2]);
        assert(es.remove(i)[b] == es[b2]);
    }
    if i == es.len() - 1 {
        assert(es.remove(i) =~= init);
        lemma_pairs_map_lookup(init);
        if pairs_map(init).contains_key(k) {
            let j = choose|j: int| 0 <= j < init.len() && #[trigger] init[j].0 == k;
            assert(es[j].0 == es[i].0);
        }
        assert(pairs_map(init) =~= pairs_map(init).insert(k, es[i].1).remove(k));
    } else {
        lemma_pairs_map_remove(init, i);
        assert(es.remove(i) =~= init.remove(i).push(es.last()));
        assert(es.remove(i).drop_last() =~= init.remove(i));
        assert(es.last().0 != k);
    }
}

/// Removing a path hands back the device that was last stored under it, and leaves the
/// table as it was before that store, less the path.
pub proof fn stored_device_comes_back<V>(
    t0: DeviceTable<V>,
    t1: DeviceTable<V>,
    t2: DeviceTable<V>,
    path: Seq<char>,
    device: V,
    r1: Option<V>,
    r2: Option<V>,
)
    requires
        inserted(t0, path, device, t1, r1),
        removed(t1, path, t2, r2),
    ensures
        r2 == Some(device),
        t2@ == t0@.remove(path),
{
    assert(t2@ =~= t0@.remove(path));
}

/// Storing a second device under a path hands back the first one, and the table then
/// tracks only the second under that path.
pub proof fn second_store_replaces_first<V>(
    t0: DeviceTable<V>,
    t1: DeviceTable<V>,
    t2: DeviceTable<V>,
    path: Seq<char>,
    first: V,
    second: V,
    r1: Option<V>,
    r2: Option<V>,
)
    requires
        inserted(t0, path, first, t1, r1),
        inserted(t1, path, second, t2, r2),
    ensures
        r2 == Some(first),
        t2@ == t0@.insert(path, second),
{
    assert(t2@ =~= t0@.insert(path, second));
}

/// Removing a path that is not tracked hands back nothing and changes nothing.
pub proof fn removing_untracked_path_changes_nothing<V>(
    t0: DeviceTable<V>,
    t1: DeviceTable<V>,
    path: Seq<char>,
    r: Option<V>,
)
    requires
        !t0@.contains_key(path),
        removed(t0, path, t1, r),
    ensures
        r is None,
        t1@ == t0@,
{
    assert(t1@ =~= t0@);
}

} // verus!
