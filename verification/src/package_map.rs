//! A map from package names to lockfile entries, kept sorted by name.

use vstd::prelude::*;
use crate::names::{name_lt, compare_names, NameOrder, lemma_name_lt_irreflexive, lemma_name_lt_transitive};
use crate::package::{PackageSpecV1, PackageView};

verus! {

/// The keys of `e` strictly increase: each name occurs once, in order.
pub open spec fn keys_sorted(e: Seq<(Seq<char>, PackageView)>) -> bool {
    forall|i: int, j: int| 0 <= i < j < e.len() ==> name_lt(#[trigger] e[i].0, #[trigger] e[j].0)
}

/// `k` is the key at some position of `e`.
pub open spec fn has_key(e: Seq<(Seq<char>, PackageView)>, k: Seq<char>) -> bool {
    exists|i: int| 0 <= i < e.len() && #[trigger] e[i].0 == k
}

/// The map that a sequence of entries stands for.
pub open spec fn entries_map(e: Seq<(Seq<char>, PackageView)>) -> Map<Seq<char>, PackageView> {
    Map::new(
        |k: Seq<char>| has_key(e, k),
        |k: Seq<char>| e[choose|i: int| 0 <= i < e.len() && #[trigger] e[i].0 == k].1,
    )
}

/// In sorted entries, the map gives for the key at position `i` the value at `i`.
pub proof fn lemma_entries_map_at(e: Seq<(Seq<char>, PackageView)>, i: int)
    requires
        keys_sorted(e),
        0 <= i < e.len(),
    ensures
        entries_map(e).contains_key(e[i].0),
        entries_map(e)[e[i].0] == e[i].1,
{
    let k = e[i].0;
    assert(has_key(e, k));
    let j = choose|j: int| 0 <= j < e.len() && #[trigger] e[j].0 == k;
    if j < i {
        assert(name_lt(e[j].0, e[i].0));
        lemma_name_lt_irreflexive(k);
    } else if i < j {
        assert(name_lt(e[i].0, e[j].0));
        lemma_name_lt_irreflexive(k);
    }
}

/// The map built by recording the pairs of `e` one after another, a later
/// pair replacing an earlier one of the same name.
pub open spec fn map_of_pairs(e: Seq<(Seq<char>, PackageView)>) -> Map<Seq<char>, PackageView>
    decreases e.len(),
{
    if e.len() == 0 {
        Map::empty()
    } else {
        map_of_pairs(e.drop_last()).insert(e.last().0, e.last().1)
    }
}

/// The contents of a list of name and entry pairs.
pub open spec fn pairs_view(v: Seq<(String, PackageSpecV1)>) -> Seq<(Seq<char>, PackageView)> {
    v.map_values(|e: (String, PackageSpecV1)| (e.0@, e.1@))
}

/// Lockfile entries by package name. Iteration goes by name, in the order of
/// [`name_lt`], as in an ordered map keyed by `String`.
#[derive(Debug, PartialEq, Eq, PartialOrd, Ord, Hash)]
pub struct PackageMap {
    items: Vec<(String, PackageSpecV1)>,
}

impl PackageMap {
    /// The entries, in order, by their contents.
    pub closed spec fn entries(&self) -> Seq<(Seq<char>, PackageView)> {
        pairs_view(self.items@)
    }

    /// Names strictly increase.
    #[verifier::type_invariant]
    spec fn wf(&self) -> bool {
        keys_sorted(self.entries())
    }

    /// The map from names to entries.
    pub open spec fn as_map(&self) -> Map<Seq<char>, PackageView> {
        entries_map(self.entries())
    }

    /// An empty map.
    pub fn new() -> (res: PackageMap)
        ensures
            res.as_map() == Map::<Seq<char>, PackageView>::empty(),
            res.entries().len() == 0,
    {
        let res = PackageMap { items: Vec::new() };
        assert(res.entries() =~= Seq::<(Seq<char>, PackageView)>::empty());
        assert(res.as_map() =~= Map::<Seq<char>, PackageView>::empty());
        res
    }

    /// The number of entries.
    pub fn len(&self) -> (res: usize)
        ensures
            res == self.entries().len(),
            res == self.as_map().dom().len(),
    {
        proof {
            use_type_invariant(self);
            self.lemma_dom_len();
        }
        self.items.len()
    }

    /// The map's domain has as many names as there are entries.
    proof fn lemma_dom_len(&self)
        requires
            self.wf(),
        ensures
            self.as_map().dom().finite(),
            self.as_map().dom().len() == self.entries().len(),
        decreases self.items@.len(),
    {
        let e = self.entries();
        let keys = e.map_values(|x: (Seq<char>, PackageView)| x.0);
        assert forall|i: int, j: int| 0 <= i < keys.len() && 0 <= j < keys.len() && i != j
            implies keys[i] != keys[j] by {
            if i < j {
                assert(name_lt(e[i].0, e[j].0));
            } else {
                assert(name_lt(e[j].0, e[i].0));
            }
            lemma_name_lt_irreflexive(e[i].0);
        }
        keys.unique_seq_to_set();
        assert forall|k: Seq<char>| self.as_map().dom().contains(k) <==> keys.to_set().contains(k) by {
            if self.as_map().dom().contains(k) {
                let i = choose|i: int| 0 <= i < e.len() && #[trigger] e[i].0 == k;
                assert(keys[i] == k);
            }
            if keys.to_set().contains(k) {
                let i = choose|i: int| 0 <= i < keys.len() && #[trigger] keys[i] == k;
                assert(e[i].0 == k);
            }
        }
        assert(self.as_map().dom() =~= keys.to_set());
    }

    /// The entry recorded under `name`, if any.
    pub fn get(&self, name: &str) -> (res: Option<&PackageSpecV1>)
        ensures
            match res {
                Some(p) => self.as_map().contains_key(name@) && self.as_map()[name@] == p@,
                None => !self.as_map().contains_key(name@),
            },
    {
        proof { use_type_invariant(self); }
        let ghost e = self.entries();
        let mut i: usize = 0;
        while i < self.items.len()
            invariant
                e == self.entries(),
                keys_sorted(e),
                i <= self.items.len(),
                forall|j: int| 0 <= j < i ==> name_lt(#[trigger] e[j].0, name@),
            decreases self.items.len() - i,
        {
            assert(e[i as int].0 == self.items@[i as int].0@);
            match compare_names(self.items[i].0.as_str(), name) {
                NameOrder::Equal => {
                    proof { lemma_entries_map_at(e, i as int); }
                    return Some(&self.items[i].1);
                },
                NameOrder::Greater => {
                    proof {
                        if has_key(e, name@) {
                            let j = choose|j: int| 0 <= j < e.len() && #[trigger] e[j].0 == name@;
                            if j < i {
                                lemma_name_lt_irreflexive(name@);
                            } else if j > i {
                                assert(name_lt(e[i as int].0, e[j].0));
                                lemma_name_lt_transitive(name@, e[i as int].0, e[j].0);
                                lemma_name_lt_irreflexive(name@);
                            }
                        }
                    }
                    return None;
                },
                NameOrder::Less => {},
            }
            i = i + 1;
        }
        proof {
            if has_key(e, name@) {
                let j = choose|j: int| 0 <= j < e.len() && #[trigger] e[j].0 == name@;
                lemma_name_lt_irreflexive(name@);
            }
        }
        None
    }

    /// Records `pkg` under `name`, replacing what was recorded there.
    pub fn insert(&mut self, name: String, pkg: PackageSpecV1)
        ensures
            final(self).as_map() == old(self).as_map().insert(name@, pkg@),
    {
        proof { use_type_invariant(&*self); }
        let mut items: Vec<(String, PackageSpecV1)> = Vec::new();
        std::mem::swap(&mut items, &mut self.items);
        let ghost e = pairs_view(items@);
        assert(e == old(self).entries());
        let ghost entry = (name@, pkg@);
        let mut i: usize = 0;
        let mut found = false;
        while i < items.len()
            invariant_except_break
                !found,
            invariant
                e == pairs_view(items@),
                keys_sorted(e),
                i <= items.len(),
                forall|j: int| 0 <= j < i ==> name_lt(#[trigger] e[j].0, name@),
            ensures
                e == pairs_view(items@),
                i <= items.len(),
                forall|j: int| 0 <= j < i ==> name_lt(#[trigger] e[j].0, name@),
                found ==> i < e.len() && e[i as int].0 == name@,
                !found ==> i == e.len() || name_lt(name@, e[i as int].0),
            decreases items.len() - i,
        {
            assert(e[i as int].0 == items@[i as int].0@);
            match compare_names(items[i].0.as_str(), name.as_str()) {
                NameOrder::Less => {},
                NameOrder::Equal => {
                    found = true;
                    break;
                },
                NameOrder::Greater => {
                    break;
                },
            }
            i = i + 1;
        }
        if found {
            items.set(i, (name, pkg));
            assert(pairs_view(items@) =~= e.update(i as int, entry));
            proof { Self::lemma_update_map(e, i as int, entry); }
        } else {
            items.insert(i, (name, pkg));
            assert(pairs_view(items@) =~= e.insert(i as int, entry));
            proof { Self::lemma_insert_map(e, i as int, entry); }
        }
        self.items = items;
    }

    /// Replacing the value at the position of its own key keeps the entries
    /// sorted and updates the map.
    proof fn lemma_update_map(e: Seq<(Seq<char>, PackageView)>, i: int, entry: (Seq<char>, PackageView))
        requires
            keys_sorted(e),
            0 <= i < e.len(),
            e[i].0 == entry.0,
        ensures
            keys_sorted(e.update(i, entry)),
            entries_map(e.update(i, entry)) == entries_map(e).insert(entry.0, entry.1),
    {
        let e2 = e.update(i, entry);
        assert forall|a: int, b: int| 0 <= a < b < e2.len() implies name_lt(#[trigger] e2[a].0, #[trigger] e2[b].0) by {
            assert(e2[a].0 == e[a].0 && e2[b].0 == e[b].0);
        }
        let m = entries_map(e).insert(entry.0, entry.1);
        let m2 = entries_map(e2);
        assert forall|k: Seq<char>| m2.contains_key(k) <==> m.contains_key(k) by {
            if m2.contains_key(k) {
                let j = choose|j: int| 0 <= j < e2.len() && #[trigger] e2[j].0 == k;
                assert(e[j].0 == k);
            }
            if m.contains_key(k) && k != entry.0 {
                let j = choose|j: int| 0 <= j < e.len() && #[trigger] e[j].0 == k;
                assert(e2[j].0 == k);
            }
            if k == entry.0 {
                assert(e2[i].0 == k);
            }
        }
        assert forall|k: Seq<char>| m2.contains_key(k) implies m2[k] == m[k] by {
            let j = choose|j: int| 0 <= j < e2.len() && #[trigger] e2[j].0 == k;
            lemma_entries_map_at(e2, j);
            if j != i {
                lemma_entries_map_at(e, j);
            }
        }
        assert(m2 =~= m);
    }

    /// Inserting a new key at its sorted position keeps the entries sorted and
    /// adds it to the map.
    proof fn lemma_insert_map(e: Seq<(Seq<char>, PackageView)>, i: int, entry: (Seq<char>, PackageView))
        requires
            keys_sorted(e),
            0 <= i <= e.len(),
            forall|j: int| 0 <= j < i ==> name_lt(#[trigger] e[j].0, entry.0),
            i < e.len() ==> name_lt(entry.0, e[i].0),
        ensures
            keys_sorted(e.insert(i, entry)),
            entries_map(e.insert(i, entry)) == entries_map(e).insert(entry.0, entry.1),
    {
        let e2 = e.insert(i, entry);
        assert forall|j: int| i < j < e.len() implies name_lt(entry.0, #[trigger] e[j].0) by {
            assert(name_lt(e[i].0, e[j].0));
            lemma_name_lt_transitive(entry.0, e[i].0, e[j].0);
        }
        assert forall|a: int, b: int| 0 <= a < b < e2.len() implies name_lt(#[trigger] e2[a].0, #[trigger] e2[b].0) by {
            if b < i {
                assert(e2[a] == e[a] && e2[b] == e[b]);
            } else if b == i {
                assert(e2[a] == e[a]);
            } else if a < i {
                assert(e2[a] == e[a] && e2[b] == e[b - 1]);
                assert(name_lt(e[a].0, e[b - 1].0));
            } else if a == i {
                assert(e2[b] == e[b - 1]);
            } else {
                assert(e2[a] == e[a - 1] && e2[b] == e[b - 1]);
                assert(name_lt(e[a - 1].0, e[b - 1].0));
            }
        }
        let m = entries_map(e).insert(entry.0, entry.1);
        let m2 = entries_map(e2);
        assert forall|k: Seq<char>| m2.contains_key(k) <==> m.contains_key(k) by {
            if m2.contains_key(k) {
                let j = choose|j: int| 0 <= j < e2.len() && #[trigger] e2[j].0 == k;
                if j < i {
                    assert(e[j].0 == k);
                } else if j > i {
                    assert(e[j - 1].0 == k);
                }
            }
            if m.contains_key(k) {
                if k == entry.0 {
                    assert(e2[i].0 == k);
                } else {
                    let j = choose|j: int| 0 <= j < e.len() && #[trigger] e[j].0 == k;
                    if j < i {
                        assert(e2[j].0 == k);
                    } else {
                        assert(e2[j + 1].0 == k);
                    }
                }
            }
        }
        assert forall|k: Seq<char>| m2.contains_key(k) implies m2[k] == m[k] by {
            let j = choose|j: int| 0 <= j < e2.len() && #[trigger] e2[j].0 == k;
            lemma_entries_map_at(e2, j);
            if j < i {
                lemma_entries_map_at(e, j);
                assert(name_lt(e[j].0, entry.0));
                lemma_name_lt_irreflexive(entry.0);
            } else if j > i {
                lemma_entries_map_at(e, j - 1);
                assert(name_lt(entry.0, e[j - 1].0));
                lemma_name_lt_irreflexive(entry.0);
            }
        }
        assert(m2 =~= m);
    }

    /// Hands out the entries, in increasing order of name.
    pub fn into_entries(self) -> (res: Vec<(String, PackageSpecV1)>)
        ensures
            keys_sorted(pairs_view(res@)),
            entries_map(pairs_view(res@)) == self.as_map(),
    {
        proof { use_type_invariant(&self); }
        self.items
    }

    /// Records the pairs of `entries` one after another.
    pub fn from_entries(entries: Vec<(String, PackageSpecV1)>) -> (res: PackageMap)
        ensures
            res.as_map() == map_of_pairs(pairs_view(entries@)),
    {
        let ghost all = pairs_view(entries@);
        let ghost raw = entries@;
        let mut entries = entries;
        let mut res = PackageMap::new();
        let ghost mut i: int = 0;
        assert(all.take(0) =~= Seq::<(Seq<char>, PackageView)>::empty());
        assert(raw.skip(0) =~= raw);
        while entries.len() > 0
            invariant
                0 <= i <= raw.len(),
                all == pairs_view(raw),
                entries@ == raw.skip(i),
                res.as_map() == map_of_pairs(all.take(i)),
            decreases entries.len(),
        {
            let (name, pkg) = entries.remove(0);
            assert(name@ == all[i].0 && pkg@ == all[i].1);
            assert(all.take(i + 1).drop_last() =~= all.take(i));
            res.insert(name, pkg);
            proof {
                i = i + 1;
                assert(entries@ =~= raw.skip(i));
            }
        }
        assert(all.take(i) =~= all);
        res
    }
}

impl Clone for PackageMap {
    /// A copy with the same entries in the same order.
    fn clone(&self) -> (res: Self)
        ensures
            res.entries() == self.entries(),
            res.as_map() == self.as_map(),
    {
        proof { use_type_invariant(self); }
        let ghost e = self.entries();
        let mut items: Vec<(String, PackageSpecV1)> = Vec::new();
        let mut i: usize = 0;
        while i < self.items.len()
            invariant
                e == self.entries(),
                i <= self.items.len(),
                e.len() == self.items@.len(),
                items@.len() == i,
                pairs_view(items@) == e.take(i as int),
            decreases self.items.len() - i,
        {
            let name = self.items[i].0.clone();
            let pkg = self.items[i].1.clone();
            assert(e[i as int] == (self.items@[i as int].0@, self.items@[i as int].1@));
            assert(name@ == e[i as int].0 && pkg@ == e[i as int].1);
            let ghost before = items@;
            items.push((name, pkg));
            assert forall|j: int| 0 <= j < i + 1 implies #[trigger] pairs_view(items@)[j] == e[j] by {
                if j < i {
                    assert(items@[j] == before[j]);
                    assert(pairs_view(before)[j] == e.take(i as int)[j]);
                }
            }
            assert(pairs_view(items@) =~= e.take(i as int + 1));
            i = i + 1;
        }
        assert(e.take(e.len() as int) =~= e);
        PackageMap { items }
    }
}

impl Default for PackageMap {
    /// An empty map.
    fn default() -> (res: Self)
        ensures
            res.as_map() == Map::<Seq<char>, PackageView>::empty(),
            res.entries().len() == 0,
    {
        PackageMap::new()
    }
}

/// For entries sorted by name, recording them one after another gives the
/// map they stand for: the entries handed out by [`PackageMap::into_entries`]
/// rebuild the same map through [`PackageMap::from_entries`].
pub proof fn lemma_sorted_pairs_map(e: Seq<(Seq<char>, PackageView)>)
    requires
        keys_sorted(e),
    ensures
        map_of_pairs(e) == entries_map(e),
    decreases e.len(),
{
    if e.len() == 0 {
        assert(entries_map(e) =~= Map::<Seq<char>, PackageView>::empty());
    } else {
        let init = e.drop_last();
        let n = init.len() as int;
        assert(keys_sorted(init));
        lemma_sorted_pairs_map(init);
        assert forall|j: int| 0 <= j < n implies name_lt(#[trigger] init[j].0, e.last().0) by {
            assert(name_lt(e[j].0, e[n].0));
        }
        PackageMap::lemma_insert_map(init, n, e.last());
        assert(init.insert(n, e.last()) =~= e);
    }
}

} // verus!
