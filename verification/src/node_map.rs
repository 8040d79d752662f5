use vstd::prelude::*;

use crate::node_id::NodeId;

verus! {

broadcast use vstd::set::group_set_axioms;

/// Whether no two entries of `s` have the same key.
pub open spec fn keys_distinct<T>(s: Seq<(NodeId, T)>) -> bool {
    forall|i: int, j: int|
        #![trigger s[i], s[j]]
        0 <= i < s.len() && 0 <= j < s.len() && i != j ==> s[i].0@ != s[j].0@
}

/// Whether some entry of `s` has the key `k`.
pub open spec fn has_key<T>(s: Seq<(NodeId, T)>, k: Seq<u8>) -> bool {
    exists|i: int| 0 <= i < s.len() && #[trigger] s[i].0@ == k
}

/// The position of the entry with key `k` in `s` (meaningful when `has_key(s, k)`).
pub open spec fn index_of<T>(s: Seq<(NodeId, T)>, k: Seq<u8>) -> int {
    choose|i: int| 0 <= i < s.len() && #[trigger] s[i].0@ == k
}

/// The map that a sequence of entries with distinct keys stands for.
pub open spec fn entries_to_map<T>(s: Seq<(NodeId, T)>) -> Map<Seq<u8>, T> {
    Map::new(|k: Seq<u8>| has_key(s, k), |k: Seq<u8>| s[index_of(s, k)].1)
}

/// The keys of a sequence of entries, in order.
pub open spec fn entry_keys<T>(s: Seq<(NodeId, T)>) -> Seq<Seq<u8>> {
    s.map_values(|e: (NodeId, T)| e.0@)
}

/// The entry at position `j` is the one the map finds for its key.
pub proof fn lemma_entry_in_map<T>(s: Seq<(NodeId, T)>, j: int)
    requires
        keys_distinct(s),
        0 <= j < s.len(),
    ensures
        has_key(s, s[j].0@),
        index_of(s, s[j].0@) == j,
        entries_to_map(s).dom().contains(s[j].0@),
        entries_to_map(s)[s[j].0@] == s[j].1,
{
    let k = s[j].0@;
    assert(has_key(s, k));
    let i = index_of(s, k);
    assert(0 <= i < s.len() && s[i].0@ == k);
    if i != j {
        assert(s[i].0@ != s[j].0@);
    }
}

/// The domain of the map is the set of keys of the entries; it is finite.
pub proof fn lemma_map_dom<T>(s: Seq<(NodeId, T)>)
    ensures
        entries_to_map(s).dom() == entry_keys(s).to_set(),
        entries_to_map(s).dom().finite(),
{
    let ks = entry_keys(s);
    assert forall|k: Seq<u8>| entries_to_map(s).dom().contains(k) <==> ks.to_set().contains(k) by {
        if has_key(s, k) {
            let i = choose|i: int| 0 <= i < s.len() && #[trigger] s[i].0@ == k;
            assert(ks[i] == k);
        }
        if ks.to_set().contains(k) {
            let i = choose|i: int| 0 <= i < ks.len() && #[trigger] ks[i] == k;
            assert(s[i].0@ == k);
        }
    }
    assert(entries_to_map(s).dom() =~= ks.to_set());
    vstd::seq_lib::seq_to_set_is_finite(ks);
}

/// The map has exactly as many keys as there are entries.
pub proof fn lemma_map_len<T>(s: Seq<(NodeId, T)>)
    requires
        keys_distinct(s),
    ensures
        entries_to_map(s).dom().len() == s.len(),
{
    lemma_map_dom(s);
    let ks = entry_keys(s);
    assert(ks.no_duplicates()) by {
        assert forall|i: int, j: int| 0 <= i < ks.len() && 0 <= j < ks.len() && i != j implies ks[i]
            != ks[j] by {
            assert(s[i].0@ != s[j].0@);
        }
    }
    ks.unique_seq_to_set();
}

/// Removing the entry at position `i` removes its key from the map.
pub proof fn lemma_remove_entry<T>(s: Seq<(NodeId, T)>, i: int)
    requires
        keys_distinct(s),
        0 <= i < s.len(),
    ensures
        keys_distinct(s.remove(i)),
        entries_to_map(s.remove(i)) == entries_to_map(s).remove(s[i].0@),
{
    let r = s.remove(i);
    let k0 = s[i].0@;
    assert forall|a: int, b: int|
        #![trigger r[a], r[b]]
        0 <= a < r.len() && 0 <= b < r.len() && a != b implies r[a].0@ != r[b].0@ by {
        let sa = if a < i { a } else { a + 1 };
        let sb = if b < i { b } else { b + 1 };
        assert(r[a] == s[sa]);
        assert(r[b] == s[sb]);
        assert(s[sa].0@ != s[sb].0@);
    }
    let m = entries_to_map(s);
    let mr = entries_to_map(r);
    assert forall|k: Seq<u8>| #[trigger] mr.dom().contains(k) <==> m.remove(k0).dom().contains(k) by {
        if has_key(r, k) {
            let a = choose|a: int| 0 <= a < r.len() && #[trigger] r[a].0@ == k;
            let sa = if a < i { a } else { a + 1 };
            assert(r[a] == s[sa]);
            assert(s[sa].0@ == k);
            assert(sa != i);
            assert(s[sa].0@ != s[i].0@);
            assert(has_key(s, k));
        }
        if has_key(s, k) && k != k0 {
            let b = choose|b: int| 0 <= b < s.len() && #[trigger] s[b].0@ == k;
            assert(b != i);
            let a = if b < i { b } else { b - 1 };
            assert(r[a] == s[b]);
            assert(has_key(r, k));
        }
    }
    assert forall|k: Seq<u8>| #[trigger] mr.dom().contains(k) implies mr[k] == m.remove(k0)[k] by {
        let a = index_of(r, k);
        lemma_entry_in_map(r, a);
        let sa = if a < i { a } else { a + 1 };
        assert(r[a] == s[sa]);
        lemma_entry_in_map(s, sa);
    }
    assert(mr =~= m.remove(k0));
}

/// Appending an entry with a new key inserts it into the map.
pub proof fn lemma_push_entry<T>(s: Seq<(NodeId, T)>, e: (NodeId, T))
    requires
        keys_distinct(s),
        !has_key(s, e.0@),
    ensures
        keys_distinct(s.push(e)),
        entries_to_map(s.push(e)) == entries_to_map(s).insert(e.0@, e.1),
{
    let p = s.push(e);
    let n = s.len() as int;
    assert forall|a: int, b: int|
        #![trigger p[a], p[b]]
        0 <= a < p.len() && 0 <= b < p.len() && a != b implies p[a].0@ != p[b].0@ by {
        if a < n && b < n {
            assert(p[a] == s[a] && p[b] == s[b]);
        } else if a < n {
            assert(p[a] == s[a]);
            assert(s[a].0@ != e.0@);
        } else {
            assert(p[b] == s[b]);
            assert(s[b].0@ != e.0@);
        }
    }
    let m = entries_to_map(s);
    let mp = entries_to_map(p);
    assert forall|k: Seq<u8>| #[trigger] mp.dom().contains(k) <==> m.insert(e.0@, e.1).dom().contains(
        k,
    ) by {
        if has_key(p, k) {
            let a = choose|a: int| 0 <= a < p.len() && #[trigger] p[a].0@ == k;
            if a < n {
                assert(p[a] == s[a]);
                assert(has_key(s, k));
            }
        }
        if has_key(s, k) {
            let b = choose|b: int| 0 <= b < s.len() && #[trigger] s[b].0@ == k;
            assert(p[b] == s[b]);
            assert(has_key(p, k));
        }
        if k == e.0@ {
            assert(p[n].0@ == k);
            assert(has_key(p, k));
        }
    }
    assert forall|k: Seq<u8>| #[trigger] mp.dom().contains(k) implies mp[k] == m.insert(
        e.0@,
        e.1,
    )[k] by {
        let a = index_of(p, k);
        lemma_entry_in_map(p, a);
        if a < n {
            assert(p[a] == s[a]);
            lemma_entry_in_map(s, a);
        }
    }
    assert(mp =~= m.insert(e.0@, e.1));
}

/// A table keyed by node id, holding one value per node.
pub struct NodeMap<T> {
    entries: Vec<(NodeId, T)>,
}

impl<T> NodeMap<T> {
    /// The entries of the table, in storage order.
    pub closed spec fn entries_view(&self) -> Seq<(NodeId, T)> {
        self.entries@
    }

    /// Well-formedness: no node id occurs twice.
    pub open spec fn wf(&self) -> bool {
        keys_distinct(self.entries_view())
    }

    /// An empty table.
    pub fn new() -> (m: NodeMap<T>)
        ensures
            m.wf(),
            m@ == Map::<Seq<u8>, T>::empty(),
            m.entries_view().len() == 0,
    {
        let m = NodeMap { entries: Vec::new() };
        assert(m@ =~= Map::<Seq<u8>, T>::empty());
        m
    }

    /// The entries of the table, for iteration.
    pub fn entries(&self) -> (r: &Vec<(NodeId, T)>)
        ensures
            r@ == self.entries_view(),
    {
        &self.entries
    }

    /// The position of the entry for `node_id`, if there is one.
    pub fn find(&self, node_id: &NodeId) -> (r: Option<usize>)
        requires
            self.wf(),
        ensures
            r is None <==> !self@.dom().contains(node_id@),
            r matches Some(i) ==> {
                &&& i < self.entries_view().len()
                &&& self.entries_view()[i as int].0@ == node_id@
                &&& index_of(self.entries_view(), node_id@) == i
            },
    {
        let n = self.entries.len();
        let mut i: usize = 0;
        while i < n
            invariant
                self.wf(),
                n == self.entries@.len(),
                i <= n,
                forall|j: int| 0 <= j < i ==> #[trigger] self.entries@[j].0@ != node_id@,
            decreases n - i,
        {
            if self.entries[i].0.same_as(node_id) {
                proof {
                    lemma_entry_in_map(self.entries@, i as int);
                }
                return Some(i);
            }
            i = i + 1;
        }
        proof {
            if has_key(self.entries@, node_id@) {
                let j = choose|j: int| 0 <= j < self.entries@.len() && #[trigger] self.entries@[j].0@
                    == node_id@;
                assert(self.entries@[j].0@ != node_id@);
            }
        }
        None
    }

    /// Whether the table holds a value for `node_id`.
    pub fn contains_key(&self, node_id: &NodeId) -> (r: bool)
        requires
            self.wf(),
        ensures
            r == self@.dom().contains(node_id@),
    {
        self.find(node_id).is_some()
    }

    /// The value held for `node_id`, if any.
    pub fn get(&self, node_id: &NodeId) -> (r: Option<&T>)
        requires
            self.wf(),
        ensures
            r == (if self@.dom().contains(node_id@) {
                Some(&self@[node_id@])
            } else {
                None
            }),
    {
        match self.find(node_id) {
            Some(i) => {
                proof {
                    lemma_entry_in_map(self.entries@, i as int);
                }
                Some(&self.entries[i].1)
            },
            None => None,
        }
    }

    /// The number of nodes in the table.
    pub fn len(&self) -> (r: usize)
        requires
            self.wf(),
        ensures
            r == self@.dom().len(),
    {
        proof {
            lemma_map_len(self.entries@);
        }
        self.entries.len()
    }

    /// Take the value held for `node_id` out of the table.
    pub fn remove(&mut self, node_id: &NodeId) -> (r: Option<T>)
        requires
            old(self).wf(),
        ensures
            final(self).wf(),
            final(self)@ == old(self)@.remove(node_id@),
            r == (if old(self)@.dom().contains(node_id@) {
                Some(old(self)@[node_id@])
            } else {
                None
            }),
    {
        match self.find(node_id) {
            Some(i) => {
                proof {
                    lemma_entry_in_map(self.entries@, i as int);
                    lemma_remove_entry(self.entries@, i as int);
                }
                let (_, v) = self.entries.remove(i);
                Some(v)
            },
            None => {
                assert(self@.remove(node_id@) =~= self@);
                None
            },
        }
    }

    /// Set the value held for `node_id`, handing back the value it replaces.
    pub fn insert(&mut self, node_id: NodeId, value: T) -> (r: Option<T>)
        requires
            old(self).wf(),
        ensures
            final(self).wf(),
            final(self)@ == old(self)@.insert(node_id@, value),
            r == (if old(self)@.dom().contains(node_id@) {
                Some(old(self)@[node_id@])
            } else {
                None
            }),
    {
        let ghost k = node_id@;
        let old_value = self.remove(&node_id);
        proof {
            assert(!self@.dom().contains(k));
            lemma_push_entry(self.entries@, (node_id, value));
            assert(self@.remove(k).insert(k, value) =~= old(self)@.insert(k, value));
        }
        self.entries.push((node_id, value));
        old_value
    }

    /// The node ids in the table, each once.
    pub fn keys(&self) -> (r: Vec<NodeId>)
        requires
            self.wf(),
        ensures
            r@.len() == self@.dom().len(),
            forall|i: int, j: int|
                #![trigger r@[i], r@[j]]
                0 <= i < r@.len() && 0 <= j < r@.len() && i != j ==> r@[i]@ != r@[j]@,
            forall|i: int| 0 <= i < r@.len() ==> self@.dom().contains(#[trigger] r@[i]@),
            forall|k: Seq<u8>|
                #[trigger] self@.dom().contains(k) ==> exists|i: int| 0 <= i < r@.len() && #[trigger] r@[i]@ == k,
    {
        let n = self.entries.len();
        let mut ids: Vec<NodeId> = Vec::new();
        let mut i: usize = 0;
        while i < n
            invariant
                self.wf(),
                n == self.entries@.len(),
                i <= n,
                ids@.len() == i,
                forall|j: int| 0 <= j < i ==> #[trigger] ids@[j]@ == self.entries@[j].0@,
            decreases n - i,
        {
            let id = self.entries[i].0.clone();
            ids.push(id);
            i = i + 1;
        }
        proof {
            let s = self.entries@;
            lemma_map_len(s);
            assert forall|a: int, b: int|
                #![trigger ids@[a], ids@[b]]
                0 <= a < ids@.len() && 0 <= b < ids@.len() && a != b implies ids@[a]@ != ids@[b]@ by {
                assert(s[a].0@ != s[b].0@);
            }
            assert forall|a: int| 0 <= a < ids@.len() implies self@.dom().contains(#[trigger] ids@[a]@) by {
                lemma_entry_in_map(s, a);
            }
            assert forall|k: Seq<u8>| #[trigger] self@.dom().contains(k) implies exists|a: int|
                0 <= a < ids@.len() && #[trigger] ids@[a]@ == k by {
                let a = index_of(s, k);
                assert(ids@[a]@ == k);
            }
        }
        ids
    }

    /// Empty the table, handing back every value it held.
    pub fn into_values(self) -> (r: Vec<T>)
        requires
            self.wf(),
        ensures
            r@.len() == self@.dom().len(),
            r@ == self.entries_view().map_values(|e: (NodeId, T)| e.1),
            entry_keys(self.entries_view()).no_duplicates(),
            entry_keys(self.entries_view()).to_set() == self@.dom(),
            forall|i: int|
                0 <= i < r@.len() ==> r@[i] == self@[#[trigger] entry_keys(self.entries_view())[i]],
    {
        let mut entries = self.entries;
        let ghost s = entries@;
        let mut values: Vec<T> = Vec::new();
        let mut idx: usize = 0;
        let n = entries.len();
        proof {
            lemma_map_len(s);
            lemma_map_dom(s);
        }
        // take the entries from the back, then restore the order
        let mut rev: Vec<T> = Vec::new();
        while entries.len() > 0
            invariant
                s.len() == n,
                entries@ == s.take(entries@.len() as int),
                rev@.len() + entries@.len() == n,
                forall|j: int| 0 <= j < rev@.len() ==> #[trigger] rev@[j] == s[n - 1 - j].1,
            decreases entries@.len(),
        {
            let (_, v) = entries.pop().unwrap();
            rev.push(v);
            assert(entries@ =~= s.take(entries@.len() as int));
        }
        while idx < n
            invariant
                s.len() == n,
                idx <= n,
                rev@.len() == n - idx,
                forall|j: int| 0 <= j < n - idx ==> #[trigger] rev@[j] == s[n - 1 - j].1,
                values@.len() == idx,
                forall|j: int| 0 <= j < idx ==> #[trigger] values@[j] == s[j].1,
            decreases n - idx,
        {
            let ghost last = (n - idx - 1) as int;
            assert(rev@[last] == s[idx as int].1);
            let v = rev.pop().unwrap();
            values.push(v);
            idx = idx + 1;
        }
        proof {
            let ks = entry_keys(s);
            assert(values@ =~= s.map_values(|e: (NodeId, T)| e.1));
            assert forall|i: int, j: int| 0 <= i < ks.len() && 0 <= j < ks.len() && i != j implies ks[i]
                != ks[j] by {
                assert(s[i].0@ != s[j].0@);
            }
            assert forall|i: int| 0 <= i < values@.len() implies values@[i] == entries_to_map(s)[#[trigger] ks[i]] by {
                lemma_entry_in_map(s, i);
            }
        }
        values
    }
}

impl<T> View for NodeMap<T> {
    type V = Map<Seq<u8>, T>;

    open spec fn view(&self) -> Map<Seq<u8>, T> {
        entries_to_map(self.entries_view())
    }
}

} // verus!
