//! A small map from names to values, kept as a vector of pairs in which no
//! name occurs twice (a type invariant); it stands for the
//! `HashMap<String, _>` lookups of the status and colour tables.
use vstd::prelude::*;
use crate::text::{chars_eq, chars_of};

verus! {

/// Values keyed by name; a name occurs at most once.
pub struct NameMap<V> {
    entries: Vec<(String, V)>,
}

/// The map of a list of (name, value) pairs: later pairs win.
pub open spec fn pairs_map<V>(v: Seq<(String, V)>) -> Map<Seq<char>, V>
    decreases v.len(),
{
    if v.len() == 0 {
        Map::empty()
    } else {
        pairs_map(v.drop_last()).insert(v.last().0@, v.last().1)
    }
}

/// No name occurs twice in `v`.
pub open spec fn unique_names<V>(v: Seq<(String, V)>) -> bool {
    forall|i: int, j: int| 0 <= i < j < v.len() ==> v[i].0@ != v[j].0@
}

proof fn lemma_pairs_map_update<V>(v: Seq<(String, V)>, i: int, e: (String, V))
    requires
        unique_names(v),
        0 <= i < v.len(),
        v[i].0@ == e.0@,
    ensures
        pairs_map(v.update(i, e)) == pairs_map(v).insert(e.0@, e.1),
        unique_names(v.update(i, e)),
    decreases v.len(),
{
    let w = v.update(i, e);
    if i == v.len() - 1 {
        assert(w.drop_last() =~= v.drop_last());
        assert(pairs_map(w) =~= pairs_map(v).insert(e.0@, e.1));
    } else {
        assert(w.drop_last() =~= v.drop_last().update(i, e));
        assert(unique_names(v.drop_last()));
        lemma_pairs_map_update(v.drop_last(), i, e);
        assert(v.last().0@ != e.0@);
        assert(pairs_map(w) =~= pairs_map(v).insert(e.0@, e.1));
    }
}

proof fn lemma_pairs_map_absent<V>(v: Seq<(String, V)>, k: Seq<char>)
    requires
        forall|i: int| 0 <= i < v.len() ==> (#[trigger] v[i]).0@ != k,
    ensures
        !pairs_map(v).dom().contains(k),
    decreases v.len(),
{
    if v.len() > 0 {
        lemma_pairs_map_absent(v.drop_last(), k);
    }
}

proof fn lemma_pairs_map_at<V>(v: Seq<(String, V)>, i: int)
    requires
        unique_names(v),
        0 <= i < v.len(),
    ensures
        pairs_map(v).dom().contains(v[i].0@),
        pairs_map(v)[v[i].0@] == v[i].1,
    decreases v.len(),
{
    if i < v.len() - 1 {
        lemma_pairs_map_at(v.drop_last(), i);
    }
}

impl<V> NameMap<V> {
    /// Every name occurs once.
    #[verifier::type_invariant]
    spec fn names_unique(&self) -> bool {
        unique_names(self.entries@)
    }
}

impl<V: Copy> NameMap<V> {
    /// The name-to-value map.
    pub closed spec fn view_map(&self) -> Map<Seq<char>, V> {
        pairs_map(self.entries@)
    }

    /// An empty map.
    pub fn new() -> (r: Self)
        ensures
            r.view_map() == Map::<Seq<char>, V>::empty(),
    {
        NameMap { entries: Vec::new() }
    }

    /// Sets the value of `name` (`HashMap::insert`).
    pub fn insert(&mut self, name: String, value: V)
        ensures
            final(self).view_map() == old(self).view_map().insert(name@, value),
    {
        proof {
            use_type_invariant(&*self);
        }
        let ghost old_v = self.entries@;
        let ghost key = name@;
        let mut v: Vec<(String, V)> = Vec::new();
        std::mem::swap(&mut v, &mut self.entries);
        let ghost cur = *self;
        let nv = chars_of(name.as_str());
        let mut i: usize = 0;
        while i < v.len()
            invariant
                i <= v.len(),
                *self == cur,
                old_v == old(self).entries@,
                nv@ == key,
                key == name@,
                v@ == old_v,
                unique_names(old_v),
                forall|k: int| 0 <= k < i ==> (#[trigger] old_v[k]).0@ != key,
            decreases v.len() - i,
        {
            let kv = chars_of(v[i].0.as_str());
            if chars_eq(&kv, &nv) {
                proof {
                    lemma_pairs_map_update(v@, i as int, (name, value));
                }
                v.set(i, (name, value));
                self.entries = v;
                return;
            }
            i += 1;
        }
        proof {
            let w = old_v.push((name, value));
            assert(w.drop_last() =~= old_v);
            assert forall|a: int, b: int| 0 <= a < b < w.len() implies w[a].0@ != w[b].0@ by {
                assert(w[a] == old_v[a]);
                if b < old_v.len() {
                    assert(w[b] == old_v[b]);
                }
            }
        }
        v.push((name, value));
        assert(v@.drop_last() =~= old_v);
        self.entries = v;
    }

    /// The value of `name`, if any (`HashMap::get`).
    pub fn get(&self, name: &str) -> (r: Option<V>)
        ensures
            self.view_map().dom().contains(name@) ==> r == Some(self.view_map()[name@]),
            !self.view_map().dom().contains(name@) ==> r is None,
    {
        let nv = chars_of(name);
        self.get_chars(&nv)
    }

    /// The value of the name with characters `nv`, if any.
    pub fn get_chars(&self, nv: &[char]) -> (r: Option<V>)
        ensures
            self.view_map().dom().contains(nv@) ==> r == Some(self.view_map()[nv@]),
            !self.view_map().dom().contains(nv@) ==> r is None,
    {
        proof {
            use_type_invariant(self);
        }
        let mut i: usize = 0;
        while i < self.entries.len()
            invariant
                i <= self.entries.len(),
                unique_names(self.entries@),
                forall|k: int| 0 <= k < i ==> (#[trigger] self.entries@[k]).0@ != nv@,
            decreases self.entries.len() - i,
        {
            let kv = chars_of(self.entries[i].0.as_str());
            if chars_eq(&kv, nv) {
                proof {
                    lemma_pairs_map_at(self.entries@, i as int);
                }
                return Some(self.entries[i].1);
            }
            i += 1;
        }
        proof {
            lemma_pairs_map_absent(self.entries@, nv@);
        }
        None
    }

    /// Whether `name` has a value (`HashMap::contains_key`).
    pub fn contains_key(&self, name: &str) -> (r: bool)
        ensures
            r == self.view_map().dom().contains(name@),
    {
        match self.get(name) {
            Some(_) => true,
            None => false,
        }
    }
}

} // verus!
