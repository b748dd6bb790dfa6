//! Display-name registry of the server.
//!
//! Maps each connection's canonical identity (its transport-level
//! address as text) to the display name it chose. Names need not be
//! unique across connections; identities are. The room shares one
//! registry; callers keep its critical sections free of I/O.

use vstd::prelude::*;

verus! {

/// The registry as a mathematical map from identity to display name.
pub open spec fn map_of(s: Seq<(String, String)>) -> Map<Seq<char>, Seq<char>>
    decreases s.len(),
{
    if s.len() == 0 {
        Map::empty()
    } else {
        map_of(s.drop_last()).insert(s.last().0@, s.last().1@)
    }
}

/// No identity occurs twice.
pub open spec fn idents_unique(s: Seq<(String, String)>) -> bool {
    forall|i: int, j: int| 0 <= i < j < s.len() ==> (#[trigger] s[i]).0@ != (#[trigger] s[j]).0@
}

/// Concurrency-safe display-name store, one per room.
pub struct Registry {
    entries: Vec<(String, String)>,
}

impl View for Registry {
    type V = Map<Seq<char>, Seq<char>>;

    closed spec fn view(&self) -> Map<Seq<char>, Seq<char>> {
        map_of(self.entries@)
    }
}

/// An identity is in the map exactly when some entry carries it.
proof fn lemma_contains(s: Seq<(String, String)>, x: Seq<char>)
    ensures
        map_of(s).contains_key(x) <==> exists|i: int| 0 <= i < s.len() && (#[trigger] s[i]).0@
            == x,
    decreases s.len(),
{
    if s.len() > 0 {
        lemma_contains(s.drop_last(), x);
        if map_of(s).contains_key(x) {
            if s.last().0@ != x {
                let i = choose|i: int| 0 <= i < s.drop_last().len() && (#[trigger] s.drop_last()[
                    i]).0@ == x;
                assert(s[i].0@ == x);
            }
        }
        if exists|i: int| 0 <= i < s.len() && (#[trigger] s[i]).0@ == x {
            let i = choose|i: int| 0 <= i < s.len() && (#[trigger] s[i]).0@ == x;
            if i < s.len() - 1 {
                assert(s.drop_last()[i].0@ == x);
            }
        }
    }
}

/// With unique identities, the entry holding an identity gives its
/// name in the map.
proof fn lemma_entry_value(s: Seq<(String, String)>, i: int)
    requires
        idents_unique(s),
        0 <= i < s.len(),
    ensures
        map_of(s).contains_key(s[i].0@),
        map_of(s)[s[i].0@] == s[i].1@,
    decreases s.len(),
{
    if i == s.len() - 1 {
    } else {
        assert(s.drop_last()[i] == s[i]);
        lemma_entry_value(s.drop_last(), i);
        assert(s.last().0@ != s[i].0@);
    }
}

/// Replacing the name inside the entry that holds an identity is an
/// insert on the map.
proof fn lemma_update_entry(s: Seq<(String, String)>, i: int, e: (String, String))
    requires
        idents_unique(s),
        0 <= i < s.len(),
        e.0@ == s[i].0@,
    ensures
        map_of(s.update(i, e)) == map_of(s).insert(e.0@, e.1@),
    decreases s.len(),
{
    if i == s.len() - 1 {
        assert(s.update(i, e).drop_last() =~= s.drop_last());
        assert(map_of(s.update(i, e)) =~= map_of(s).insert(e.0@, e.1@));
    } else {
        assert(s.update(i, e).drop_last() =~= s.drop_last().update(i, e));
        lemma_update_entry(s.drop_last(), i, e);
        assert(s.last().0@ != e.0@);
        assert(map_of(s.update(i, e)) =~= map_of(s).insert(e.0@, e.1@));
    }
}

/// Removing the entry that holds an identity removes it from the map.
proof fn lemma_remove_entry(s: Seq<(String, String)>, i: int)
    requires
        idents_unique(s),
        0 <= i < s.len(),
    ensures
        map_of(s.remove(i)) == map_of(s).remove(s[i].0@),
    decreases s.len(),
{
    if i == s.len() - 1 {
        assert(s.remove(i) =~= s.drop_last());
        lemma_contains(s.drop_last(), s[i].0@);
        assert(map_of(s.remove(i)) =~= map_of(s).remove(s[i].0@));
    } else {
        assert(s.remove(i).drop_last() =~= s.drop_last().remove(i));
        lemma_remove_entry(s.drop_last(), i);
        assert(s.last().0@ != s[i].0@);
        assert(map_of(s.remove(i)) =~= map_of(s).remove(s[i].0@));
    }
}

impl Registry {
    /// Identities stay pairwise distinct.
    pub closed spec fn wf(&self) -> bool {
        idents_unique(self.entries@)
    }

    /// An empty registry.
    pub fn new() -> (r: Self)
        ensures
            r.wf(),
            r@ == Map::<Seq<char>, Seq<char>>::empty(),
    {
        Registry { entries: Vec::new() }
    }

    /// Record `name` for `identity`, replacing any earlier name.
    pub fn set(&mut self, identity: &String, name: String)
        requires
            old(self).wf(),
        ensures
            final(self).wf(),
            final(self)@ == old(self)@.insert(identity@, name@),
    {
        let n = self.entries.len();
        let mut k: usize = 0;
        while k < n
            invariant
                n == self.entries@.len(),
                k <= n,
                idents_unique(self.entries@),
                self.entries@ == old(self).entries@,
                forall|j: int| 0 <= j < k ==> (#[trigger] self.entries@[j]).0@ != identity@,
            decreases n - k,
        {
            if self.entries[k].0 == *identity {
                let e = (identity.clone(), name);
                proof {
                    lemma_update_entry(self.entries@, k as int, e);
                    assert(forall|i: int, j: int|
                        0 <= i < j < self.entries@.update(k as int, e).len() ==> (
                        #[trigger] self.entries@.update(k as int, e)[i]).0@ != (
                        #[trigger] self.entries@.update(k as int, e)[j]).0@);
                }
                self.entries[k] = e;
                return ;
            }
            k = k + 1;
        }
        proof {
            lemma_contains(self.entries@, identity@);
        }
        let e = (identity.clone(), name);
        proof {
            assert(self.entries@.push(e).drop_last() =~= self.entries@);
            assert(forall|i: int|
                0 <= i < self.entries@.len() ==> (#[trigger] self.entries@.push(e)[i])
                    == self.entries@[i]);
        }
        self.entries.push(e);
    }

    /// The name recorded for `identity`, if any.
    pub fn get(&self, identity: &String) -> (r: Option<String>)
        requires
            self.wf(),
        ensures
            r is Some <==> self@.contains_key(identity@),
            r matches Some(n) ==> n@ == self@[identity@],
    {
        let n = self.entries.len();
        let mut k: usize = 0;
        while k < n
            invariant
                self.wf(),
                n == self.entries@.len(),
                k <= n,
                forall|j: int| 0 <= j < k ==> (#[trigger] self.entries@[j]).0@ != identity@,
            decreases n - k,
        {
            if self.entries[k].0 == *identity {
                proof {
                    lemma_entry_value(self.entries@, k as int);
                }
                return Some(self.entries[k].1.clone());
            }
            k = k + 1;
        }
        proof {
            lemma_contains(self.entries@, identity@);
        }
        None
    }

    /// Drop the record for `identity`, handing back the name it held.
    pub fn remove(&mut self, identity: &String) -> (r: Option<String>)
        requires
            old(self).wf(),
        ensures
            final(self).wf(),
            final(self)@ == old(self)@.remove(identity@),
            r is Some <==> old(self)@.contains_key(identity@),
            r matches Some(n) ==> n@ == old(self)@[identity@],
    {
        let n = self.entries.len();
        let mut k: usize = 0;
        while k < n
            invariant
                self.wf(),
                n == self.entries@.len(),
                self.entries@ == old(self).entries@,
                k <= n,
                forall|j: int| 0 <= j < k ==> (#[trigger] self.entries@[j]).0@ != identity@,
            decreases n - k,
        {
            if self.entries[k].0 == *identity {
                proof {
                    lemma_entry_value(self.entries@, k as int);
                    lemma_remove_entry(self.entries@, k as int);
                    assert(forall|i: int, j: int|
                        0 <= i < j < self.entries@.remove(k as int).len() ==> (
                        #[trigger] self.entries@.remove(k as int)[i]).0@ != (
                        #[trigger] self.entries@.remove(k as int)[j]).0@);
                }
                let e = self.entries.remove(k);
                return Some(e.1);
            }
            k = k + 1;
        }
        proof {
            lemma_contains(self.entries@, identity@);
            assert(old(self)@.remove(identity@) =~= old(self)@);
        }
        None
    }
}

} // verus!
