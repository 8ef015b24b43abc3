//! A small map from text keys to copyable values, kept as a vector of records in which the last
//! record stored under a key is the one that counts; forgetting a key drops its records.
use vstd::prelude::*;
use vstd::string::*;
use crate::text::str_eq;

verus! {

broadcast use vstd::string::group_string_axioms;

/// Index of the last record stored under key `k`, or -1.
pub open spec fn last_index_of<V>(items: Seq<(String, Option<V>)>, k: Seq<char>) -> int
    decreases items.len(),
{
    if items.len() == 0 {
        -1
    } else if items.last().0@ == k {
        items.len() - 1
    } else {
        last_index_of(items.drop_last(), k)
    }
}

proof fn lemma_last_index_found<V>(items: Seq<(String, Option<V>)>, k: Seq<char>)
    ensures
        -1 <= last_index_of(items, k) < items.len(),
        last_index_of(items, k) >= 0 ==> items[last_index_of(items, k)].0@ == k,
    decreases items.len(),
{
    if items.len() > 0 && items.last().0@ != k {
        lemma_last_index_found(items.drop_last(), k);
    }
}

proof fn lemma_last_index_same_keys<V>(
    a: Seq<(String, Option<V>)>,
    b: Seq<(String, Option<V>)>,
    k: Seq<char>,
)
    requires
        a.len() == b.len(),
        forall|i: int| 0 <= i < a.len() ==> #[trigger] a[i].0@ == b[i].0@,
    ensures
        last_index_of(a, k) == last_index_of(b, k),
    decreases a.len(),
{
    if a.len() > 0 {
        assert(a.last().0@ == b.last().0@);
        lemma_last_index_same_keys(a.drop_last(), b.drop_last(), k);
    }
}

/// The value that the last record under `k` holds, if any.
pub open spec fn lookup<V>(items: Seq<(String, Option<V>)>, k: Seq<char>) -> Option<V> {
    let i = last_index_of(items, k);
    if i < 0 {
        None
    } else {
        items[i].1
    }
}

/// Dropping a record under another key does not change what `k` finds.
proof fn lemma_lookup_remove<V>(items: Seq<(String, Option<V>)>, i: int, k: Seq<char>)
    requires
        0 <= i < items.len(),
        items[i].0@ != k,
    ensures
        lookup(items.remove(i), k) == lookup(items, k),
    decreases items.len(),
{
    let r = items.remove(i);
    lemma_last_index_found(items, k);
    lemma_last_index_found(r, k);
    if i == items.len() - 1 {
        assert(r =~= items.drop_last());
    } else {
        assert(r.last() == items.last());
        assert(r.drop_last() =~= items.drop_last().remove(i));
        if items.last().0@ != k {
            lemma_lookup_remove(items.drop_last(), i, k);
            lemma_last_index_found(items.drop_last(), k);
            lemma_last_index_found(r.drop_last(), k);
        }
    }
}

/// Values by text key.
pub struct KeyedStore<V> {
    items: Vec<(String, Option<V>)>,
}

impl<V: Copy> KeyedStore<V> {
    /// The value kept for key `k`, if any.
    pub closed spec fn entry_of(self, k: Seq<char>) -> Option<V> {
        lookup(self.items@, k)
    }

    /// A store that holds nothing.
    pub fn new() -> (r: Self)
        ensures
            forall|k: Seq<char>| r.entry_of(k) is None,
    {
        KeyedStore { items: Vec::new() }
    }

    fn find_key(&self, key: &str) -> (r: Option<usize>)
        ensures
            r matches Some(i) ==> i < self.items.len() && last_index_of(self.items@, key@) == i,
            r is None ==> last_index_of(self.items@, key@) == -1,
    {
        let mut i = self.items.len();
        assert(self.items@.take(i as int) =~= self.items@);
        while i > 0
            invariant
                i <= self.items.len(),
                last_index_of(self.items@.take(i as int), key@) == last_index_of(self.items@, key@),
            decreases i,
        {
            assert(self.items@.take(i as int).drop_last() =~= self.items@.take(i - 1));
            if str_eq(self.items[i - 1].0.as_str(), key) {
                return Some(i - 1);
            }
            i -= 1;
        }
        None
    }

    /// The value kept for `key`.
    pub fn get(&self, key: &str) -> (r: Option<V>)
        ensures
            r == self.entry_of(key@),
    {
        match self.find_key(key) {
            Some(i) => self.items[i].1,
            None => None,
        }
    }

    /// Keeps `v` for `key` (`None` forgets it); other keys keep theirs.
    pub fn put(&mut self, key: &str, v: Option<V>)
        ensures
            final(self).entry_of(key@) == v,
            forall|k: Seq<char>| k != key@ ==> final(self).entry_of(k) == old(self).entry_of(k),
    {
        if v.is_none() {
            self.remove(key);
            return;
        }
        let ghost before = self.items@;
        match self.find_key(key) {
            Some(i) => {
                let name = String::from_str(key);
                proof { lemma_last_index_found(before, key@); }
                self.items.set(i, (name, v));
                proof {
                    assert forall|j: int| 0 <= j < self.items@.len() implies #[trigger] self.items@[j].0@ == before[j].0@ by {
                        if j == i {
                            assert(self.items@[j].0@ == key@);
                        }
                    }
                    assert forall|k: Seq<char>| k != key@ implies self.entry_of(k) == old(self).entry_of(k) by {
                        lemma_last_index_same_keys(self.items@, before, k);
                        lemma_last_index_found(before, k);
                    }
                    lemma_last_index_same_keys(self.items@, before, key@);
                }
            },
            None => {
                self.items.push((String::from_str(key), v));
                proof {
                    assert(self.items@.drop_last() =~= before);
                    assert forall|k: Seq<char>| k != key@ implies self.entry_of(k) == old(self).entry_of(k) by {
                        lemma_last_index_found(before, k);
                    }
                }
            },
        }
    }

    /// Forgets `key`, dropping its records; other keys keep theirs.
    pub fn remove(&mut self, key: &str)
        ensures
            final(self).entry_of(key@) is None,
            forall|k: Seq<char>| k != key@ ==> final(self).entry_of(k) == old(self).entry_of(k),
    {
        let ghost start = self.items@;
        loop
            invariant
                forall|k: Seq<char>| k != key@ ==> lookup(self.items@, k) == lookup(start, k),
            ensures
                last_index_of(self.items@, key@) == -1,
            decreases self.items.len(),
        {
            match self.find_key(key) {
                Some(i) => {
                    let ghost before = self.items@;
                    proof { lemma_last_index_found(before, key@); }
                    self.items.remove(i);
                    proof {
                        assert(self.items@ == before.remove(i as int));
                        assert forall|k: Seq<char>| k != key@ implies lookup(self.items@, k) == lookup(start, k) by {
                            lemma_lookup_remove(before, i as int, k);
                        }
                    }
                },
                None => {
                    break;
                },
            }
        }
    }
}

} // verus!
