//! A small keyed table with an exact mathematical model.
use vstd::prelude::*;

verus! {

/// A key that can be told apart from another one at run time.
pub trait TableKey: Copy {
    fn same_key(&self, other: &Self) -> (same: bool)
        ensures
            same == (*self == *other),
    ;
}

impl TableKey for u32 {
    fn same_key(&self, other: &Self) -> (same: bool) {
        *self == *other
    }
}

/// A map from keys to values that keeps each key once.
pub struct Table<K, V> {
    rows: Vec<(K, V)>,
}

impl<K, V> View for Table<K, V> {
    type V = Map<K, V>;

    closed spec fn view(&self) -> Map<K, V> {
        rows_map(self.rows@)
    }
}

closed spec fn rows_map<K, V>(rows: Seq<(K, V)>) -> Map<K, V>
    decreases rows.len(),
{
    if rows.len() == 0 {
        Map::empty()
    } else {
        rows_map(rows.drop_last()).insert(rows.last().0, rows.last().1)
    }
}

spec fn rows_unique<K, V>(rows: Seq<(K, V)>) -> bool {
    forall|i: int, j: int|
        0 <= i < j < rows.len() ==> (#[trigger] rows[i]).0 != (#[trigger] rows[j]).0
}

proof fn lemma_rows_map<K, V>(rows: Seq<(K, V)>)
    requires
        rows_unique(rows),
    ensures
        rows_map(rows).dom().finite(),
        rows_map(rows).len() == rows.len(),
        forall|i: int|
            0 <= i < rows.len() ==> rows_map(rows).contains_key((#[trigger] rows[i]).0)
                && rows_map(rows)[rows[i].0] == rows[i].1,
        forall|key: K| #[trigger]
            rows_map(rows).contains_key(key) ==> exists|i: int|
                0 <= i < rows.len() && (#[trigger] rows[i]).0 == key,
    decreases rows.len(),
{
    if rows.len() > 0 {
        let rest = rows.drop_last();
        assert forall|i: int, j: int| 0 <= i < j < rest.len() implies (#[trigger] rest[i]).0 != (
        #[trigger] rest[j]).0 by {
            assert(rest[i] == rows[i] && rest[j] == rows[j]);
        }
        lemma_rows_map(rest);
        let last = rows.last();
        if rows_map(rest).contains_key(last.0) {
            let i = choose|i: int| 0 <= i < rest.len() && (#[trigger] rest[i]).0 == last.0;
            assert(rest[i] == rows[i]);
            assert(rows[i].0 != rows[rows.len() - 1].0);
        }
        assert forall|i: int| 0 <= i < rows.len() implies rows_map(rows).contains_key(
            (#[trigger] rows[i]).0,
        ) && rows_map(rows)[rows[i].0] == rows[i].1 by {
            if i < rest.len() {
                assert(rest[i] == rows[i]);
                assert(rows[i].0 != rows[rows.len() - 1].0);
            }
        }
        assert forall|key: K| #[trigger] rows_map(rows).contains_key(key) implies exists|i: int|
            0 <= i < rows.len() && (#[trigger] rows[i]).0 == key by {
            if key == last.0 {
                assert(rows[rows.len() - 1].0 == key);
            } else {
                let i = choose|i: int| 0 <= i < rest.len() && (#[trigger] rest[i]).0 == key;
                assert(rows[i] == rest[i]);
            }
        }
    }
}

impl<K, V> Table<K, V> {
    /// Each key stands once.
    pub closed spec fn wf(&self) -> bool {
        rows_unique(self.rows@)
    }
}

impl<K: TableKey, V> Table<K, V> {
    pub fn new() -> (table: Self)
        ensures
            table.wf(),
            table@ == Map::<K, V>::empty(),
    {
        Table { rows: Vec::new() }
    }

    pub fn len(&self) -> (count: usize)
        requires
            self.wf(),
        ensures
            self@.dom().finite(),
            count == self@.len(),
    {
        proof {
            lemma_rows_map(self.rows@);
        }
        self.rows.len()
    }

    #[verifier::loop_isolation(false)]
    fn position(&self, key: &K) -> (found: Option<usize>)
        requires
            self.wf(),
        ensures
            found is Some == self@.contains_key(*key),
            found matches Some(i) ==> i < self.rows@.len() && self.rows@[i as int].0 == *key
                && self@[*key] == self.rows@[i as int].1,
    {
        proof {
            lemma_rows_map(self.rows@);
        }
        let mut i: usize = 0;
        while i < self.rows.len()
            invariant
                i <= self.rows@.len(),
                forall|j: int| 0 <= j < i ==> (#[trigger] self.rows@[j]).0 != *key,
            decreases self.rows@.len() - i,
        {
            if self.rows[i].0.same_key(key) {
                return Some(i);
            }
            i += 1;
        }
        None
    }

    pub fn contains(&self, key: &K) -> (found: bool)
        requires
            self.wf(),
        ensures
            found == self@.contains_key(*key),
    {
        self.position(key).is_some()
    }

    pub fn get(&self, key: &K) -> (found: Option<&V>)
        requires
            self.wf(),
        ensures
            found is Some == self@.contains_key(*key),
            found matches Some(value) ==> *value == self@[*key],
    {
        match self.position(key) {
            Some(i) => Some(&self.rows[i].1),
            None => None,
        }
    }

    pub fn remove(&mut self, key: &K) -> (removed: Option<V>)
        requires
            old(self).wf(),
        ensures
            final(self).wf(),
            final(self)@ == old(self)@.remove(*key),
            removed is Some == old(self)@.contains_key(*key),
            removed matches Some(value) ==> value == old(self)@[*key],
    {
        match self.position(key) {
            Some(i) => {
                proof {
                    lemma_rows_remove(self.rows@, i as int);
                }
                let row = self.rows.remove(i);
                Some(row.1)
            },
            None => {
                assert(self@.remove(*key) =~= self@);
                None
            },
        }
    }

    pub fn insert(&mut self, key: K, value: V) -> (replaced: Option<V>)
        requires
            old(self).wf(),
        ensures
            final(self).wf(),
            final(self)@ == old(self)@.insert(key, value),
            replaced is Some == old(self)@.contains_key(key),
            replaced matches Some(previous) ==> previous == old(self)@[key],
    {
        let replaced = self.remove(&key);
        proof {
            lemma_rows_map(self.rows@);
            assert forall|i: int| 0 <= i < self.rows@.len() implies (#[trigger] self.rows@[i]).0
                != key by {
                assert(self@.contains_key(self.rows@[i].0));
            }
            assert(self.rows@.push((key, value)).drop_last() =~= self.rows@);
            assert(self@.insert(key, value) =~= old(self)@.insert(key, value));
        }
        self.rows.push((key, value));
        replaced
    }

    /// Drops every row whose key is not among `keys`.
    pub fn retain_keys(&mut self, keys: &Vec<K>)
        requires
            old(self).wf(),
        ensures
            final(self).wf(),
            final(self)@ == old(self)@.restrict(keys@.to_set()),
    {
        let ghost before = self@;
        let ghost all = self.rows@;
        let mut i: usize = 0;
        proof {
            lemma_rows_map(all);
        }
        while i < self.rows.len()
            invariant
                self.wf(),
                before == rows_map(all),
                i <= self.rows@.len(),
                self@.submap_of(before),
                forall|j: int| 0 <= j < i ==> keys@.contains((#[trigger] self.rows@[j]).0),
                forall|key: K| #[trigger]
                    before.contains_key(key) && keys@.contains(key) ==> self@.contains_key(key),
            decreases self.rows@.len() - i,
        {
            proof {
                lemma_rows_map(self.rows@);
            }
            if contains_key_in(keys, &self.rows[i].0) {
                i += 1;
            } else {
                let ghost rows = self.rows@;
                proof {
                    lemma_rows_remove(rows, i as int);
                }
                self.rows.remove(i);
                assert forall|j: int| 0 <= j < i implies keys@.contains(
                    (#[trigger] self.rows@[j]).0,
                ) by {
                    assert(self.rows@[j] == rows[j]);
                }
            }
        }
        proof {
            lemma_rows_map(self.rows@);
            assert(self@ =~= before.restrict(keys@.to_set())) by {
                assert forall|key: K| self@.contains_key(key) implies keys@.contains(key) by {
                    let j = choose|j: int| 0 <= j < self.rows@.len() && (#[trigger] self.rows@[j]).0
                        == key;
                    assert(keys@.contains(self.rows@[j].0));
                }
            }
        }
    }

    pub fn clear(&mut self)
        ensures
            final(self).wf(),
            final(self)@ == Map::<K, V>::empty(),
    {
        self.rows.clear();
    }
}

fn contains_key_in<K: TableKey>(keys: &Vec<K>, key: &K) -> (found: bool)
    ensures
        found == keys@.contains(*key),
{
    let mut i: usize = 0;
    while i < keys.len()
        invariant
            i <= keys@.len(),
            forall|j: int| 0 <= j < i ==> keys@[j] != *key,
        decreases keys@.len() - i,
    {
        if keys[i].same_key(key) {
            assert(keys@[i as int] == *key);
            return true;
        }
        i += 1;
    }
    false
}

proof fn lemma_rows_remove<K, V>(rows: Seq<(K, V)>, at: int)
    requires
        rows_unique(rows),
        0 <= at < rows.len(),
    ensures
        rows_unique(rows.remove(at)),
        rows_map(rows.remove(at)) == rows_map(rows).remove(rows[at].0),
{
    let rest = rows.remove(at);
    assert forall|i: int, j: int| 0 <= i < j < rest.len() implies (#[trigger] rest[i]).0 != (
    #[trigger] rest[j]).0 by {
        let p = if i < at { i } else { i + 1 };
        let q = if j < at { j } else { j + 1 };
        assert(rest[i] == rows[p] && rest[j] == rows[q]);
    }
    lemma_rows_map(rows);
    lemma_rows_map(rest);
    let whole = rows_map(rows).remove(rows[at].0);
    let part = rows_map(rest);
    assert forall|key: K| part.contains_key(key) <==> whole.contains_key(key) by {
        if part.contains_key(key) {
            let i = choose|i: int| 0 <= i < rest.len() && (#[trigger] rest[i]).0 == key;
            let p = if i < at { i } else { i + 1 };
            assert(rest[i] == rows[p]);
            if p < at {
                assert(rows[p].0 != rows[at].0);
            } else {
                assert(rows[at].0 != rows[p].0);
            }
        }
        if whole.contains_key(key) {
            let p = choose|p: int| 0 <= p < rows.len() && (#[trigger] rows[p]).0 == key;
            let i = if p < at { p } else { p - 1 };
            assert(rest[i] == rows[p]);
        }
    }
    assert forall|key: K| part.contains_key(key) implies part[key] == whole[key] by {
        let i = choose|i: int| 0 <= i < rest.len() && (#[trigger] rest[i]).0 == key;
        let p = if i < at { i } else { i + 1 };
        assert(rest[i] == rows[p]);
        assert(whole.contains_key(key));
    }
    assert(part =~= whole);
}

} // verus!
