//! A small keyed table: text keys, each present at most once.

use vstd::prelude::*;

verus! {

/// The value stored under `key` in `rows`, if any.
spec fn lookup<V>(rows: Seq<(String, V)>, key: Seq<char>) -> Option<V>
    decreases rows.len(),
{
    if rows.len() == 0 {
        None
    } else if rows.last().0@ == key {
        Some(rows.last().1)
    } else {
        lookup(rows.drop_last(), key)
    }
}

/// No key occurs in two rows.
spec fn distinct_keys<V>(rows: Seq<(String, V)>) -> bool {
    forall|i: int, j: int| 0 <= i < j < rows.len() ==> (#[trigger] rows[i]).0@ != (#[trigger] rows[j]).0@
}

/// A key is found exactly when some row carries it, and then with that row's value.
proof fn lookup_finds<V>(rows: Seq<(String, V)>, key: Seq<char>)
    ensures
        lookup(rows, key) is Some <==> exists|i: int| 0 <= i < rows.len() && (#[trigger] rows[i]).0@ == key,
        forall|i: int|
            0 <= i < rows.len() && (#[trigger] rows[i]).0@ == key && distinct_keys(rows) ==> lookup(rows, key)
                == Some(rows[i].1),
    decreases rows.len(),
{
    if rows.len() > 0 {
        let init = rows.drop_last();
        lookup_finds(init, key);
        if rows.last().0@ == key {
            assert(rows[rows.len() - 1].0@ == key);
        } else {
            if lookup(init, key) is Some {
                let i = choose|i: int| 0 <= i < init.len() && (#[trigger] init[i]).0@ == key;
                assert(rows[i] == init[i]);
            }
            assert forall|i: int| 0 <= i < rows.len() && (#[trigger] rows[i]).0@ == key implies 0 <= i
                < init.len() && init[i].0@ == key by {}
            assert forall|i: int|
                0 <= i < rows.len() && (#[trigger] rows[i]).0@ == key && distinct_keys(rows) implies lookup(
                rows,
                key,
            ) == Some(rows[i].1) by {
                assert(init[i] == rows[i]);
                assert(distinct_keys(init)) by {
                    assert forall|a: int, b: int| 0 <= a < b < init.len() implies (#[trigger] init[a]).0@ != (
                    #[trigger] init[b]).0@ by {
                        assert(init[a] == rows[a] && init[b] == rows[b]);
                    }
                }
            }
        }
    }
}

/// Appending a row under a fresh key adds that key and changes no other.
proof fn lookup_after_push<V>(rows: Seq<(String, V)>, key: String, value: V, other: Seq<char>)
    ensures
        lookup(rows.push((key, value)), other) == if other == key@ {
            Some(value)
        } else {
            lookup(rows, other)
        },
        distinct_keys(rows) && lookup(rows, key@) is None ==> distinct_keys(rows.push((key, value))),
{
    let now = rows.push((key, value));
    assert(now.drop_last() =~= rows);
    if distinct_keys(rows) && lookup(rows, key@) is None {
        lookup_finds(rows, key@);
        assert forall|i: int, j: int| 0 <= i < j < now.len() implies (#[trigger] now[i]).0@ != (
        #[trigger] now[j]).0@ by {
            if j < rows.len() {
                assert(now[i] == rows[i] && now[j] == rows[j]);
            } else {
                assert(now[i] == rows[i]);
            }
        }
    }
}

/// Taking a row out removes its key and changes no other.
proof fn lookup_after_remove<V>(rows: Seq<(String, V)>, at: int, other: Seq<char>)
    requires
        distinct_keys(rows),
        0 <= at < rows.len(),
    ensures
        distinct_keys(rows.remove(at)),
        lookup(rows.remove(at), other) == if other == rows[at].0@ {
            None
        } else {
            lookup(rows, other)
        },
{
    let now = rows.remove(at);
    assert forall|i: int| 0 <= i < now.len() implies #[trigger] now[i] == rows[if i < at { i } else { i + 1 }] by {}
    assert forall|i: int, j: int| 0 <= i < j < now.len() implies (#[trigger] now[i]).0@ != (#[trigger] now[j]).0@ by {
        let a = if i < at { i } else { i + 1 };
        let b = if j < at { j } else { j + 1 };
        assert(now[i] == rows[a] && now[j] == rows[b]);
    }
    lookup_finds(rows, other);
    lookup_finds(now, other);
    if other == rows[at].0@ {
        if lookup(now, other) is Some {
            let i = choose|i: int| 0 <= i < now.len() && (#[trigger] now[i]).0@ == other;
            let a = if i < at { i } else { i + 1 };
            assert(now[i] == rows[a]);
            assert(rows[a].0@ == rows[at].0@);
            if a < at {
                assert(rows[a].0@ != rows[at].0@);
            } else {
                assert(rows[at].0@ != rows[a].0@);
            }
        }
    } else if lookup(rows, other) is Some {
        let a = choose|a: int| 0 <= a < rows.len() && (#[trigger] rows[a]).0@ == other;
        let i = if a < at { a } else { a - 1 };
        assert(now[i] == rows[a]);
        assert(now[i].0@ == other);
    } else if lookup(now, other) is Some {
        let i = choose|i: int| 0 <= i < now.len() && (#[trigger] now[i]).0@ == other;
        let a = if i < at { i } else { i + 1 };
        assert(now[i] == rows[a]);
        assert(rows[a].0@ == other);
    }
}

/// The keys of rows with distinct keys are as many as the rows.
proof fn keys_are_counted<V>(rows: Seq<(String, V)>)
    requires
        distinct_keys(rows),
    ensures
        Set::new(|k: Seq<char>| lookup(rows, k) is Some).finite(),
        Set::new(|k: Seq<char>| lookup(rows, k) is Some).len() == rows.len(),
    decreases rows.len(),
{
    let keys = Set::new(|k: Seq<char>| lookup(rows, k) is Some);
    if rows.len() == 0 {
        assert(keys =~= Set::<Seq<char>>::empty());
    } else {
        let init = rows.drop_last();
        let last = rows.last().0@;
        assert forall|i: int, j: int| 0 <= i < j < init.len() implies (#[trigger] init[i]).0@ != (
        #[trigger] init[j]).0@ by {
            assert(init[i] == rows[i] && init[j] == rows[j]);
        }
        keys_are_counted(init);
        let before = Set::new(|k: Seq<char>| lookup(init, k) is Some);
        lookup_finds(init, last);
        if lookup(init, last) is Some {
            let i = choose|i: int| 0 <= i < init.len() && (#[trigger] init[i]).0@ == last;
            assert(rows[i] == init[i]);
            assert(rows[i].0@ != rows[rows.len() - 1].0@);
        }
        assert(!before.contains(last));
        assert(keys =~= before.insert(last));
    }
}

/// A table from text keys to values of type `V`.
pub struct Table<V> {
    rows: Vec<(String, V)>,
}

impl<V> Table<V> {
    #[verifier::type_invariant]
    spec fn keys_are_distinct(self) -> bool {
        distinct_keys(self.rows@)
    }

    /// The table as a map from key to value.
    pub closed spec fn view(&self) -> Map<Seq<char>, V> {
        Map::new(|k: Seq<char>| lookup(self.rows@, k) is Some, |k: Seq<char>| lookup(self.rows@, k).unwrap())
    }

    /// An empty table.
    pub fn new() -> (r: Self)
        ensures
            r@ == Map::<Seq<char>, V>::empty(),
    {
        let t = Table { rows: Vec::new() };
        assert(t@ =~= Map::<Seq<char>, V>::empty());
        t
    }

    /// Whether the table has no row.
    pub fn is_empty(&self) -> (r: bool)
        ensures
            r == (self@ == Map::<Seq<char>, V>::empty()),
            !r ==> exists|k: Seq<char>| self@.contains_key(k),
    {
        proof {
            if self.rows@.len() > 0 {
                let k = self.rows@.last().0@;
                assert(lookup(self.rows@, k) is Some);
                assert(self@.dom().contains(k));
            } else {
                assert(self@ =~= Map::<Seq<char>, V>::empty());
            }
        }
        self.rows.len() == 0
    }

    /// The number of rows, which is the number of keys.
    pub fn len(&self) -> (r: usize)
        ensures
            self@.dom().finite(),
            r == self@.dom().len(),
    {
        proof {
            use_type_invariant(self);
            self.rows_are_keys();
        }
        self.rows.len()
    }

    /// The table holds as many keys as rows.
    proof fn rows_are_keys(&self)
        requires
            distinct_keys(self.rows@),
        ensures
            self@.dom().finite(),
            self@.dom().len() == self.rows@.len(),
    {
        keys_are_counted(self.rows@);
        assert(self@.dom() =~= Set::new(|k: Seq<char>| lookup(self.rows@, k) is Some));
    }

    fn position(&self, key: &str) -> (r: Option<usize>)
        ensures
            match r {
                Some(i) => i < self.rows@.len() && self.rows@[i as int].0@ == key@ && lookup(self.rows@, key@)
                    == Some(self.rows@[i as int].1),
                None => lookup(self.rows@, key@) is None,
            },
    {
        proof {
            use_type_invariant(self);
        }
        let wanted = key.to_owned();
        let mut i: usize = 0;
        while i < self.rows.len()
            invariant
                i <= self.rows.len(),
                wanted@ == key@,
                distinct_keys(self.rows@),
                forall|j: int| 0 <= j < i ==> (#[trigger] self.rows@[j]).0@ != key@,
            decreases self.rows.len() - i,
        {
            if self.rows[i].0 == wanted {
                proof {
                    lookup_finds(self.rows@, key@);
                }
                return Some(i);
            }
            i += 1;
        }
        proof {
            lookup_finds(self.rows@, key@);
        }
        None
    }

    /// Adds a row under a key that the table does not hold yet. Where the key is
    /// taken, the table stays as it is and the answer is `false`.
    pub fn insert(&mut self, key: String, value: V) -> (r: bool)
        ensures
            r == !old(self)@.contains_key(key@),
            r ==> final(self)@ == old(self)@.insert(key@, value),
            !r ==> *final(self) == *old(self),
    {
        if self.position(key.as_str()).is_some() {
            return false;
        }
        proof {
            use_type_invariant(&*self);
            assert forall|k: Seq<char>| true implies #[trigger] lookup(self.rows@.push((key, value)), k) == if k
                == key@ {
                Some(value)
            } else {
                lookup(self.rows@, k)
            } by {
                lookup_after_push(self.rows@, key, value, k);
            }
            lookup_after_push(self.rows@, key, value, key@);
        }
        let ghost before = self@;
        let mut rows: Vec<(String, V)> = Vec::new();
        core::mem::swap(&mut self.rows, &mut rows);
        rows.push((key, value));
        core::mem::swap(&mut self.rows, &mut rows);
        assert(self@ =~= before.insert(key@, value));
        true
    }

    /// Takes the row under `key` out of the table and hands its value back.
    pub fn remove(&mut self, key: &str) -> (r: Option<V>)
        ensures
            match r {
                Some(v) => old(self)@.contains_key(key@) && old(self)@[key@] == v,
                None => !old(self)@.contains_key(key@),
            },
            final(self)@ == old(self)@.remove(key@),
    {
        match self.position(key) {
            Some(i) => {
                proof {
                    use_type_invariant(&*self);
                    assert forall|k: Seq<char>| true implies #[trigger] lookup(self.rows@.remove(i as int), k)
                        == if k == key@ {
                        None
                    } else {
                        lookup(self.rows@, k)
                    } by {
                        lookup_after_remove(self.rows@, i as int, k);
                    }
                    lookup_after_remove(self.rows@, i as int, key@);
                }
                let ghost before = self@;
                let mut rows: Vec<(String, V)> = Vec::new();
                core::mem::swap(&mut self.rows, &mut rows);
                let row = rows.remove(i);
                core::mem::swap(&mut self.rows, &mut rows);
                assert(self@ =~= before.remove(key@));
                Some(row.1)
            },
            None => {
                assert(self@ =~= self@.remove(key@));
                None
            },
        }
    }

    /// Whether a row stands under `key`.
    pub fn contains_key(&self, key: &str) -> (r: bool)
        ensures
            r == self@.contains_key(key@),
    {
        self.position(key).is_some()
    }

    /// The value under `key`, if there is one.
    pub fn get(&self, key: &str) -> (r: Option<&V>)
        ensures
            match r {
                Some(v) => self@.contains_key(key@) && self@[key@] == *v,
                None => !self@.contains_key(key@),
            },
    {
        match self.position(key) {
            Some(i) => Some(&self.rows[i].1),
            None => None,
        }
    }
}

/// What is left of a found value once the rows valued `value` are passed over.
spec fn unless_valued(found: Option<String>, value: Seq<char>) -> Option<String> {
    match found {
        Some(v) => if v@ == value {
            None
        } else {
            Some(v)
        },
        None => None,
    }
}

impl Table<String> {
    /// Takes out every row whose value is `value`; the other rows stay as they are.
    pub fn remove_valued(&mut self, value: &str)
        ensures
            forall|k: Seq<char>|
                final(self)@.contains_key(k) <==> old(self)@.contains_key(k) && old(self)@[k]@ != value@,
            forall|k: Seq<char>| final(self)@.contains_key(k) ==> final(self)@[k] == old(self)@[k],
    {
        proof {
            use_type_invariant(&*self);
        }
        let wanted = value.to_owned();
        let mut kept: Vec<(String, String)> = Vec::new();
        let mut i: usize = 0;
        while i < self.rows.len()
            invariant
                i <= self.rows.len(),
                wanted@ == value@,
                distinct_keys(self.rows@),
                distinct_keys(kept@),
                forall|k: Seq<char>| #[trigger]
                    lookup(kept@, k) == unless_valued(lookup(self.rows@.take(i as int), k), value@),
            decreases self.rows.len() - i,
        {
            let ghost row = self.rows@[i as int];
            let ghost seen = self.rows@.take(i as int);
            proof {
                assert(self.rows@.take(i + 1).drop_last() =~= seen);
                lookup_finds(seen, row.0@);
                if lookup(seen, row.0@) is Some {
                    let j = choose|j: int| 0 <= j < seen.len() && (#[trigger] seen[j]).0@ == row.0@;
                    assert(self.rows@[j] == seen[j]);
                }
                assert(lookup(kept@, row.0@) is None);
            }
            if self.rows[i].1 != wanted {
                let key = self.rows[i].0.clone();
                let held = self.rows[i].1.clone();
                proof {
                    assert forall|k: Seq<char>| #[trigger]
                        lookup(kept@.push((key, held)), k) == unless_valued(
                            lookup(self.rows@.take(i + 1), k),
                            value@,
                        ) by {
                        lookup_after_push(kept@, key, held, k);
                    }
                    lookup_after_push(kept@, key, held, key@);
                }
                kept.push((key, held));
            }
            i += 1;
        }
        proof {
            assert(self.rows@.take(self.rows.len() as int) =~= self.rows@);
        }
        let ghost before = self@;
        core::mem::swap(&mut self.rows, &mut kept);
        proof {
            assert forall|k: Seq<char>|
                self@.contains_key(k) <==> before.contains_key(k) && before[k]@ != value@ by {}
        }
    }
}

} // verus!
