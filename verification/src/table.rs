use vstd::prelude::*;

verus! {

/// One row of a [`StudentTable`].
pub struct StudentEntry<V> {
    pub pool_id: u32,
    pub student: String,
    pub value: V,
}

/// A table keyed by a pool id and a student address, holding at most one
/// value per key.
#[verifier::reject_recursive_types(V)]
pub struct StudentTable<V> {
    entries: Vec<StudentEntry<V>>,
}

/// The key of a row, as plain values.
pub open spec fn entry_key<V>(e: StudentEntry<V>) -> (u32, Seq<char>) {
    (e.pool_id, e.student@)
}

/// No key occurs twice among the rows.
pub open spec fn keys_unique<V>(rows: Seq<StudentEntry<V>>) -> bool {
    forall|i: int, j: int|
        0 <= i < rows.len() && 0 <= j < rows.len() && i != j ==>
            entry_key(#[trigger] rows[i]) != entry_key(#[trigger] rows[j])
}

/// Row `i` holds key `k`.
pub open spec fn row_has_key<V>(rows: Seq<StudentEntry<V>>, k: (u32, Seq<char>), i: int) -> bool {
    0 <= i < rows.len() && entry_key(rows[i]) == k
}

/// The rows as a map from keys to the views of the values.
pub open spec fn rows_map<V: View>(rows: Seq<StudentEntry<V>>) -> Map<(u32, Seq<char>), V::V> {
    Map::new(
        |k: (u32, Seq<char>)| exists|i: int| row_has_key(rows, k, i),
        |k: (u32, Seq<char>)| rows[choose|i: int| row_has_key(rows, k, i)].value@,
    )
}

impl<V: View> StudentTable<V> {
    /// No key occurs twice.
    pub closed spec fn wf(&self) -> bool {
        keys_unique(self.entries@)
    }

    /// The table as a map from keys to the views of the values.
    pub closed spec fn view_map(&self) -> Map<(u32, Seq<char>), V::V> {
        rows_map(self.entries@)
    }

    /// A table of the given rows, if no key occurs twice among them.
    pub fn from_rows(rows: Vec<StudentEntry<V>>) -> (r: Option<Self>)
        ensures
            r is Some <==> keys_unique(rows@),
            r is Some ==> r->0.wf() && r->0.view_map() == rows_map(rows@),
    {
        let n = rows.len();
        let mut i: usize = 0;
        while i < n
            invariant
                n == rows@.len(),
                i <= n,
                forall|a: int, b: int|
                    0 <= a < i && 0 <= b < i && a != b ==> entry_key(#[trigger] rows@[a]) != entry_key(#[trigger] rows@[b]),
            decreases n - i,
        {
            let mut j: usize = 0;
            while j < i
                invariant
                    n == rows@.len(),
                    i < n,
                    j <= i,
                    forall|b: int| 0 <= b < j ==> entry_key(rows@[b]) != entry_key(rows@[i as int]),
                decreases i - j,
            {
                if rows[j].pool_id == rows[i].pool_id && rows[j].student == rows[i].student {
                    assert(entry_key(rows@[j as int]) == entry_key(rows@[i as int]));
                    return None;
                }
                j = j + 1;
            }
            i = i + 1;
        }
        Some(StudentTable { entries: rows })
    }

    /// The rows of the table.
    pub fn into_rows(self) -> (r: Vec<StudentEntry<V>>)
        requires
            self.wf(),
        ensures
            keys_unique(r@),
            rows_map(r@) == self.view_map(),
    {
        self.entries
    }

    pub fn new() -> (t: Self)
        ensures
            t.wf(),
            t.view_map() == Map::<(u32, Seq<char>), V::V>::empty(),
    {
        let t = StudentTable { entries: Vec::new() };
        assert(t.view_map() =~= Map::<(u32, Seq<char>), V::V>::empty());
        t
    }

    fn find(&self, pool_id: u32, student: &String) -> (r: Option<usize>)
        requires
            self.wf(),
        ensures
            match r {
                Some(i) => row_has_key(self.entries@, (pool_id, student@), i as int),
                None => !self.view_map().contains_key((pool_id, student@)),
            },
    {
        let mut i: usize = 0;
        while i < self.entries.len()
            invariant
                i <= self.entries@.len(),
                forall|j: int| 0 <= j < i ==> !row_has_key(self.entries@, (pool_id, student@), j),
            decreases self.entries@.len() - i,
        {
            let e = &self.entries[i];
            if e.pool_id == pool_id && e.student == *student {
                return Some(i);
            }
            i = i + 1;
        }
        None
    }

    /// The value stored under the key, if any.
    pub fn get(&self, pool_id: u32, student: &String) -> (r: Option<&V>)
        requires
            self.wf(),
        ensures
            match r {
                Some(v) => self.view_map().contains_key((pool_id, student@))
                    && self.view_map()[(pool_id, student@)] == v@,
                None => !self.view_map().contains_key((pool_id, student@)),
            },
    {
        match self.find(pool_id, student) {
            Some(i) => {
                let ghost k = (pool_id, student@);
                assert(self.view_map().contains_key(k));
                let ghost c = choose|j: int| row_has_key(self.entries@, k, j);
                assert(c == i);
                Some(&self.entries[i].value)
            },
            None => None,
        }
    }

    /// Stores `value` under the key, replacing what was there.
    pub fn set(&mut self, pool_id: u32, student: String, value: V)
        requires
            old(self).wf(),
        ensures
            final(self).wf(),
            final(self).view_map() == old(self).view_map().insert((pool_id, student@), value@),
    {
        let ghost k = (pool_id, student@);
        match self.find(pool_id, &student) {
            Some(i) => {
                self.entries.set(i, StudentEntry { pool_id, student, value });
                assert(self.entries@ == old(self).entries@.update(i as int, self.entries@[i as int]));
                assert forall|a: int, b: int|
                    0 <= a < self.entries@.len() && 0 <= b < self.entries@.len() && a != b implies
                        entry_key(#[trigger] self.entries@[a]) != entry_key(#[trigger] self.entries@[b]) by {
                    assert(entry_key(old(self).entries@[a]) != entry_key(old(self).entries@[b]));
                }
                assert forall|kk: (u32, Seq<char>)|
                    #[trigger] self.view_map().contains_key(kk) == old(self).view_map().insert(k, value@).contains_key(kk) by {
                    if kk != k {
                        if old(self).view_map().contains_key(kk) {
                            let j = choose|j: int| row_has_key(old(self).entries@, kk, j);
                            assert(row_has_key(self.entries@, kk, j));
                        }
                        if self.view_map().contains_key(kk) {
                            let j = choose|j: int| row_has_key(self.entries@, kk, j);
                            assert(row_has_key(old(self).entries@, kk, j));
                        }
                    } else {
                        assert(row_has_key(self.entries@, k, i as int));
                    }
                }
                assert forall|kk: (u32, Seq<char>)|
                    #[trigger] self.view_map().contains_key(kk) implies self.view_map()[kk] == old(self).view_map().insert(k, value@)[kk] by {
                    let j2 = choose|j2: int| row_has_key(self.entries@, kk, j2);
                    if kk != k {
                        assert(row_has_key(old(self).entries@, kk, j2));
                        let j = choose|j: int| row_has_key(old(self).entries@, kk, j);
                        assert(entry_key(old(self).entries@[j]) == entry_key(old(self).entries@[j2]));
                    } else {
                        assert(entry_key(self.entries@[j2]) == entry_key(self.entries@[i as int]));
                    }
                }
                assert(self.view_map() =~= old(self).view_map().insert(k, value@));
            },
            None => {
                self.entries.push(StudentEntry { pool_id, student, value });
                let ghost n = old(self).entries@.len() as int;
                assert(forall|j: int| 0 <= j < n ==> !row_has_key(old(self).entries@, k, j));
                assert forall|a: int, b: int|
                    0 <= a < self.entries@.len() && 0 <= b < self.entries@.len() && a != b implies
                        entry_key(#[trigger] self.entries@[a]) != entry_key(#[trigger] self.entries@[b]) by {
                    if a < n && b < n {
                        assert(entry_key(old(self).entries@[a]) != entry_key(old(self).entries@[b]));
                    } else if a < n {
                        assert(!row_has_key(old(self).entries@, k, a));
                    } else {
                        assert(!row_has_key(old(self).entries@, k, b));
                    }
                }
                assert forall|kk: (u32, Seq<char>)|
                    #[trigger] self.view_map().contains_key(kk) == old(self).view_map().insert(k, value@).contains_key(kk) by {
                    if kk != k {
                        if old(self).view_map().contains_key(kk) {
                            let j = choose|j: int| row_has_key(old(self).entries@, kk, j);
                            assert(row_has_key(self.entries@, kk, j));
                        }
                        if self.view_map().contains_key(kk) {
                            let j = choose|j: int| row_has_key(self.entries@, kk, j);
                            assert(row_has_key(old(self).entries@, kk, j));
                        }
                    } else {
                        assert(row_has_key(self.entries@, k, n));
                    }
                }
                assert forall|kk: (u32, Seq<char>)|
                    #[trigger] self.view_map().contains_key(kk) implies self.view_map()[kk] == old(self).view_map().insert(k, value@)[kk] by {
                    let j2 = choose|j2: int| row_has_key(self.entries@, kk, j2);
                    if kk != k {
                        assert(row_has_key(old(self).entries@, kk, j2));
                        let j = choose|j: int| row_has_key(old(self).entries@, kk, j);
                    } else {
                        if j2 != n {
                            assert(row_has_key(old(self).entries@, k, j2));
                        }
                    }
                }
                assert(self.view_map() =~= old(self).view_map().insert(k, value@));
            },
        }
    }
}

} // verus!
