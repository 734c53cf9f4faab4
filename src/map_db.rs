//! The in-memory representation of the dataset: entries held in a vector in strictly
//! ascending key order, serialized wholesale.
use vstd::prelude::*;
use crate::codec::{decode_entries, encode_entries, entries_view, spec_encode_entries};

verus! {

/// The keys of a sequence of entries, in order.
pub open spec fn keys_of(s: Seq<(u64, Vec<u8>)>) -> Seq<u64> {
    s.map_values(|e: (u64, Vec<u8>)| e.0)
}

/// Whether the keys are strictly ascending.
pub open spec fn sorted_keys(s: Seq<(u64, Vec<u8>)>) -> bool {
    forall|i: int, j: int| 0 <= i < j < s.len() ==> (#[trigger] s[i]).0 < (#[trigger] s[j]).0
}

/// The map that a sequence of entries with distinct keys stands for.
pub open spec fn map_of(s: Seq<(u64, Vec<u8>)>) -> Map<u64, Seq<u8>> {
    Map::new(
        |k: u64| keys_of(s).contains(k),
        |k: u64| s[choose|i: int| 0 <= i < s.len() && s[i].0 == k].1@,
    )
}

/// Whether key `k` comes after the cursor: every key does when there is none.
pub open spec fn after_cursor(cursor: Option<u64>, k: u64) -> bool {
    match cursor {
        Some(c) => c < k,
        None => true,
    }
}

/// Whether `k` is the smallest key of `m` after the cursor.
pub open spec fn is_next_key(m: Map<u64, Seq<u8>>, cursor: Option<u64>, k: u64) -> bool {
    &&& m.contains_key(k)
    &&& after_cursor(cursor, k)
    &&& forall|k2: u64| m.contains_key(k2) && after_cursor(cursor, k2) ==> k <= k2
}

/// Whether no key of `m` comes after the cursor.
pub open spec fn none_after(m: Map<u64, Seq<u8>>, cursor: Option<u64>) -> bool {
    forall|k: u64| m.contains_key(k) ==> !after_cursor(cursor, k)
}

proof fn lemma_view_at(s: Seq<(u64, Vec<u8>)>, i: int)
    requires
        sorted_keys(s),
        0 <= i < s.len(),
    ensures
        map_of(s).contains_key(s[i].0),
        map_of(s)[s[i].0] == s[i].1@,
{
    assert(keys_of(s)[i] == s[i].0);
    let j = choose|j: int| 0 <= j < s.len() && s[j].0 == s[i].0;
    if j < i {
        assert(s[j].0 < s[i].0);
    } else if i < j {
        assert(s[i].0 < s[j].0);
    }
}

proof fn lemma_view_has(s: Seq<(u64, Vec<u8>)>, k: u64)
    requires
        sorted_keys(s),
        map_of(s).contains_key(k),
    ensures
        exists|i: int| 0 <= i < s.len() && s[i].0 == k,
{
    let i = choose|i: int| 0 <= i < keys_of(s).len() && keys_of(s)[i] == k;
    assert(s[i].0 == k);
}

proof fn lemma_insert_at(s: Seq<(u64, Vec<u8>)>, p: int, k: u64, v: Vec<u8>)
    requires
        sorted_keys(s),
        0 <= p <= s.len(),
        forall|i: int| 0 <= i < p ==> s[i].0 < k,
        forall|i: int| p <= i < s.len() ==> s[i].0 > k,
    ensures
        sorted_keys(s.insert(p, (k, v))),
        map_of(s.insert(p, (k, v))) =~= map_of(s).insert(k, v@),
{
    let t = s.insert(p, (k, v));
    assert(sorted_keys(t)) by {
        assert forall|i: int, j: int| 0 <= i < j < t.len() implies (#[trigger] t[i]).0 < (
        #[trigger] t[j]).0 by {
            if j < p {
            } else if j == p {
            } else if i < p {
                assert(t[j] == s[j - 1]);
            } else if i == p {
                assert(t[j] == s[j - 1]);
            } else {
                assert(t[i] == s[i - 1] && t[j] == s[j - 1]);
            }
        }
    }
    assert forall|x: u64| #[trigger] map_of(t).contains_key(x) <==> map_of(s).insert(
        k,
        v@,
    ).contains_key(x) by {
        if map_of(t).contains_key(x) {
            lemma_view_has(t, x);
            let i = choose|i: int| 0 <= i < t.len() && t[i].0 == x;
            if i < p {
                lemma_view_at(s, i);
            } else if i > p {
                lemma_view_at(s, i - 1);
            }
        }
        if map_of(s).contains_key(x) {
            lemma_view_has(s, x);
            let i = choose|i: int| 0 <= i < s.len() && s[i].0 == x;
            if i < p {
                lemma_view_at(t, i);
            } else {
                assert(t[i + 1] == s[i]);
                lemma_view_at(t, i + 1);
            }
        }
        if x == k {
            lemma_view_at(t, p);
        }
    }
    assert forall|x: u64| #[trigger] map_of(t).contains_key(x) implies map_of(t)[x] == map_of(
        s,
    ).insert(k, v@)[x] by {
        lemma_view_has(t, x);
        let i = choose|i: int| 0 <= i < t.len() && t[i].0 == x;
        lemma_view_at(t, i);
        if i < p {
            lemma_view_at(s, i);
        } else if i > p {
            lemma_view_at(s, i - 1);
        }
    }
}

proof fn lemma_update_at(s: Seq<(u64, Vec<u8>)>, p: int, v: Vec<u8>)
    requires
        sorted_keys(s),
        0 <= p < s.len(),
    ensures
        sorted_keys(s.update(p, (s[p].0, v))),
        map_of(s.update(p, (s[p].0, v))) =~= map_of(s).insert(s[p].0, v@),
{
    let k = s[p].0;
    let t = s.update(p, (k, v));
    assert(sorted_keys(t)) by {
        assert forall|i: int, j: int| 0 <= i < j < t.len() implies (#[trigger] t[i]).0 < (
        #[trigger] t[j]).0 by {
            assert(s[i].0 < s[j].0);
        }
    }
    assert forall|x: u64| #[trigger] map_of(t).contains_key(x) <==> map_of(s).insert(
        k,
        v@,
    ).contains_key(x) by {
        if map_of(t).contains_key(x) {
            lemma_view_has(t, x);
            let i = choose|i: int| 0 <= i < t.len() && t[i].0 == x;
            lemma_view_at(s, i);
        }
        if map_of(s).contains_key(x) {
            lemma_view_has(s, x);
            let i = choose|i: int| 0 <= i < s.len() && s[i].0 == x;
            lemma_view_at(t, i);
        }
        if x == k {
            lemma_view_at(t, p);
        }
    }
    assert forall|x: u64| #[trigger] map_of(t).contains_key(x) implies map_of(t)[x] == map_of(
        s,
    ).insert(k, v@)[x] by {
        lemma_view_has(t, x);
        let i = choose|i: int| 0 <= i < t.len() && t[i].0 == x;
        lemma_view_at(t, i);
        lemma_view_at(s, i);
    }
}

proof fn lemma_remove_at(s: Seq<(u64, Vec<u8>)>, p: int)
    requires
        sorted_keys(s),
        0 <= p < s.len(),
    ensures
        sorted_keys(s.remove(p)),
        map_of(s.remove(p)) =~= map_of(s).remove(s[p].0),
{
    let k = s[p].0;
    let t = s.remove(p);
    assert(sorted_keys(t)) by {
        assert forall|i: int, j: int| 0 <= i < j < t.len() implies (#[trigger] t[i]).0 < (
        #[trigger] t[j]).0 by {
            if j < p {
            } else if i < p {
                assert(t[j] == s[j + 1]);
            } else {
                assert(t[i] == s[i + 1] && t[j] == s[j + 1]);
            }
        }
    }
    assert forall|x: u64| #[trigger] map_of(t).contains_key(x) <==> map_of(s).remove(
        k,
    ).contains_key(x) by {
        if map_of(t).contains_key(x) {
            lemma_view_has(t, x);
            let i = choose|i: int| 0 <= i < t.len() && t[i].0 == x;
            if i < p {
                lemma_view_at(s, i);
                assert(s[i].0 < s[p].0);
            } else {
                assert(t[i] == s[i + 1]);
                lemma_view_at(s, i + 1);
                assert(s[p].0 < s[i + 1].0);
            }
        }
        if map_of(s).contains_key(x) && x != k {
            lemma_view_has(s, x);
            let i = choose|i: int| 0 <= i < s.len() && s[i].0 == x;
            if i < p {
                lemma_view_at(t, i);
            } else if i > p {
                assert(t[i - 1] == s[i]);
                lemma_view_at(t, i - 1);
            }
        }
    }
    assert forall|x: u64| #[trigger] map_of(t).contains_key(x) implies map_of(t)[x] == map_of(
        s,
    ).remove(k)[x] by {
        lemma_view_has(t, x);
        let i = choose|i: int| 0 <= i < t.len() && t[i].0 == x;
        lemma_view_at(t, i);
        if i < p {
            lemma_view_at(s, i);
        } else {
            assert(t[i] == s[i + 1]);
            lemma_view_at(s, i + 1);
        }
    }
}

proof fn lemma_len(s: Seq<(u64, Vec<u8>)>)
    requires
        sorted_keys(s),
    ensures
        map_of(s).len() == s.len(),
        map_of(s).dom().finite(),
{
    let ks = keys_of(s);
    vstd::seq_lib::seq_to_set_is_finite(ks);
    assert(ks.no_duplicates()) by {
        assert forall|i: int, j: int| 0 <= i < ks.len() && 0 <= j < ks.len() && i != j implies ks[i]
            != ks[j] by {
            if i < j {
                assert(s[i].0 < s[j].0);
            } else {
                assert(s[j].0 < s[i].0);
            }
        }
    }
    ks.unique_seq_to_set();
    assert(map_of(s).dom() =~= ks.to_set());
}

/// The dataset as entries in strictly ascending key order.
pub struct MapDb {
    entries: Vec<(u64, Vec<u8>)>,
}

impl View for MapDb {
    type V = Map<u64, Seq<u8>>;

    open spec fn view(&self) -> Map<u64, Seq<u8>> {
        map_of(self.spec_entries())
    }
}

impl MapDb {
    /// The entries, in ascending key order.
    pub closed spec fn spec_entries(&self) -> Seq<(u64, Vec<u8>)> {
        self.entries@
    }

    /// Keys are strictly ascending.
    pub open spec fn wf(&self) -> bool {
        sorted_keys(self.spec_entries())
    }

    /// The dataset holds finitely many entries, as many as the vector.
    pub proof fn lemma_finite(&self)
        requires
            self.wf(),
        ensures
            self@.dom().finite(),
            self@.len() == self.spec_entries().len(),
    {
        lemma_len(self.spec_entries());
    }

    /// An empty dataset.
    pub fn new() -> (r: Self)
        ensures
            r.wf(),
            r@ == Map::<u64, Seq<u8>>::empty(),
    {
        let r = MapDb { entries: Vec::new() };
        assert(r@ =~= Map::<u64, Seq<u8>>::empty());
        r
    }

    /// The entries, in ascending key order.
    pub fn entries(&self) -> (r: &Vec<(u64, Vec<u8>)>)
        ensures
            r@ == self.spec_entries(),
    {
        &self.entries
    }

    /// The first position whose key is at least `key`.
    fn position(&self, key: u64) -> (r: usize)
        requires
            self.wf(),
        ensures
            r <= self.entries@.len(),
            forall|i: int| 0 <= i < r ==> self.entries@[i].0 < key,
            forall|i: int| r <= i < self.entries@.len() ==> self.entries@[i].0 >= key,
    {
        let mut lo: usize = 0;
        let mut hi: usize = self.entries.len();
        while lo < hi
            invariant
                self.wf(),
                lo <= hi <= self.entries@.len(),
                forall|i: int| 0 <= i < lo ==> self.entries@[i].0 < key,
                forall|i: int| hi <= i < self.entries@.len() ==> self.entries@[i].0 >= key,
            decreases hi - lo,
        {
            let mid = lo + (hi - lo) / 2;
            if self.entries[mid].0 < key {
                assert forall|i: int| 0 <= i <= mid implies self.entries@[i].0 < key by {
                    if i < mid {
                        assert(self.entries@[i].0 < self.entries@[mid as int].0);
                    }
                }
                lo = mid + 1;
            } else {
                assert forall|i: int| mid <= i < self.entries@.len() implies self.entries@[i].0
                    >= key by {
                    if i > mid {
                        assert(self.entries@[mid as int].0 < self.entries@[i].0);
                    }
                }
                hi = mid;
            }
        }
        lo
    }

    /// Number of entries.
    pub fn len(&self) -> (r: usize)
        requires
            self.wf(),
        ensures
            r == self@.len(),
    {
        proof {
            lemma_len(self.entries@);
        }
        self.entries.len()
    }

    /// The value under `key`.
    pub fn get(&self, key: u64) -> (r: Option<&Vec<u8>>)
        requires
            self.wf(),
        ensures
            r is Some <==> self@.contains_key(key),
            r matches Some(v) ==> v@ == self@[key],
    {
        let p = self.position(key);
        if p < self.entries.len() && self.entries[p].0 == key {
            proof {
                lemma_view_at(self.entries@, p as int);
            }
            Some(&self.entries[p].1)
        } else {
            proof {
                if self@.contains_key(key) {
                    lemma_view_has(self.entries@, key);
                }
            }
            None
        }
    }

    /// Sets the value under `key`.
    pub fn insert(&mut self, key: u64, value: Vec<u8>)
        requires
            old(self).wf(),
        ensures
            final(self).wf(),
            final(self)@ == old(self)@.insert(key, value@),
    {
        let p = self.position(key);
        if p < self.entries.len() && self.entries[p].0 == key {
            proof {
                lemma_update_at(self.entries@, p as int, value);
            }
            self.entries.set(p, (key, value));
        } else {
            proof {
                lemma_insert_at(self.entries@, p as int, key, value);
            }
            self.entries.insert(p, (key, value));
        }
    }

    /// Removes the entry under `key`, returning its value.
    pub fn remove(&mut self, key: u64) -> (r: Option<Vec<u8>>)
        requires
            old(self).wf(),
        ensures
            final(self).wf(),
            final(self)@ == old(self)@.remove(key),
            r is Some <==> old(self)@.contains_key(key),
            r matches Some(v) ==> v@ == old(self)@[key],
    {
        let p = self.position(key);
        if p < self.entries.len() && self.entries[p].0 == key {
            proof {
                lemma_view_at(self.entries@, p as int);
                lemma_remove_at(self.entries@, p as int);
            }
            let (_, value) = self.entries.remove(p);
            Some(value)
        } else {
            proof {
                if self@.contains_key(key) {
                    lemma_view_has(self.entries@, key);
                }
                assert(self@.remove(key) =~= self@);
            }
            None
        }
    }

    /// The entry with the smallest key after the cursor.
    pub fn first_after(&self, cursor: Option<u64>) -> (r: Option<(u64, &Vec<u8>)>)
        requires
            self.wf(),
        ensures
            r matches Some((k, v)) ==> is_next_key(self@, cursor, k) && v@ == self@[k],
            r is None ==> none_after(self@, cursor),
    {
        let p: usize = match cursor {
            None => 0,
            Some(c) => {
                if c == u64::MAX {
                    proof {
                        assert forall|k: u64| self@.contains_key(k) implies !after_cursor(
                            cursor,
                            k,
                        ) by {}
                    }
                    return None;
                }
                self.position(c + 1)
            },
        };
        if p < self.entries.len() {
            let k = self.entries[p].0;
            proof {
                lemma_view_at(self.entries@, p as int);
                assert forall|k2: u64| self@.contains_key(k2) && after_cursor(cursor, k2) implies k
                    <= k2 by {
                    lemma_view_has(self.entries@, k2);
                    let i = choose|i: int|
                        0 <= i < self.entries@.len() && self.entries@[i].0 == k2;
                    if i < p {
                    } else if i > p {
                        assert(self.entries@[p as int].0 < self.entries@[i].0);
                    }
                }
            }
            Some((k, &self.entries[p].1))
        } else {
            proof {
                assert forall|k: u64| self@.contains_key(k) implies !after_cursor(cursor, k) by {
                    lemma_view_has(self.entries@, k);
                }
            }
            None
        }
    }

    /// The dataset in the flat record encoding, entries in ascending key order.
    pub fn encode(&self) -> (r: Vec<u8>)
        ensures
            r@ == spec_encode_entries(entries_view(self.spec_entries())),
            crate::codec::encodes(entries_view(self.spec_entries()), r@),
    {
        encode_entries(&self.entries)
    }

    /// Reads a dataset from the flat record encoding. Bytes that are not an encoding,
    /// or whose keys are not strictly ascending, are refused.
    pub fn decode(bytes: &[u8]) -> (r: Option<MapDb>)
        ensures
            r matches Some(db) ==> db.wf() && crate::codec::encodes(
                entries_view(db.spec_entries()),
                bytes@,
            ),
            forall|s: Seq<(u64, Vec<u8>)>|
                sorted_keys(s) && #[trigger] crate::codec::encodes(entries_view(s), bytes@) ==> (
                r matches Some(db) && entries_view(db.spec_entries()) == entries_view(s)
                    && db@ == map_of(s)),
    {
        let entries = match decode_entries(bytes) {
            Some(e) => e,
            None => return None,
        };
        let mut i: usize = 1;
        while i < entries.len()
            invariant
                1 <= i,
                forall|t: Seq<(u64, Seq<u8>)>|
                    #[trigger] crate::codec::encodes(t, bytes@) ==> entries_view(entries@) == t,
                forall|a: int, b: int|
                    0 <= a < b < i && b < entries@.len() ==> (#[trigger] entries@[a]).0 < (
                    #[trigger] entries@[b]).0,
            decreases entries@.len() - i,
        {
            if entries[i - 1].0 >= entries[i].0 {
                proof {
                    assert forall|s: Seq<(u64, Vec<u8>)>|
                        sorted_keys(s) && #[trigger] crate::codec::encodes(
                            entries_view(s),
                            bytes@,
                        ) implies false by {
                        assert(entries_view(s)[i - 1] == entries_view(entries@)[i - 1]);
                        assert(entries_view(s)[i as int] == entries_view(entries@)[i as int]);
                        assert(s[i - 1].0 < s[i as int].0);
                    }
                }
                return None;
            }
            proof {
                assert forall|a: int, b: int|
                    0 <= a < b < i + 1 && b < entries@.len() implies (#[trigger] entries@[a]).0 < (
                    #[trigger] entries@[b]).0 by {
                    if b == i && a < i - 1 {
                        assert(entries@[a].0 < entries@[i - 1].0);
                    }
                }
            }
            i = i + 1;
        }
        let db = MapDb { entries };
        proof {
            assert forall|s: Seq<(u64, Vec<u8>)>|
                sorted_keys(s) && #[trigger] crate::codec::encodes(
                    entries_view(s),
                    bytes@,
                ) implies db@ == map_of(s) by {
                assert forall|x: u64| #[trigger] db@.contains_key(x) <==> map_of(s).contains_key(
                    x,
                ) by {
                    if db@.contains_key(x) {
                        lemma_view_has(db.entries@, x);
                        let j = choose|j: int| 0 <= j < db.entries@.len() && db.entries@[j].0 == x;
                        assert(entries_view(s)[j] == entries_view(entries@)[j]);
                        lemma_view_at(s, j);
                    }
                    if map_of(s).contains_key(x) {
                        lemma_view_has(s, x);
                        let j = choose|j: int| 0 <= j < s.len() && s[j].0 == x;
                        assert(entries_view(s)[j] == entries_view(entries@)[j]);
                        lemma_view_at(db.entries@, j);
                    }
                }
                assert forall|x: u64| #[trigger] db@.contains_key(x) implies db@[x] == map_of(s)[x] by {
                    lemma_view_has(db.entries@, x);
                    let j = choose|j: int| 0 <= j < db.entries@.len() && db.entries@[j].0 == x;
                    assert(entries_view(s)[j] == entries_view(entries@)[j]);
                    lemma_view_at(db.entries@, j);
                    lemma_view_at(s, j);
                }
                assert(db@ =~= map_of(s));
            }
        }
        Some(db)
    }
}

} // verus!
