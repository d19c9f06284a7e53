use vstd::prelude::*;

use crate::errors::BridgeError;
use vstd::pervasive::VecAdditionalExecFns;

verus! {

/// One record of the local store: a key, the exact bytes last saved under
/// it, and the caller-supplied timestamp of that save.
pub struct Entry {
    pub key: String,
    pub value: Vec<u8>,
    pub updated_at: u64,
}

/// No key occurs twice among the entries.
pub open spec fn distinct_keys(s: Seq<Entry>) -> bool {
    forall|i: int, j: int| 0 <= i < j < s.len() ==> s[i].key@ != s[j].key@
}

/// The key-to-bytes mapping that a sequence of entries represents. A later
/// entry wins, though a well-formed store never holds a key twice.
pub open spec fn map_of(s: Seq<Entry>) -> Map<Seq<char>, Seq<u8>>
    decreases s.len(),
{
    if s.len() == 0 {
        Map::empty()
    } else {
        map_of(s.drop_last()).insert(s.last().key@, s.last().value@)
    }
}

proof fn lemma_distinct_drop_last(s: Seq<Entry>)
    requires
        distinct_keys(s),
        s.len() > 0,
    ensures
        distinct_keys(s.drop_last()),
{
    assert forall|i: int, j: int| 0 <= i < j < s.drop_last().len() implies s.drop_last()[i].key@
        != s.drop_last()[j].key@ by {
        assert(s.drop_last()[i] == s[i]);
        assert(s.drop_last()[j] == s[j]);
    }
}

/// A key is in the represented mapping exactly when some entry carries it.
proof fn lemma_map_of_contains(s: Seq<Entry>)
    ensures
        forall|k: Seq<char>|
            #[trigger] map_of(s).contains_key(k) <==> exists|i: int|
                0 <= i < s.len() && s[i].key@ == k,
    decreases s.len(),
{
    if s.len() > 0 {
        lemma_map_of_contains(s.drop_last());
        assert forall|k: Seq<char>| #[trigger] map_of(s).contains_key(k) implies exists|i: int|
            0 <= i < s.len() && s[i].key@ == k by {
            if k == s.last().key@ {
                assert(s[s.len() - 1].key@ == k);
            } else {
                assert(map_of(s) == map_of(s.drop_last()).insert(s.last().key@, s.last().value@));
                assert(map_of(s.drop_last()).contains_key(k));
                let i = choose|i: int| 0 <= i < s.drop_last().len() && s.drop_last()[i].key@ == k;
                assert(s.drop_last()[i] == s[i]);
                assert(s[i].key@ == k);
            }
        }
        assert forall|k: Seq<char>| (exists|i: int| 0 <= i < s.len() && s[i].key@ == k) implies
            #[trigger] map_of(s).contains_key(k) by {
            let i = choose|i: int| 0 <= i < s.len() && s[i].key@ == k;
            if i < s.len() - 1 {
                assert(s.drop_last()[i].key@ == k);
            }
        }
    }
}

/// Under distinct keys, the entry at index `i` gives the mapping's value for
/// its key.
proof fn lemma_map_of_index(s: Seq<Entry>, i: int)
    requires
        distinct_keys(s),
        0 <= i < s.len(),
    ensures
        map_of(s).contains_key(s[i].key@),
        map_of(s)[s[i].key@] == s[i].value@,
    decreases s.len(),
{
    if i < s.len() - 1 {
        lemma_distinct_drop_last(s);
        assert(s.drop_last()[i] == s[i]);
        lemma_map_of_index(s.drop_last(), i);
        assert(s[i].key@ != s.last().key@);
    }
}

/// Replacing the entry at `i` by one with the same key updates the mapping at
/// that key alone.
proof fn lemma_map_of_update(s: Seq<Entry>, i: int, e: Entry)
    requires
        distinct_keys(s),
        0 <= i < s.len(),
        e.key@ == s[i].key@,
    ensures
        map_of(s.update(i, e)) == map_of(s).insert(e.key@, e.value@),
    decreases s.len(),
{
    let t = s.update(i, e);
    if i == s.len() - 1 {
        assert(t.drop_last() =~= s.drop_last());
        assert(t.last() == e);
        assert(map_of(s).insert(e.key@, e.value@) =~= map_of(s.drop_last()).insert(
            e.key@,
            e.value@,
        ));
    } else {
        lemma_distinct_drop_last(s);
        assert(t.last() == s.last());
        assert(t.drop_last() =~= s.drop_last().update(i, e));
        assert(s.drop_last()[i] == s[i]);
        lemma_map_of_update(s.drop_last(), i, e);
        assert(e.key@ != s.last().key@);
        assert(map_of(s.drop_last()).insert(e.key@, e.value@).insert(
            s.last().key@,
            s.last().value@,
        ) =~= map_of(s.drop_last()).insert(s.last().key@, s.last().value@).insert(
            e.key@,
            e.value@,
        ));
    }
}

/// Removing the entry at `i` removes exactly its key from the mapping.
proof fn lemma_map_of_remove(s: Seq<Entry>, i: int)
    requires
        distinct_keys(s),
        0 <= i < s.len(),
    ensures
        map_of(s.remove(i)) == map_of(s).remove(s[i].key@),
    decreases s.len(),
{
    let t = s.remove(i);
    s.remove_ensures(i);
    if i == s.len() - 1 {
        assert(t =~= s.drop_last());
        lemma_distinct_drop_last(s);
        lemma_map_of_contains(s.drop_last());
        assert(!map_of(s.drop_last()).contains_key(s[i].key@)) by {
            if map_of(s.drop_last()).contains_key(s[i].key@) {
                let j = choose|j: int|
                    0 <= j < s.drop_last().len() && s.drop_last()[j].key@ == s[i].key@;
                assert(s[j].key@ == s[i].key@);
            }
        }
        assert(map_of(s).remove(s[i].key@) =~= map_of(s.drop_last()));
    } else {
        lemma_distinct_drop_last(s);
        assert(t.last() == s[s.len() - 1]);
        assert(t.drop_last() =~= s.drop_last().remove(i)) by {
            s.drop_last().remove_ensures(i);
            assert forall|j: int| 0 <= j < t.drop_last().len() implies t.drop_last()[j]
                == s.drop_last().remove(i)[j] by {
                assert(t.drop_last()[j] == t[j]);
            }
        }
        assert(s.drop_last()[i] == s[i]);
        lemma_map_of_remove(s.drop_last(), i);
        assert(s[i].key@ != s.last().key@);
        assert(map_of(s.drop_last()).remove(s[i].key@).insert(s.last().key@, s.last().value@)
            =~= map_of(s.drop_last()).insert(s.last().key@, s.last().value@).remove(s[i].key@));
    }
}

/// Under distinct keys the mapping's domain is finite and holds one key per
/// entry.
proof fn lemma_map_of_dom_len(s: Seq<Entry>)
    requires
        distinct_keys(s),
    ensures
        map_of(s).dom().finite(),
        map_of(s).dom().len() == s.len(),
    decreases s.len(),
{
    if s.len() > 0 {
        lemma_distinct_drop_last(s);
        lemma_map_of_dom_len(s.drop_last());
        lemma_map_of_contains(s.drop_last());
        assert(!map_of(s.drop_last()).contains_key(s.last().key@)) by {
            if map_of(s.drop_last()).contains_key(s.last().key@) {
                let j = choose|j: int|
                    0 <= j < s.drop_last().len() && s.drop_last()[j].key@ == s.last().key@;
                assert(s[j].key@ == s.last().key@);
            }
        }
        assert(map_of(s).dom() =~= map_of(s.drop_last()).dom().insert(s.last().key@));
    }
}

/// `keys` enumerates the domain of `m` exactly: every member is a live key,
/// every live key appears, no key appears twice, and the count matches. No
/// order is promised.
pub open spec fn enumerates(keys: Seq<String>, m: Map<Seq<char>, Seq<u8>>) -> bool {
    &&& keys.len() == m.dom().len()
    &&& forall|i: int| 0 <= i < keys.len() ==> m.contains_key(#[trigger] keys[i]@)
    &&& forall|k: Seq<char>|
        #[trigger] m.contains_key(k) ==> exists|i: int| 0 <= i < keys.len() && keys[i]@ == k
    &&& forall|i: int, j: int| 0 <= i < j < keys.len() ==> keys[i]@ != keys[j]@
}

/// A fresh buffer holding the same bytes.
fn copy_bytes(v: &Vec<u8>) -> (r: Vec<u8>)
    ensures
        r@ == v@,
{
    let mut r: Vec<u8> = Vec::new();
    let mut i: usize = 0;
    while i < v.len()
        invariant
            i <= v@.len(),
            r@ == v@.subrange(0, i as int),
        decreases v@.len() - i,
    {
        r.push(v[i]);
        proof {
            assert(v@.subrange(0, i + 1 as int) =~= v@.subrange(0, i as int).push(v@[i as int]));
        }
        i = i + 1;
    }
    proof {
        assert(v@.subrange(0, v@.len() as int) =~= v@);
    }
    r
}

/// The durable key-value store of the bridge.
///
/// The store is the single owner of its contents: every mutation goes through
/// `save`, `delete` or `clear`, and `get`/`list_keys` always reflect the most
/// recent of those. Its abstract value is a map from key characters to value
/// bytes. The surrounding shell writes the store to disk after each mutation
/// and reloads it at startup; the in-memory state here is what those writes
/// persist.
pub struct LocalStore {
    entries: Vec<Entry>,
}

impl View for LocalStore {
    type V = Map<Seq<char>, Seq<u8>>;

    closed spec fn view(&self) -> Map<Seq<char>, Seq<u8>> {
        map_of(self.entries@)
    }
}

impl LocalStore {
    /// Well-formedness: no key is held twice.
    pub closed spec fn wf(self) -> bool {
        distinct_keys(self.entries@)
    }

    /// An empty store.
    pub fn new() -> (s: LocalStore)
        ensures
            s.wf(),
            s@ == Map::<Seq<char>, Seq<u8>>::empty(),
    {
        let s = LocalStore { entries: Vec::new() };
        proof {
            assert(s@ =~= Map::<Seq<char>, Seq<u8>>::empty());
        }
        s
    }

    /// The index of the entry holding `key`, if any.
    fn find_index(&self, key: &String) -> (r: Option<usize>)
        ensures
            match r {
                Some(i) => i < self.entries@.len() && self.entries@[i as int].key@ == key@,
                None => forall|i: int|
                    0 <= i < self.entries@.len() ==> self.entries@[i].key@ != key@,
            },
    {
        let n = self.entries.len();
        let mut i: usize = 0;
        while i < n
            invariant
                n == self.entries@.len(),
                i <= n,
                forall|j: int| 0 <= j < i ==> self.entries@[j].key@ != key@,
            decreases n - i,
        {
            if self.entries[i].key == *key {
                return Some(i);
            }
            i = i + 1;
        }
        None
    }

    /// How many entries the store holds.
    pub fn len(&self) -> (n: usize)
        requires
            self.wf(),
        ensures
            n == self@.dom().len(),
            self@.dom().finite(),
    {
        proof {
            lemma_map_of_dom_len(self.entries@);
        }
        self.entries.len()
    }

    /// Exact-match lookup: the bytes last saved under `key`, or `NotFound`.
    pub fn get(&self, key: &String) -> (r: Result<Vec<u8>, BridgeError>)
        requires
            self.wf(),
        ensures
            self@.contains_key(key@) ==> (r matches Ok(v) && v@ == self@[key@]),
            !self@.contains_key(key@) ==> (r matches Err(e) && e == BridgeError::NotFound),
    {
        proof {
            lemma_map_of_contains(self.entries@);
        }
        match self.find_index(key) {
            Some(i) => {
                proof {
                    lemma_map_of_index(self.entries@, i as int);
                }
                Ok(copy_bytes(&self.entries[i].value))
            },
            None => Err(BridgeError::NotFound),
        }
    }

    /// Writes `value` under `key` with timestamp `now`, overwriting any
    /// existing entry for that key.
    pub fn save(&mut self, key: String, value: Vec<u8>, now: u64)
        requires
            old(self).wf(),
        ensures
            final(self).wf(),
            final(self)@ == old(self)@.insert(key@, value@),
    {
        let ghost old_entries = self.entries@;
        let idx = self.find_index(&key);
        let entry = Entry { key, value, updated_at: now };
        let ghost ge = entry;
        match idx {
            Some(i) => {
                self.entries.set(i, entry);
                proof {
                    lemma_map_of_update(old_entries, i as int, ge);
                    assert forall|a: int, b: int|
                        0 <= a < b < self.entries@.len() implies self.entries@[a].key@
                        != self.entries@[b].key@ by {
                        assert(old_entries[a].key@ != old_entries[b].key@);
                    }
                }
            },
            None => {
                self.entries.push(entry);
                proof {
                    assert(self.entries@.drop_last() =~= old_entries);
                    assert(self.entries@.last() == ge);
                    assert forall|a: int, b: int|
                        0 <= a < b < self.entries@.len() implies self.entries@[a].key@
                        != self.entries@[b].key@ by {
                        if b < self.entries@.len() - 1 {
                            assert(old_entries[a].key@ != old_entries[b].key@);
                        } else {
                            assert(self.entries@[a] == old_entries[a]);
                        }
                    }
                }
            },
        }
    }

    /// Removes the entry for `key`. Deleting an absent key is a no-op that
    /// still counts as success; the result reports whether an entry was
    /// present.
    pub fn delete(&mut self, key: &String) -> (was_present: bool)
        requires
            old(self).wf(),
        ensures
            final(self).wf(),
            final(self)@ == old(self)@.remove(key@),
            was_present == old(self)@.contains_key(key@),
    {
        let ghost old_entries = self.entries@;
        proof {
            lemma_map_of_contains(old_entries);
        }
        match self.find_index(key) {
            Some(i) => {
                self.entries.remove(i);
                proof {
                    old_entries.remove_ensures(i as int);
                    lemma_map_of_remove(old_entries, i as int);
                    assert forall|a: int, b: int|
                        0 <= a < b < self.entries@.len() implies self.entries@[a].key@
                        != self.entries@[b].key@ by {
                        let a0: int = if a < i { a } else { a + 1 };
                        let b0: int = if b < i { b } else { b + 1 };
                        assert(self.entries@[a] == old_entries[a0]);
                        assert(self.entries@[b] == old_entries[b0]);
                        assert(old_entries[a0].key@ != old_entries[b0].key@);
                    }
                }
                true
            },
            None => {
                proof {
                    assert(map_of(old_entries).remove(key@) =~= map_of(old_entries));
                }
                false
            },
        }
    }

    /// Removes every entry, leaving the store empty whatever it held before.
    pub fn clear(&mut self)
        ensures
            final(self).wf(),
            final(self)@ == Map::<Seq<char>, Seq<u8>>::empty(),
    {
        self.entries.clear();
        proof {
            assert(final(self)@ =~= Map::<Seq<char>, Seq<u8>>::empty());
        }
    }

    /// Every live key, each exactly once, in no promised order.
    pub fn list_keys(&self) -> (keys: Vec<String>)
        requires
            self.wf(),
        ensures
            enumerates(keys@, self@),
    {
        proof {
            lemma_map_of_contains(self.entries@);
            lemma_map_of_dom_len(self.entries@);
        }
        let n = self.entries.len();
        let mut keys: Vec<String> = Vec::new();
        let mut i: usize = 0;
        while i < n
            invariant
                n == self.entries@.len(),
                i <= n,
                keys@.len() == i,
                forall|j: int| 0 <= j < i ==> #[trigger] keys@[j]@ == self.entries@[j].key@,
            decreases n - i,
        {
            keys.push(self.entries[i].key.clone());
            i = i + 1;
        }
        proof {
            assert forall|i2: int| 0 <= i2 < keys@.len() implies self@.contains_key(
                #[trigger] keys@[i2]@,
            ) by {
                assert(self.entries@[i2].key@ == keys@[i2]@);
            }
            assert forall|k: Seq<char>| #[trigger] self@.contains_key(k) implies exists|i2: int|
                0 <= i2 < keys@.len() && keys@[i2]@ == k by {
                let j = choose|j: int| 0 <= j < self.entries@.len() && self.entries@[j].key@ == k;
                assert(keys@[j]@ == k);
            }
        }
        keys
    }

    /// The full live contents as rows of key, value bytes and saved
    /// timestamp — what the surrounding shell writes to disk after a
    /// mutation, and feeds back through `save` when it reloads the store at
    /// startup.
    pub fn snapshot(&self) -> (rows: Vec<(String, Vec<u8>, u64)>)
        requires
            self.wf(),
        ensures
            snapshot_matches(rows@, self@),
    {
        proof {
            lemma_map_of_contains(self.entries@);
            lemma_map_of_dom_len(self.entries@);
        }
        let n = self.entries.len();
        let mut rows: Vec<(String, Vec<u8>, u64)> = Vec::new();
        let mut i: usize = 0;
        while i < n
            invariant
                n == self.entries@.len(),
                i <= n,
                rows@.len() == i,
                forall|j: int|
                    0 <= j < i ==> (#[trigger] rows@[j]).0@ == self.entries@[j].key@ && rows@[j].1@
                        == self.entries@[j].value@,
            decreases n - i,
        {
            let e = &self.entries[i];
            rows.push((e.key.clone(), copy_bytes(&e.value), e.updated_at));
            i = i + 1;
        }
        proof {
            assert forall|i2: int| 0 <= i2 < rows@.len() implies self@.contains_key(
                #[trigger] rows@[i2].0@,
            ) && self@[rows@[i2].0@] == rows@[i2].1@ by {
                lemma_map_of_index(self.entries@, i2);
            }
            assert forall|k: Seq<char>| #[trigger] self@.contains_key(k) implies exists|i2: int|
                0 <= i2 < rows@.len() && rows@[i2].0@ == k by {
                let j = choose|j: int| 0 <= j < self.entries@.len() && self.entries@[j].key@ == k;
                assert(rows@[j].0@ == k);
            }
        }
        rows
    }
}

/// `rows` lists the live contents of `m` exactly: every row pairs a live key
/// with its mapped bytes, every live key has a row, and no key appears
/// twice. The third column is the entry's saved timestamp, on which the
/// mapping says nothing.
pub open spec fn snapshot_matches(
    rows: Seq<(String, Vec<u8>, u64)>,
    m: Map<Seq<char>, Seq<u8>>,
) -> bool {
    &&& rows.len() == m.dom().len()
    &&& forall|i: int|
        0 <= i < rows.len() ==> m.contains_key(#[trigger] rows[i].0@) && m[rows[i].0@]
            == rows[i].1@
    &&& forall|k: Seq<char>|
        #[trigger] m.contains_key(k) ==> exists|i: int| 0 <= i < rows.len() && rows[i].0@ == k
    &&& forall|i: int, j: int| 0 <= i < j < rows.len() ==> rows[i].0@ != rows[j].0@
}

/// Saving a value under a key and then reading that key returns exactly the
/// bytes saved: `save` leaves the store mapping the key to those bytes, and
/// `get` on a store whose mapping holds the key returns the mapped bytes.
pub proof fn lemma_save_then_get(m: Map<Seq<char>, Seq<u8>>, k: Seq<char>, v: Seq<u8>)
    ensures
        m.insert(k, v).contains_key(k),
        m.insert(k, v)[k] == v,
{
}

/// Deleting a key and then reading it finds nothing, whatever the store held
/// before: after `delete` the mapping no longer contains the key, so `get`
/// reports `NotFound`.
pub proof fn lemma_delete_then_get(m: Map<Seq<char>, Seq<u8>>, k: Seq<char>)
    ensures
        !m.remove(k).contains_key(k),
{
}

/// After `clear`, `list_keys` returns an empty sequence: any enumeration
/// whose members are all keys of the empty mapping has no members.
pub proof fn lemma_clear_then_list_keys(keys: Seq<Seq<char>>)
    requires
        forall|i: int|
            0 <= i < keys.len() ==> Map::<Seq<char>, Seq<u8>>::empty().contains_key(
                #[trigger] keys[i],
            ),
    ensures
        keys.len() == 0,
{
    if keys.len() > 0 {
        assert(Map::<Seq<char>, Seq<u8>>::empty().contains_key(keys[0]));
    }
}

/// Clearing is idempotent: the contents after a second `clear` equal the
/// contents after the first, since `clear` always leaves the empty mapping
/// regardless of the state it started from.
pub proof fn lemma_clear_idempotent(m1: Map<Seq<char>, Seq<u8>>, m2: Map<Seq<char>, Seq<u8>>)
    requires
        m1 == Map::<Seq<char>, Seq<u8>>::empty(),
        m2 == Map::<Seq<char>, Seq<u8>>::empty(),
    ensures
        m1 == m2,
{
}

} // verus!
