//! The keys and values of one shard.

use vstd::prelude::*;

use crate::strings::{is_sorted, sort_strings, text_le, texts};

verus! {

/// A stored key with its value.
pub struct KvEntry {
    /// The key.
    pub key: String,
    /// Its value.
    pub value: String,
}

/// Shard-local key-value state.
pub struct KvService {
    /// The entries, no key twice.
    pub entries: Vec<KvEntry>,
}

/// Keys and values as a map. Of entries with the same key the last counts.
pub open spec fn entry_map(entries: Seq<KvEntry>) -> Map<Seq<char>, Seq<char>>
    decreases entries.len(),
{
    if entries.len() == 0 {
        Map::empty()
    } else {
        entry_map(entries.drop_last()).insert(entries.last().key@, entries.last().value@)
    }
}

/// Whether no key occurs twice.
pub open spec fn distinct_keys(entries: Seq<KvEntry>) -> bool {
    forall|i: int, j: int|
        0 <= i < j < entries.len() ==> (#[trigger] entries[i]).key@ != (#[trigger] entries[j]).key@
}

/// What a map holds for a key.
pub open spec fn lookup(map: Map<Seq<char>, Seq<char>>, key: Seq<char>) -> Option<Seq<char>> {
    if map.contains_key(key) {
        Some(map[key])
    } else {
        None
    }
}

/// The text in an optional string.
pub open spec fn text_of(text: Option<String>) -> Option<Seq<char>> {
    match text {
        Some(text) => Some(text@),
        None => None,
    }
}

/// Whether `keys` lists the keys of a map, each once, in order.
pub open spec fn lists_keys(keys: Seq<Seq<char>>, map: Map<Seq<char>, Seq<char>>) -> bool {
    &&& is_sorted(keys)
    &&& keys.no_duplicates()
    &&& forall|key: Seq<char>| #[trigger] keys.contains(key) <==> map.contains_key(key)
}

impl View for KvService {
    type V = Map<Seq<char>, Seq<char>>;

    open spec fn view(&self) -> Map<Seq<char>, Seq<char>> {
        entry_map(self.entries@)
    }
}

proof fn lemma_entry(entries: Seq<KvEntry>, i: int)
    requires
        distinct_keys(entries),
        0 <= i < entries.len(),
    ensures
        entry_map(entries).contains_key(entries[i].key@),
        entry_map(entries)[entries[i].key@] == entries[i].value@,
    decreases entries.len(),
{
    if i < entries.len() - 1 {
        lemma_entry(entries.drop_last(), i);
        assert(entries[i].key@ != entries[entries.len() - 1].key@);
    }
}

proof fn lemma_no_entry(entries: Seq<KvEntry>, key: Seq<char>)
    requires
        forall|i: int| 0 <= i < entries.len() ==> (#[trigger] entries[i]).key@ != key,
    ensures
        !entry_map(entries).contains_key(key),
    decreases entries.len(),
{
    if entries.len() > 0 {
        assert(entries[entries.len() - 1].key@ != key);
        lemma_no_entry(entries.drop_last(), key);
    }
}

proof fn lemma_has_entry(entries: Seq<KvEntry>, key: Seq<char>) -> (i: int)
    requires
        entry_map(entries).contains_key(key),
    ensures
        0 <= i < entries.len(),
        entries[i].key@ == key,
{
    if forall|i: int| 0 <= i < entries.len() ==> (#[trigger] entries[i]).key@ != key {
        lemma_no_entry(entries, key);
    }
    choose|i: int| 0 <= i < entries.len() && (#[trigger] entries[i]).key@ == key
}

proof fn lemma_entry_count(entries: Seq<KvEntry>)
    requires
        distinct_keys(entries),
    ensures
        entry_map(entries).dom().finite(),
        entry_map(entries).len() == entries.len(),
    decreases entries.len(),
{
    if entries.len() > 0 {
        lemma_entry_count(entries.drop_last());
        let last = entries.last().key@;
        assert forall|i: int| 0 <= i < entries.drop_last().len() implies (
        #[trigger] entries.drop_last()[i]).key@ != last by {
            assert(entries[i].key@ != entries[entries.len() - 1].key@);
        }
        lemma_no_entry(entries.drop_last(), last);
    }
}

/// Two lists with distinct keys and the same entries hold the same map.
proof fn lemma_same_map(
    entries: Seq<KvEntry>,
    map: Map<Seq<char>, Seq<char>>,
)
    requires
        distinct_keys(entries),
        forall|i: int|
            0 <= i < entries.len() ==> map.contains_key((#[trigger] entries[i]).key@)
                && map[entries[i].key@] == entries[i].value@,
        forall|key: Seq<char>|
            #[trigger] map.contains_key(key) ==> exists|i: int|
                0 <= i < entries.len() && (#[trigger] entries[i]).key@ == key,
    ensures
        entry_map(entries) == map,
{
    let got = entry_map(entries);
    assert forall|key: Seq<char>| #[trigger] got.dom().contains(key) == map.dom().contains(key) by {
        if got.contains_key(key) {
            let i = lemma_has_entry(entries, key);
        }
        if map.contains_key(key) {
            let i = choose|i: int| 0 <= i < entries.len() && (#[trigger] entries[i]).key@ == key;
            lemma_entry(entries, i);
        }
    }
    assert forall|key: Seq<char>| got.dom().contains(key) implies #[trigger] got[key]
        == map[key] by {
        let i = lemma_has_entry(entries, key);
        lemma_entry(entries, i);
    }
    assert(got =~= map);
}

impl KvService {
    /// No key occurs twice.
    pub open spec fn wf(&self) -> bool {
        distinct_keys(self.entries@)
    }

    /// A store without keys.
    pub fn new() -> (service: Self)
        ensures
            service.wf(),
            service@ == Map::<Seq<char>, Seq<char>>::empty(),
    {
        KvService { entries: Vec::new() }
    }

    /// Where the entry of a key stands.
    fn position(&self, key: &String) -> (found: Option<usize>)
        requires
            self.wf(),
        ensures
            match found {
                Some(i) => i < self.entries@.len() && self.entries@[i as int].key@ == key@
                    && self@.contains_key(key@) && self@[key@] == self.entries@[i as int].value@,
                None => !self@.contains_key(key@) && forall|i: int|
                    0 <= i < self.entries@.len() ==> (#[trigger] self.entries@[i]).key@ != key@,
            },
    {
        let mut i: usize = 0;
        while i < self.entries.len()
            invariant
                self.wf(),
                i <= self.entries@.len(),
                forall|k: int| 0 <= k < i ==> (#[trigger] self.entries@[k]).key@ != key@,
            decreases self.entries@.len() - i,
        {
            if self.entries[i].key == *key {
                proof {
                    lemma_entry(self.entries@, i as int);
                }
                return Some(i);
            }
            i = i + 1;
        }
        proof {
            lemma_no_entry(self.entries@, key@);
        }
        None
    }

    /// The value of a key.
    pub fn get(&self, key: String) -> (value: Option<String>)
        requires
            self.wf(),
        ensures
            text_of(value) == lookup(self@, key@),
    {
        match self.position(&key) {
            Some(i) => Some(self.entries[i].value.clone()),
            None => None,
        }
    }

    /// Inserts or replaces the value of a key.
    pub fn put(&mut self, key: String, value: String)
        requires
            old(self).wf(),
        ensures
            final(self).wf(),
            final(self)@ == old(self)@.insert(key@, value@),
    {
        match self.position(&key) {
            Some(i) => {
                let ghost before = self.entries@;
                self.entries.set(i, KvEntry { key, value });
                proof {
                    let entries = self.entries@;
                    let map = entry_map(before).insert(key@, value@);
                    assert forall|a: int, b: int| 0 <= a < b < entries.len() implies (
                    #[trigger] entries[a]).key@ != (#[trigger] entries[b]).key@ by {
                        assert(before[a].key@ != before[b].key@);
                    }
                    assert forall|k: int| 0 <= k < entries.len() implies map.contains_key(
                        (#[trigger] entries[k]).key@,
                    ) && map[entries[k].key@] == entries[k].value@ by {
                        lemma_entry(before, k);
                        if k < i {
                            assert(before[k].key@ != before[i as int].key@);
                        } else if k > i {
                            assert(before[i as int].key@ != before[k].key@);
                        }
                    }
                    assert forall|other: Seq<char>| #[trigger] map.contains_key(
                        other,
                    ) implies exists|k: int|
                        0 <= k < entries.len() && (#[trigger] entries[k]).key@ == other by {
                        if other == key@ {
                            assert(entries[i as int].key@ == other);
                        } else {
                            let k = lemma_has_entry(before, other);
                            assert(entries[k].key@ == other);
                        }
                    }
                    lemma_same_map(entries, map);
                }
            },
            None => {
                let ghost before = self.entries@;
                self.entries.push(KvEntry { key, value });
                assert(self.entries@.drop_last() =~= before);
            },
        }
    }

    /// Replaces the value of a key where the present one is as expected. Says
    /// whether it did.
    pub fn compare_and_put(
        &mut self,
        key: String,
        expected: Option<String>,
        value: String,
    ) -> (replaced: bool)
        requires
            old(self).wf(),
        ensures
            final(self).wf(),
            replaced == (lookup(old(self)@, key@) == text_of(expected)),
            final(self)@ == if replaced {
                old(self)@.insert(key@, value@)
            } else {
                old(self)@
            },
    {
        let matches = match (self.position(&key), expected) {
            (None, None) => true,
            (Some(i), Some(expected)) => self.entries[i].value == expected,
            _ => false,
        };
        if matches {
            self.put(key, value);
        }
        matches
    }

    /// The present value of a key, or `value` after inserting it where there is
    /// none.
    pub fn get_or_put(&mut self, key: String, value: String) -> (stored: String)
        requires
            old(self).wf(),
        ensures
            final(self).wf(),
            match lookup(old(self)@, key@) {
                Some(present) => stored@ == present && final(self)@ == old(self)@,
                None => stored@ == value@ && final(self)@ == old(self)@.insert(key@, value@),
            },
    {
        match self.position(&key) {
            Some(i) => self.entries[i].value.clone(),
            None => {
                let stored = value.clone();
                self.put(key, value);
                stored
            },
        }
    }

    /// Removes a key and returns its value.
    pub fn delete(&mut self, key: String) -> (value: Option<String>)
        requires
            old(self).wf(),
        ensures
            final(self).wf(),
            text_of(value) == lookup(old(self)@, key@),
            final(self)@ == old(self)@.remove(key@),
    {
        match self.position(&key) {
            Some(i) => {
                let ghost before = self.entries@;
                let entry = self.entries.remove(i);
                proof {
                    let entries = self.entries@;
                    let map = entry_map(before).remove(key@);
                    assert(entries =~= before.remove(i as int));
                    assert forall|a: int, b: int| 0 <= a < b < entries.len() implies (
                    #[trigger] entries[a]).key@ != (#[trigger] entries[b]).key@ by {
                        let from_a = if a < i { a } else { a + 1 };
                        let from_b = if b < i { b } else { b + 1 };
                        assert(before[from_a].key@ != before[from_b].key@);
                    }
                    assert forall|k: int| 0 <= k < entries.len() implies map.contains_key(
                        (#[trigger] entries[k]).key@,
                    ) && map[entries[k].key@] == entries[k].value@ by {
                        let from = if k < i { k } else { k + 1 };
                        lemma_entry(before, from);
                        if from < i {
                            assert(before[from].key@ != before[i as int].key@);
                        } else {
                            assert(before[i as int].key@ != before[from].key@);
                        }
                    }
                    assert forall|other: Seq<char>| #[trigger] map.contains_key(
                        other,
                    ) implies exists|k: int|
                        0 <= k < entries.len() && (#[trigger] entries[k]).key@ == other by {
                        let k = lemma_has_entry(before, other);
                        if k < i {
                            assert(entries[k].key@ == other);
                        } else {
                            assert(entries[k - 1].key@ == other);
                        }
                    }
                    lemma_same_map(entries, map);
                }
                Some(entry.value)
            },
            None => {
                assert(self@.remove(key@) =~= self@);
                None
            },
        }
    }

    /// Number of keys.
    pub fn len(&self) -> (len: usize)
        requires
            self.wf(),
        ensures
            len == self@.len(),
            self@.dom().finite(),
    {
        proof {
            lemma_entry_count(self.entries@);
        }
        self.entries.len()
    }

    /// The keys, in order.
    pub fn keys(&self) -> (keys: Vec<String>)
        requires
            self.wf(),
        ensures
            lists_keys(texts(keys@), self@),
            keys@.len() == self@.len(),
            self@.dom().finite(),
    {
        let mut keys: Vec<String> = Vec::new();
        let mut i: usize = 0;
        while i < self.entries.len()
            invariant
                i <= self.entries@.len(),
                keys@.len() == i,
                forall|k: int| 0 <= k < i ==> (#[trigger] keys@[k])@ == self.entries@[k].key@,
            decreases self.entries@.len() - i,
        {
            keys.push(self.entries[i].key.clone());
            i = i + 1;
        }
        let ghost unsorted = texts(keys@);
        let keys = sort_strings(keys);
        proof {
            lemma_entry_count(self.entries@);
            assert forall|a: int, b: int|
                0 <= a < unsorted.len() && 0 <= b < unsorted.len() && a != b implies unsorted[a]
                != unsorted[b] by {
                assert(unsorted[a] == self.entries@[a].key@);
                assert(unsorted[b] == self.entries@[b].key@);
            }
            assert(unsorted.no_duplicates());
            lemma_sorted_keeps(texts(keys@), unsorted);
            assert forall|key: Seq<char>| #[trigger] texts(keys@).contains(
                key,
            ) <==> self@.contains_key(key) by {
                assert(texts(keys@).contains(key) == unsorted.contains(key));
                if unsorted.contains(key) {
                    let k = unsorted.index_of(key);
                    assert(unsorted[k] == self.entries@[k].key@);
                    lemma_entry(self.entries@, k);
                }
                if self@.contains_key(key) {
                    let k = lemma_has_entry(self.entries@, key);
                    assert(unsorted[k] == key);
                }
            }
        }
        keys
    }
}

/// Sequences with the same elements agree on membership and on the absence of
/// duplicates.
pub(crate) proof fn lemma_sorted_keeps(sorted: Seq<Seq<char>>, unsorted: Seq<Seq<char>>)
    requires
        sorted.to_multiset() == unsorted.to_multiset(),
    ensures
        unsorted.no_duplicates() ==> sorted.no_duplicates(),
        forall|text: Seq<char>| #[trigger] sorted.contains(text) == unsorted.contains(text),
{
    broadcast use vstd::seq_lib::group_to_multiset_ensures;

    if unsorted.no_duplicates() {
        unsorted.lemma_multiset_has_no_duplicates();
        sorted.lemma_multiset_has_no_duplicates_conv();
    }
    assert forall|text: Seq<char>| #[trigger] sorted.contains(text) == unsorted.contains(text) by {
        assert(sorted.contains(text) <==> sorted.to_multiset().count(text) > 0);
        assert(unsorted.contains(text) <==> unsorted.to_multiset().count(text) > 0);
    }
}

/// A shard holds for each key the value of the entry with that key, and nothing for a
/// key without an entry.
pub proof fn shard_holds_its_entries(service: KvService, key: Seq<char>)
    requires
        service.wf(),
    ensures
        service@.contains_key(key) <==> exists|i: int|
            0 <= i < service.entries@.len() && (#[trigger] service.entries@[i]).key@ == key,
        forall|i: int|
            0 <= i < service.entries@.len() && (#[trigger] service.entries@[i]).key@ == key
                ==> service@[key] == service.entries@[i].value@,
        service@.dom().finite(),
        service@.len() == service.entries@.len(),
{
    let entries = service.entries@;
    lemma_entry_count(entries);
    if entry_map(entries).contains_key(key) {
        let i = lemma_has_entry(entries, key);
        assert(entries[i].key@ == key);
    }
    assert forall|i: int| 0 <= i < entries.len() && (#[trigger] entries[i]).key@ == key implies
        entry_map(entries).contains_key(key) && entry_map(entries)[key] == entries[i].value@ by {
        lemma_entry(entries, i);
    }
}

/// A key is held with a value or not at all, and a text that is there is told from one
/// that is not, even an empty one.
pub proof fn lookup_tells_a_value_from_none(
    map: Map<Seq<char>, Seq<char>>,
    key: Seq<char>,
    text: Option<String>,
)
    ensures
        lookup(map, key) is None <==> !map.dom().contains(key),
        map.dom().contains(key) ==> lookup(map, key) == Some(map[key]),
        text_of(text) is None <==> text is None,
        text matches Some(present) ==> text_of(text) == Some(present@),
{
}

/// A listing has every key of the map and no other, each once, and each before those
/// that come after it in the order of texts.
pub proof fn listing_is_sorted_and_complete(
    keys: Seq<Seq<char>>,
    map: Map<Seq<char>, Seq<char>>,
)
    requires
        lists_keys(keys, map),
    ensures
        forall|i: int| 0 <= i < keys.len() ==> map.contains_key(#[trigger] keys[i]),
        forall|key: Seq<char>| #[trigger]
            map.contains_key(key) ==> exists|i: int|
                0 <= i < keys.len() && #[trigger] keys[i] == key,
        forall|i: int, j: int|
            0 <= i < j < keys.len() ==> #[trigger] keys[i] != #[trigger] keys[j] && text_le(
                keys[i],
                keys[j],
            ),
{
    assert forall|i: int| 0 <= i < keys.len() implies map.contains_key(#[trigger] keys[i]) by {
        assert(keys.contains(keys[i]));
    }
    assert forall|key: Seq<char>| #[trigger] map.contains_key(key) implies exists|i: int|
        0 <= i < keys.len() && #[trigger] keys[i] == key by {
        assert(keys.contains(key));
    }
}

} // verus!
