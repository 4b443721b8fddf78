//! Small association containers keyed by strings.
//!
//! `StrMap` is a vector of `(key, value)` pairs with distinct keys, viewed as a
//! mathematical `Map` from key characters to the deep view of the value;
//! `StrSet` is a vector of distinct strings viewed as a `Set`.
use vstd::prelude::*;

verus! {

/// The map denoted by a sequence of entries (later entries win).
pub open spec fn entries_map<V: DeepView>(s: Seq<(String, V)>) -> Map<Seq<char>, V::V>
    decreases s.len(),
{
    if s.len() == 0 {
        Map::empty()
    } else {
        entries_map(s.drop_last()).insert(s.last().0@, s.last().1.deep_view())
    }
}

/// No key occurs twice.
pub open spec fn keys_unique<V>(s: Seq<(String, V)>) -> bool {
    forall|i: int, j: int| 0 <= i < j < s.len() ==> s[i].0@ != s[j].0@
}

pub proof fn lemma_entries_dom<V: DeepView>(s: Seq<(String, V)>, k: Seq<char>)
    ensures
        entries_map(s).dom().contains(k) <==> exists|i: int| 0 <= i < s.len() && s[i].0@ == k,
    decreases s.len(),
{
    if s.len() > 0 {
        lemma_entries_dom(s.drop_last(), k);
        if entries_map(s).dom().contains(k) && s.last().0@ != k {
            let i = choose|i: int| 0 <= i < s.drop_last().len() && s.drop_last()[i].0@ == k;
            assert(s[i].0@ == k);
        }
        if exists|i: int| 0 <= i < s.len() && s[i].0@ == k {
            let i = choose|i: int| 0 <= i < s.len() && s[i].0@ == k;
            if i < s.len() - 1 {
                assert(s.drop_last()[i].0@ == k);
            }
        }
    }
}

pub proof fn lemma_entries_val<V: DeepView>(s: Seq<(String, V)>, i: int)
    requires
        keys_unique(s),
        0 <= i < s.len(),
    ensures
        entries_map(s).dom().contains(s[i].0@),
        entries_map(s)[s[i].0@] == s[i].1.deep_view(),
    decreases s.len(),
{
    lemma_entries_dom(s, s[i].0@);
    if i < s.len() - 1 {
        assert(keys_unique(s.drop_last()));
        lemma_entries_val(s.drop_last(), i);
        assert(s.drop_last()[i] == s[i]);
    }
}

/// Removing the entry at `i` removes its key from the map and keeps the keys
/// distinct.
pub proof fn lemma_remove_at<V: DeepView>(old_entries: Seq<(String, V)>, i: int)
    requires
        keys_unique(old_entries),
        0 <= i < old_entries.len(),
    ensures
        keys_unique(old_entries.remove(i)),
        entries_map(old_entries.remove(i)) == entries_map(old_entries).remove(old_entries[i].0@),
{
    let s = old_entries.remove(i);
    let k = old_entries[i].0@;
    assert(keys_unique(s)) by {
        assert forall|a: int, b: int| 0 <= a < b < s.len() implies s[a].0@ != s[b].0@ by {
            let oa = if a < i { a } else { a + 1 };
            let ob = if b < i { b } else { b + 1 };
            assert(s[a] == old_entries[oa]);
            assert(s[b] == old_entries[ob]);
        }
    }
    assert forall|x: Seq<char>| #[trigger] entries_map(s).dom().contains(x) <==> entries_map(old_entries).remove(
        k,
    ).dom().contains(x) by {
        lemma_entries_dom(s, x);
        lemma_entries_dom(old_entries, x);
        if entries_map(s).dom().contains(x) {
            let j = choose|j: int| 0 <= j < s.len() && s[j].0@ == x;
            let oj = if j < i { j } else { j + 1 };
            assert(old_entries[oj].0@ == x);
            assert(oj != i);
        }
        if x != k && entries_map(old_entries).dom().contains(x) {
            let j = choose|j: int| 0 <= j < old_entries.len() && old_entries[j].0@ == x;
            assert(j != i);
            let nj = if j < i { j } else { j - 1 };
            assert(s[nj].0@ == x);
        }
    }
    assert forall|x: Seq<char>| #[trigger] entries_map(s).dom().contains(x) implies entries_map(s)[x]
        == entries_map(old_entries).remove(k)[x] by {
        lemma_entries_dom(s, x);
        let j = choose|j: int| 0 <= j < s.len() && s[j].0@ == x;
        let oj = if j < i { j } else { j + 1 };
        lemma_entries_val(s, j);
        lemma_entries_val(old_entries, oj);
    }
    assert(entries_map(s) =~= entries_map(old_entries).remove(k));
}

/// A map from strings to values, stored as a vector of entries with distinct keys.
pub struct StrMap<V> {
    entries: Vec<(String, V)>,
}

impl<V: DeepView> StrMap<V> {
    pub closed spec fn view(&self) -> Map<Seq<char>, V::V> {
        entries_map(self.entries@)
    }

    /// The stored keys are pairwise distinct.
    pub closed spec fn wf(&self) -> bool {
        keys_unique(self.entries@)
    }

    pub fn new() -> (m: Self)
        ensures
            m.wf(),
            m.view() == Map::<Seq<char>, V::V>::empty(),
    {
        StrMap { entries: Vec::new() }
    }

    fn find(&self, key: &str) -> (r: Option<usize>)
        ensures
            r matches Some(i) ==> i < self.entries@.len() && self.entries@[i as int].0@ == key@,
            r is None ==> forall|j: int| 0 <= j < self.entries@.len() ==> self.entries@[j].0@ != key@,
    {
        let mut i: usize = 0;
        while i < self.entries.len()
            invariant
                i <= self.entries@.len(),
                forall|j: int| 0 <= j < i ==> self.entries@[j].0@ != key@,
            decreases self.entries@.len() - i,
        {
            if str_eq(self.entries[i].0.as_str(), key) {
                return Some(i);
            }
            i += 1;
        }
        None
    }

    /// The value stored under `key`, if any.
    pub fn get(&self, key: &str) -> (r: Option<&V>)
        requires
            self.wf(),
        ensures
            r is Some <==> self.view().contains_key(key@),
            r matches Some(v) ==> self.view()[key@] == v.deep_view(),
    {
        proof {
            lemma_entries_dom(self.entries@, key@);
        }
        match self.find(key) {
            Some(i) => {
                proof {
                    lemma_entries_val(self.entries@, i as int);
                }
                Some(&self.entries[i].1)
            },
            None => None,
        }
    }

    /// Whether `key` is present.
    pub fn contains_key(&self, key: &str) -> (r: bool)
        requires
            self.wf(),
        ensures
            r == self.view().contains_key(key@),
    {
        self.get(key).is_some()
    }

    /// Store `value` under `key`, replacing any previous value.
    pub fn insert(&mut self, key: String, value: V)
        requires
            old(self).wf(),
        ensures
            final(self).wf(),
            final(self).view() == old(self).view().insert(key@, value.deep_view()),
    {
        let ghost old_entries = self.entries@;
        let ghost k = key@;
        let ghost v = value.deep_view();
        match self.find(key.as_str()) {
            Some(i) => {
                self.entries.set(i, (key, value));
                proof {
                    let s = self.entries@;
                    assert(keys_unique(s)) by {
                        assert forall|a: int, b: int| 0 <= a < b < s.len() implies s[a].0@ != s[b].0@ by {
                            if a != i && b != i {
                                assert(old_entries[a].0@ != old_entries[b].0@);
                            } else if a == i {
                                assert(old_entries[a].0@ != old_entries[b].0@);
                            } else {
                                assert(old_entries[a].0@ != old_entries[b].0@);
                            }
                        }
                    }
                    assert forall|x: Seq<char>| #[trigger] entries_map(s).dom().contains(x) <==> entries_map(old_entries).insert(k, v).dom().contains(x) by {
                        lemma_entries_dom(s, x);
                        lemma_entries_dom(old_entries, x);
                        if x != k && entries_map(s).dom().contains(x) {
                            let j = choose|j: int| 0 <= j < s.len() && s[j].0@ == x;
                            assert(old_entries[j].0@ == x);
                        }
                        if x != k && entries_map(old_entries).dom().contains(x) {
                            let j = choose|j: int| 0 <= j < old_entries.len() && old_entries[j].0@ == x;
                            assert(s[j].0@ == x);
                        }
                        if x == k {
                            assert(s[i as int].0@ == x);
                        }
                    }
                    assert forall|x: Seq<char>| #[trigger] entries_map(s).dom().contains(x) implies entries_map(s)[x] == entries_map(old_entries).insert(k, v)[x] by {
                        lemma_entries_dom(s, x);
                        let j = choose|j: int| 0 <= j < s.len() && s[j].0@ == x;
                        lemma_entries_val(s, j);
                        if j != i {
                            lemma_entries_val(old_entries, j);
                        }
                    }
                    assert(entries_map(s) =~= entries_map(old_entries).insert(k, v));
                }
            },
            None => {
                self.entries.push((key, value));
                proof {
                    assert(self.entries@.drop_last() =~= old_entries);
                    let s = self.entries@;
                    assert(keys_unique(s)) by {
                        assert forall|a: int, b: int| 0 <= a < b < s.len() implies s[a].0@ != s[b].0@ by {
                            if b < s.len() - 1 {
                                assert(old_entries[a].0@ != old_entries[b].0@);
                            } else {
                                assert(old_entries[a].0@ != k);
                            }
                        }
                    }
                }
            },
        }
    }

    /// Remove `key` (if present).
    pub fn remove(&mut self, key: &str)
        requires
            old(self).wf(),
        ensures
            final(self).wf(),
            final(self).view() == old(self).view().remove(key@),
    {
        let _ = self.take(key);
    }

    /// Remove `key` and hand back the value stored under it, if any.
    pub fn take(&mut self, key: &str) -> (r: Option<V>)
        requires
            old(self).wf(),
        ensures
            final(self).wf(),
            final(self).view() == old(self).view().remove(key@),
            r is Some <==> old(self).view().contains_key(key@),
            r matches Some(v) ==> v.deep_view() == old(self).view()[key@],
    {
        let ghost old_entries = self.entries@;
        let ghost k = key@;
        proof {
            lemma_entries_dom(old_entries, k);
        }
        match self.find(key) {
            Some(i) => {
                proof {
                    lemma_entries_val(old_entries, i as int);
                    lemma_remove_at(old_entries, i as int);
                }
                let (_, v) = self.entries.remove(i);
                assert(self.entries@ =~= old_entries.remove(i as int));
                Some(v)
            },
            None => {
                proof {
                    assert(entries_map(old_entries).remove(k) =~= entries_map(old_entries));
                }
                None
            },
        }
    }

    /// Number of stored entries.
    pub closed spec fn spec_len(&self) -> nat {
        self.entries@.len()
    }

    /// Key of the `i`-th stored entry.
    pub closed spec fn spec_key(&self, i: int) -> Seq<char> {
        self.entries@[i].0@
    }

    /// Value of the `i`-th stored entry.
    pub closed spec fn spec_val(&self, i: int) -> V::V {
        self.entries@[i].1.deep_view()
    }

    /// Every stored entry belongs to the map.
    pub proof fn lemma_index(&self, i: int)
        requires
            self.wf(),
            0 <= i < self.spec_len(),
        ensures
            self.view().contains_key(self.spec_key(i)),
            self.view()[self.spec_key(i)] == self.spec_val(i),
    {
        lemma_entries_val(self.entries@, i);
    }

    /// Every key of the map is stored at some index.
    pub proof fn lemma_covered(&self, k: Seq<char>)
        ensures
            self.view().contains_key(k) ==> exists|i: int| 0 <= i < self.spec_len() && self.spec_key(i) == k,
    {
        lemma_entries_dom(self.entries@, k);
        if self.view().contains_key(k) {
            let i = choose|i: int| 0 <= i < self.entries@.len() && self.entries@[i].0@ == k;
            assert(self.spec_key(i) == k);
        }
    }

    /// A map with no stored entries is empty.
    pub proof fn lemma_empty_view(&self)
        requires
            self.spec_len() == 0,
        ensures
            self.view() == Map::<Seq<char>, V::V>::empty(),
    {
        assert forall|k: Seq<char>| !self.view().contains_key(k) by {
            lemma_entries_dom(self.entries@, k);
        }
        assert(self.view() =~= Map::<Seq<char>, V::V>::empty());
    }

    /// Number of stored entries.
    pub fn len(&self) -> (r: usize)
        ensures
            r == self.spec_len(),
    {
        self.entries.len()
    }

    /// The `i`-th stored entry.
    pub fn entry(&self, i: usize) -> (r: (&String, &V))
        requires
            i < self.spec_len(),
        ensures
            r.0@ == self.spec_key(i as int),
            r.1.deep_view() == self.spec_val(i as int),
    {
        (&self.entries[i].0, &self.entries[i].1)
    }

    /// Remove every key listed in `keys`.
    pub fn remove_all(&mut self, keys: &Vec<String>)
        requires
            old(self).wf(),
        ensures
            final(self).wf(),
            final(self).view() == old(self).view().remove_keys(keys@.map_values(|k: String| k@).to_set()),
    {
        let ghost ks = keys@.map_values(|k: String| k@);
        let mut i: usize = 0;
        while i < keys.len()
            invariant
                i <= keys@.len(),
                ks == keys@.map_values(|k: String| k@),
                self.wf(),
                self.view() == old(self).view().remove_keys(ks.take(i as int).to_set()),
            decreases keys@.len() - i,
        {
            self.remove(keys[i].as_str());
            proof {
                assert(ks.take(i + 1) =~= ks.take(i as int).push(ks[i as int]));
                ks.take(i as int).lemma_push_to_set_commute(ks[i as int]);
                assert(self.view() =~= old(self).view().remove_keys(ks.take(i + 1).to_set()));
            }
            i += 1;
        }
        assert(ks.take(keys@.len() as int) =~= ks);
    }

    /// Remove every entry.
    pub fn clear(&mut self)
        ensures
            final(self).wf(),
            final(self).view() == Map::<Seq<char>, V::V>::empty(),
    {
        self.entries = Vec::new();
    }
}

/// Character-wise equality of two strings.
pub fn str_eq(a: &str, b: &str) -> (r: bool)
    ensures
        r == (a@ == b@),
{
    let la = a.unicode_len();
    let lb = b.unicode_len();
    if la != lb {
        return false;
    }
    let mut i: usize = 0;
    while i < la
        invariant
            la == a@.len(),
            lb == b@.len(),
            la == lb,
            i <= la,
            forall|j: int| 0 <= j < i ==> a@[j] == b@[j],
        decreases la - i,
    {
        if a.get_char(i) != b.get_char(i) {
            return false;
        }
        i += 1;
    }
    assert(a@ =~= b@);
    true
}

} // verus!

verus! {

/// A set of strings, stored as a vector without repetitions.
pub struct StrSet {
    items: Vec<String>,
}

impl StrSet {
    pub closed spec fn view(&self) -> Set<Seq<char>> {
        Set::new(|k: Seq<char>| exists|i: int| 0 <= i < self.items@.len() && self.items@[i]@ == k)
    }

    pub fn new() -> (s: Self)
        ensures
            s.view() == Set::<Seq<char>>::empty(),
    {
        let s = StrSet { items: Vec::new() };
        assert(s.view() =~= Set::<Seq<char>>::empty());
        s
    }

    /// Whether `key` is a member.
    pub fn contains(&self, key: &str) -> (r: bool)
        ensures
            r == self.view().contains(key@),
    {
        let mut i: usize = 0;
        while i < self.items.len()
            invariant
                i <= self.items@.len(),
                forall|j: int| 0 <= j < i ==> self.items@[j]@ != key@,
            decreases self.items@.len() - i,
        {
            if str_eq(self.items[i].as_str(), key) {
                return true;
            }
            i += 1;
        }
        false
    }

    /// Add `key`.
    pub fn insert(&mut self, key: String)
        ensures
            final(self).view() == old(self).view().insert(key@),
    {
        if !self.contains(key.as_str()) {
            let ghost k = key@;
            let ghost old_items = self.items@;
            self.items.push(key);
            proof {
                assert forall|x: Seq<char>| #[trigger] self.view().contains(x) <==> old(self).view().insert(k).contains(x) by {
                    if self.view().contains(x) && x != k {
                        let j = choose|j: int| 0 <= j < self.items@.len() && self.items@[j]@ == x;
                        assert(old_items[j]@ == x);
                    }
                    if old(self).view().contains(x) {
                        let j = choose|j: int| 0 <= j < old_items.len() && old_items[j]@ == x;
                        assert(self.items@[j]@ == x);
                    }
                    if x == k {
                        assert(self.items@[self.items@.len() - 1]@ == x);
                    }
                }
            }
            assert(self.view() =~= old(self).view().insert(k));
        } else {
            assert(self.view() =~= old(self).view().insert(key@));
        }
    }

    /// Add every string of `keys`.
    pub fn insert_all(&mut self, keys: &Vec<String>)
        ensures
            final(self).view() == old(self).view().union(keys@.map_values(|k: String| k@).to_set()),
    {
        let ghost ks = keys@.map_values(|k: String| k@);
        let mut i: usize = 0;
        while i < keys.len()
            invariant
                i <= keys@.len(),
                ks == keys@.map_values(|k: String| k@),
                self.view() == old(self).view().union(ks.take(i as int).to_set()),
            decreases keys@.len() - i,
        {
            self.insert(keys[i].clone());
            proof {
                assert(ks.take(i + 1) =~= ks.take(i as int).push(ks[i as int]));
                ks.take(i as int).lemma_push_to_set_commute(ks[i as int]);
                assert(self.view() =~= old(self).view().union(ks.take(i + 1).to_set()));
            }
            i += 1;
        }
        assert(ks.take(keys@.len() as int) =~= ks);
    }

    /// Remove `key` (every copy of it).
    pub fn remove(&mut self, key: &str)
        ensures
            final(self).view() == old(self).view().remove(key@),
    {
        let ghost old_items = self.items@;
        let mut kept: Vec<String> = Vec::new();
        let mut i: usize = 0;
        while i < self.items.len()
            invariant
                i <= self.items@.len(),
                self.items@ == old_items,
                forall|j: int| 0 <= j < kept@.len() ==> kept@[j]@ != key@,
                forall|j: int| #![trigger kept@[j]] 0 <= j < kept@.len() ==> exists|m: int| 0 <= m < i && #[trigger] old_items[m]@ == kept@[j]@,
                forall|m: int| #![trigger old_items[m]] 0 <= m < i && old_items[m]@ != key@ ==> exists|j: int| 0 <= j < kept@.len() && #[trigger] kept@[j]@ == old_items[m]@,
            decreases self.items@.len() - i,
        {
            if !str_eq(self.items[i].as_str(), key) {
                let ghost before = kept@;
                kept.push(self.items[i].clone());
                proof {
                    assert(kept@[kept@.len() - 1]@ == old_items[i as int]@);
                    assert forall|j: int| #![trigger kept@[j]] 0 <= j < kept@.len() implies exists|m: int| 0 <= m < i + 1 && #[trigger] old_items[m]@ == kept@[j]@ by {
                        if j < before.len() {
                            assert(kept@[j] == before[j]);
                        } else {
                            assert(old_items[i as int]@ == kept@[j]@);
                        }
                    }
                    assert forall|m: int| #![trigger old_items[m]] 0 <= m < i + 1 && old_items[m]@ != key@ implies exists|j: int| 0 <= j < kept@.len() && #[trigger] kept@[j]@ == old_items[m]@ by {
                        if m < i {
                            let j = choose|j: int| 0 <= j < before.len() && #[trigger] before[j]@ == old_items[m]@;
                            assert(kept@[j] == before[j]);
                        } else {
                            assert(kept@[kept@.len() - 1]@ == old_items[m]@);
                        }
                    }
                }
            }
            i += 1;
        }
        self.items = kept;
        assert(self.view() =~= old(self).view().remove(key@));
    }

    /// Remove every member.
    pub fn clear(&mut self)
        ensures
            final(self).view() == Set::<Seq<char>>::empty(),
    {
        self.items = Vec::new();
        assert(self.view() =~= Set::<Seq<char>>::empty());
    }
}

} // verus!
