use vstd::prelude::*;

verus! {

/// A map keyed by text that keeps its entries in insertion order.
pub struct Table<V> {
    entries: Vec<(String, V)>,
}

pub open spec fn keys_distinct<V>(entries: Seq<(String, V)>) -> bool {
    forall|i: int, j: int|
        0 <= i < entries.len() && 0 <= j < entries.len() && i != j ==> #[trigger] entries[i].0@
            != #[trigger] entries[j].0@
}

pub open spec fn holds_key<V>(entries: Seq<(String, V)>, key: Seq<char>) -> bool {
    exists|i: int| 0 <= i < entries.len() && #[trigger] entries[i].0@ == key
}

pub open spec fn position<V>(entries: Seq<(String, V)>, key: Seq<char>) -> int {
    choose|i: int| 0 <= i < entries.len() && #[trigger] entries[i].0@ == key
}

/// The map that a list of distinct-keyed entries stands for.
pub open spec fn entries_map<V>(entries: Seq<(String, V)>) -> Map<Seq<char>, V> {
    Map::new(|k: Seq<char>| holds_key(entries, k), |k: Seq<char>| entries[position(entries, k)].1)
}

pub(crate) proof fn lemma_position<V>(entries: Seq<(String, V)>, i: int)
    requires
        keys_distinct(entries),
        0 <= i < entries.len(),
    ensures
        holds_key(entries, entries[i].0@),
        position(entries, entries[i].0@) == i,
        entries_map(entries).contains_key(entries[i].0@),
        entries_map(entries)[entries[i].0@] == entries[i].1,
{
    assert(holds_key(entries, entries[i].0@));
}

/// A prefix one longer holds what the shorter one holds and the next item.
pub(crate) proof fn lemma_take_next_contains<T>(s: Seq<T>, i: int)
    requires
        0 <= i < s.len(),
    ensures
        s.take(i + 1) == s.take(i).push(s[i]),
        forall|k: T| #[trigger] s.take(i + 1).contains(k) <==> (s.take(i).contains(k) || k == s[i]),
{
    let pre = s.take(i);
    let post = s.take(i + 1);
    assert(post =~= pre.push(s[i]));
    assert forall|k: T| #[trigger] post.contains(k) <==> (pre.contains(k) || k == s[i]) by {
        if post.contains(k) && k != s[i] {
            let j = choose|j: int| 0 <= j < post.len() && post[j] == k;
            assert(pre[j] == k);
        }
        if pre.contains(k) {
            let j = choose|j: int| 0 <= j < pre.len() && pre[j] == k;
            assert(post[j] == k);
        }
        if k == s[i] {
            assert(post[i] == k);
        }
    }
}

/// What a sequence holds after a push.
pub(crate) proof fn lemma_push_contains<T>(s: Seq<T>, x: T)
    ensures
        forall|k: T| #[trigger] s.push(x).contains(k) <==> (s.contains(k) || k == x),
{
    let t = s.push(x);
    assert forall|k: T| #[trigger] t.contains(k) <==> (s.contains(k) || k == x) by {
        if t.contains(k) && k != x {
            let j = choose|j: int| 0 <= j < t.len() && t[j] == k;
            assert(s[j] == k);
        }
        if s.contains(k) {
            let j = choose|j: int| 0 <= j < s.len() && s[j] == k;
            assert(t[j] == k);
        }
        if k == x {
            assert(t[s.len() as int] == k);
        }
    }
}

/// Picking items of a duplicate-free sequence in order, one at a time, keeps
/// the picks free of duplicates: the next item was not picked before.
pub(crate) proof fn lemma_pick_next_distinct<T>(picked: Seq<T>, all: Seq<T>, i: int)
    requires
        all.no_duplicates(),
        0 <= i < all.len(),
        picked.no_duplicates(),
        forall|k: T| #[trigger] picked.contains(k) ==> all.take(i).contains(k),
    ensures
        picked.push(all[i]).no_duplicates(),
{
    let x = all[i];
    if picked.contains(x) {
        let j = choose|j: int| 0 <= j < all.take(i).len() && all.take(i)[j] == x;
        assert(all[j] == all[i]);
    }
    let t = picked.push(x);
    assert forall|a: int, b: int| 0 <= a < t.len() && 0 <= b < t.len() && a != b implies t[a] != t[b] by {
        if a == picked.len() {
            assert(picked.contains(t[b]));
        } else if b == picked.len() {
            assert(picked.contains(t[a]));
        }
    }
}

impl<V> Table<V> {
    #[verifier::type_invariant]
    spec fn distinct(self) -> bool {
        keys_distinct(self.entries@)
    }

    /// The entries in insertion order.
    pub closed spec fn pairs(self) -> Seq<(String, V)> {
        self.entries@
    }

    /// The keys in insertion order.
    pub open spec fn key_seq(self) -> Seq<Seq<char>> {
        self.pairs().map_values(|e: (String, V)| e.0@)
    }

    pub open spec fn map(self) -> Map<Seq<char>, V> {
        entries_map(self.pairs())
    }

    pub fn new() -> (t: Self)
        ensures
            t.pairs().len() == 0,
            t.map() == Map::<Seq<char>, V>::empty(),
    {
        let t = Table { entries: Vec::new() };
        assert(t.map() =~= Map::<Seq<char>, V>::empty());
        t
    }

    pub fn len(&self) -> (n: usize)
        ensures
            n == self.pairs().len(),
    {
        self.entries.len()
    }

    /// The entry at a position in insertion order.
    pub fn entry(&self, i: usize) -> (e: (&String, &V))
        requires
            i < self.pairs().len(),
        ensures
            *e.0 == self.pairs()[i as int].0,
            *e.1 == self.pairs()[i as int].1,
    {
        (&self.entries[i].0, &self.entries[i].1)
    }

    /// The keys in insertion order.
    pub fn keys(&self) -> (keys: Vec<String>)
        ensures
            keys.deep_view() == self.key_seq(),
            self.key_seq().no_duplicates(),
            forall|k: Seq<char>| #[trigger] self.map().contains_key(k) <==> self.key_seq().contains(k),
    {
        proof {
            use_type_invariant(self);
        }
        let mut keys: Vec<String> = Vec::new();
        let mut i: usize = 0;
        while i < self.entries.len()
            invariant
                i <= self.entries.len(),
                keys.deep_view() == self.key_seq().take(i as int),
            decreases self.entries.len() - i,
        {
            let ghost old_keys = keys.deep_view();
            let c = self.entries[i].0.clone();
            keys.push(c);
            assert(keys.deep_view() =~= old_keys.push(c@));
            assert(self.key_seq()[i as int] == self.entries@[i as int].0@);
            assert(keys.deep_view() =~= self.key_seq().take(i + 1));
            i = i + 1;
        }
        let ghost e = self.entries@;
        let ghost ks = self.key_seq();
        assert(keys.deep_view() =~= ks);
        assert forall|a: int, b: int| 0 <= a < ks.len() && 0 <= b < ks.len() && a != b implies ks[a] != ks[b] by {
            assert(e[a].0@ != e[b].0@);
        }
        assert forall|k: Seq<char>| #[trigger] self.map().contains_key(k) <==> ks.contains(k) by {
            if ks.contains(k) {
                let j = choose|j: int| 0 <= j < ks.len() && ks[j] == k;
                assert(e[j].0@ == k);
            }
            if self.map().contains_key(k) {
                let j = choose|j: int| 0 <= j < e.len() && #[trigger] e[j].0@ == k;
                assert(ks[j] == k);
            }
        }
        keys
    }

    fn find(&self, key: &str) -> (i: Option<usize>)
        ensures
            match i {
                Some(i) => i < self.pairs().len() && self.pairs()[i as int].0@ == key@,
                None => !holds_key(self.pairs(), key@),
            },
    {
        let mut i: usize = 0;
        while i < self.entries.len()
            invariant
                i <= self.entries.len(),
                forall|j: int| 0 <= j < i ==> self.entries@[j].0@ != key@,
            decreases self.entries.len() - i,
        {
            if crate::text::same_str(self.entries[i].0.as_str(), key) {
                return Some(i);
            }
            i = i + 1;
        }
        None
    }

    pub fn get(&self, key: &str) -> (v: Option<&V>)
        ensures
            match v {
                Some(v) => self.map().contains_key(key@) && *v == self.map()[key@],
                None => !self.map().contains_key(key@),
            },
            v is Some <==> self.key_seq().contains(key@),
    {
        proof {
            use_type_invariant(self);
        }
        match self.find(key) {
            Some(i) => {
                proof {
                    lemma_position(self.entries@, i as int);
                    assert(self.key_seq()[i as int] == key@);
                }
                Some(&self.entries[i].1)
            },
            None => {
                proof {
                    if self.key_seq().contains(key@) {
                        let j = choose|j: int| 0 <= j < self.key_seq().len() && self.key_seq()[j] == key@;
                        assert(self.entries@[j].0@ == key@);
                    }
                }
                None
            },
        }
    }

    pub fn contains_key(&self, key: &str) -> (b: bool)
        ensures
            b == self.map().contains_key(key@),
    {
        self.find(key).is_some()
    }

    /// Set the value of a key; a new key goes last, a known key keeps its place.
    pub fn insert(&mut self, key: String, value: V)
        ensures
            final(self).map() == old(self).map().insert(key@, value),
            old(self).map().contains_key(key@) ==> final(self).key_seq() == old(self).key_seq(),
            !old(self).map().contains_key(key@) ==> final(self).key_seq() == old(self).key_seq().push(
                key@,
            ),
    {
        proof {
            use_type_invariant(&*self);
        }
        let ghost before = self.entries@;
        match self.find(key.as_str()) {
            Some(i) => {
                let ghost k = key@;
                let mut entries: Vec<(String, V)> = Vec::new();
                std::mem::swap(&mut entries, &mut self.entries);
                entries.set(i, (key, value));
                proof {
                    let after = entries@;
                    assert(keys_distinct(after)) by {
                        assert forall|a: int, b: int|
                            0 <= a < after.len() && 0 <= b < after.len() && a != b implies after[a].0@
                            != after[b].0@ by {
                            assert(before[a].0@ != before[b].0@);
                        }
                    }
                    assert forall|k2: Seq<char>| holds_key(after, k2) <==> holds_key(before, k2) by {
                        if holds_key(after, k2) {
                            let j = choose|j: int| 0 <= j < after.len() && #[trigger] after[j].0@ == k2;
                            assert(before[j].0@ == k2);
                        }
                        if holds_key(before, k2) {
                            let j = choose|j: int| 0 <= j < before.len() && #[trigger] before[j].0@ == k2;
                            assert(after[j].0@ == k2);
                        }
                    }
                    assert forall|k2: Seq<char>| holds_key(after, k2) && k2 != k implies after[position(after, k2)].1
                        == before[position(before, k2)].1 by {
                        let p = position(before, k2);
                        lemma_position(before, p);
                        assert(after[p].0@ == k2);
                        lemma_position(after, p);
                    }
                    lemma_position(after, i as int);
                    assert(entries_map(after) =~= entries_map(before).insert(k, value));
                    assert(after.map_values(|e: (String, V)| e.0@) =~= before.map_values(|e: (String, V)| e.0@));
                }
                self.entries = entries;
            },
            None => {
                let ghost k = key@;
                let mut entries: Vec<(String, V)> = Vec::new();
                std::mem::swap(&mut entries, &mut self.entries);
                entries.push((key, value));
                proof {
                    let after = entries@;
                    assert(keys_distinct(after)) by {
                        assert forall|a: int, b: int|
                            0 <= a < after.len() && 0 <= b < after.len() && a != b implies after[a].0@
                            != after[b].0@ by {
                            if a < before.len() && b < before.len() {
                                assert(before[a].0@ != before[b].0@);
                            } else if a < before.len() {
                                assert(after[a] == before[a]);
                            } else {
                                assert(after[b] == before[b]);
                            }
                        }
                    }
                    assert forall|k2: Seq<char>| k2 != k implies (holds_key(after, k2) <==> holds_key(before, k2)) by {
                        if holds_key(after, k2) {
                            let j = choose|j: int| 0 <= j < after.len() && #[trigger] after[j].0@ == k2;
                            assert(j < before.len());
                            assert(before[j].0@ == k2);
                        }
                        if holds_key(before, k2) {
                            let j = choose|j: int| 0 <= j < before.len() && #[trigger] before[j].0@ == k2;
                            assert(after[j].0@ == k2);
                        }
                    }
                    assert forall|k2: Seq<char>| holds_key(after, k2) && k2 != k implies after[position(after, k2)].1
                        == before[position(before, k2)].1 by {
                        let p = position(before, k2);
                        lemma_position(before, p);
                        assert(after[p] == before[p]);
                        lemma_position(after, p);
                    }
                    lemma_position(after, before.len() as int);
                    assert(entries_map(after) =~= entries_map(before).insert(k, value));
                    assert(after.map_values(|e: (String, V)| e.0@) =~= before.map_values(|e: (String, V)| e.0@).push(k));
                }
                self.entries = entries;
            },
        }
    }

    /// Remove a key and hand back its value.
    pub fn remove(&mut self, key: &str) -> (v: Option<V>)
        ensures
            final(self).map() == old(self).map().remove(key@),
            match v {
                Some(v) => old(self).map().contains_key(key@) && v == old(self).map()[key@],
                None => !old(self).map().contains_key(key@),
            },
            forall|k: Seq<char>| #[trigger] final(self).key_seq().contains(k) <==> (old(self).key_seq().contains(k) && k != key@),
            match v {
                Some(_) => exists|i: int| #![trigger old(self).key_seq().remove(i)] 0 <= i < old(self).key_seq().len()
                    && old(self).key_seq()[i] == key@ && final(self).key_seq() == old(self).key_seq().remove(i),
                None => final(self).key_seq() == old(self).key_seq(),
            },
    {
        proof {
            use_type_invariant(&*self);
        }
        let ghost before = self.entries@;
        match self.find(key) {
            Some(i) => {
                proof {
                    lemma_position(before, i as int);
                }
                let mut entries: Vec<(String, V)> = Vec::new();
                std::mem::swap(&mut entries, &mut self.entries);
                let (_, value) = entries.remove(i);
                proof {
                    let after = entries@;
                    let k = key@;
                    assert forall|j: int| 0 <= j < after.len() implies #[trigger] after[j] == before[if j < i { j } else { j + 1 }] by {}
                    assert(keys_distinct(after)) by {
                        assert forall|a: int, b: int|
                            0 <= a < after.len() && 0 <= b < after.len() && a != b implies after[a].0@
                            != after[b].0@ by {
                            let a1 = if a < i { a } else { a + 1 };
                            let b1 = if b < i { b } else { b + 1 };
                            assert(before[a1].0@ != before[b1].0@);
                        }
                    }
                    assert forall|k2: Seq<char>| holds_key(after, k2) <==> (holds_key(before, k2) && k2 != k) by {
                        if holds_key(after, k2) {
                            let j = choose|j: int| 0 <= j < after.len() && #[trigger] after[j].0@ == k2;
                            let j1 = if j < i { j } else { j + 1 };
                            assert(before[j1].0@ == k2);
                            assert(j1 != i);
                        }
                        if holds_key(before, k2) && k2 != k {
                            let j = choose|j: int| 0 <= j < before.len() && #[trigger] before[j].0@ == k2;
                            assert(j != i);
                            let j0 = if j < i { j } else { j - 1 };
                            assert(after[j0].0@ == k2);
                        }
                    }
                    assert forall|k2: Seq<char>| holds_key(after, k2) implies after[position(after, k2)].1
                        == before[position(before, k2)].1 by {
                        let p = position(after, k2);
                        lemma_position(after, p);
                        let p1 = if p < i { p } else { p + 1 };
                        lemma_position(before, p1);
                    }
                    assert(entries_map(after) =~= entries_map(before).remove(k));
                    let ks_after = after.map_values(|e: (String, V)| e.0@);
                    let ks_before = before.map_values(|e: (String, V)| e.0@);
                    assert forall|k2: Seq<char>| ks_after.contains(k2) <==> (ks_before.contains(k2) && k2 != k) by {
                        if ks_after.contains(k2) {
                            let j = choose|j: int| 0 <= j < ks_after.len() && ks_after[j] == k2;
                            assert(holds_key(after, k2));
                            let q = choose|q: int| 0 <= q < before.len() && #[trigger] before[q].0@ == k2;
                            assert(ks_before[q] == k2);
                        }
                        if ks_before.contains(k2) && k2 != k {
                            let j = choose|j: int| 0 <= j < ks_before.len() && ks_before[j] == k2;
                            assert(before[j].0@ == k2);
                            assert(holds_key(after, k2));
                            let q = choose|q: int| 0 <= q < after.len() && #[trigger] after[q].0@ == k2;
                            assert(ks_after[q] == k2);
                        }
                    }
                    assert(ks_after =~= ks_before.remove(i as int));
                    assert(ks_before[i as int] == k);
                }
                self.entries = entries;
                assert(self.key_seq() == old(self).key_seq().remove(i as int));
                Some(value)
            },
            None => {
                proof {
                    assert(entries_map(before) =~= entries_map(before).remove(key@));
                }
                None
            },
        }
    }
}

} // verus!
