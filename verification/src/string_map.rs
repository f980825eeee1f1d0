use vstd::prelude::*;

verus! {

/// A finite map from strings to strings, kept as a list of entries whose keys
/// are pairwise distinct.
pub struct StringMap {
    entries: Vec<(String, String)>,
}

/// The entries hold pairwise distinct keys.
pub open spec fn keys_distinct(s: Seq<(String, String)>) -> bool {
    forall|i: int, j: int|
        0 <= i < s.len() && 0 <= j < s.len() && i != j ==> #[trigger] s[i].0@ != #[trigger] s[j].0@
}

/// Some entry of `s` has the key `k`.
pub open spec fn has_key(s: Seq<(String, String)>, k: Seq<char>) -> bool {
    exists|i: int| 0 <= i < s.len() && #[trigger] s[i].0@ == k
}

/// The map that a list of entries with distinct keys stands for.
pub open spec fn entries_map(s: Seq<(String, String)>) -> Map<Seq<char>, Seq<char>> {
    Map::new(
        |k: Seq<char>| has_key(s, k),
        |k: Seq<char>| s[choose|i: int| 0 <= i < s.len() && #[trigger] s[i].0@ == k].1@,
    )
}

/// With distinct keys, each entry is what the map gives for its key.
pub proof fn lemma_entry_in_map(s: Seq<(String, String)>, i: int)
    requires
        keys_distinct(s),
        0 <= i < s.len(),
    ensures
        entries_map(s).dom().contains(s[i].0@),
        entries_map(s)[s[i].0@] == s[i].1@,
{
    let k = s[i].0@;
    assert(has_key(s, k));
    let j = choose|j: int| 0 <= j < s.len() && #[trigger] s[j].0@ == k;
    assert(j == i);
}

impl View for StringMap {
    type V = Map<Seq<char>, Seq<char>>;

    closed spec fn view(&self) -> Map<Seq<char>, Seq<char>> {
        entries_map(self.entries@)
    }
}

impl StringMap {
    /// No key occurs twice among the entries.
    #[verifier::type_invariant]
    spec fn inv(&self) -> bool {
        keys_distinct(self.entries@)
    }

    /// An empty map.
    pub fn new() -> (m: Self)
        ensures
            m@ == Map::<Seq<char>, Seq<char>>::empty(),
    {
        let m = StringMap { entries: Vec::new() };
        assert(m@ =~= Map::<Seq<char>, Seq<char>>::empty());
        m
    }

    /// The number of keys in the map.
    pub fn len(&self) -> (n: usize)
        ensures
            n == self@.dom().len(),
    {
        proof {
            use_type_invariant(self);
            lemma_dom_len(self.entries@);
        }
        self.entries.len()
    }

    /// Whether the map holds the key.
    pub fn contains_key(&self, key: &String) -> (b: bool)
        ensures
            b == self@.dom().contains(key@),
    {
        proof {
            use_type_invariant(self);
        }
        match find_key(&self.entries, key) {
            Some(i) => {
                proof {
                    lemma_entry_in_map(self.entries@, i as int);
                }
                true
            },
            None => false,
        }
    }

    /// A copy of the value stored under the key, if any.
    pub fn get(&self, key: &String) -> (r: Option<String>)
        ensures
            r is Some <==> self@.dom().contains(key@),
            r matches Some(v) ==> v@ == self@[key@],
    {
        proof {
            use_type_invariant(self);
        }
        match find_key(&self.entries, key) {
            Some(i) => {
                proof {
                    lemma_entry_in_map(self.entries@, i as int);
                }
                Some(self.entries[i].1.clone())
            },
            None => None,
        }
    }

    /// Stores `value` under `key`, replacing what was there.
    pub fn insert(&mut self, key: String, value: String)
        ensures
            final(self)@ == old(self)@.insert(key@, value@),
    {
        proof {
            use_type_invariant(&*self);
        }
        let ghost k = key@;
        let ghost v = value@;
        let mut entries: Vec<(String, String)> = Vec::new();
        std::mem::swap(&mut entries, &mut self.entries);
        let ghost before = entries@;
        match find_key(&entries, &key) {
            Some(i) => {
                entries[i] = (key, value);
                proof {
                    let after = entries@;
                    assert(after == before.update(i as int, after[i as int]));
                    assert(keys_distinct(after)) by {
                        assert forall|a: int, b: int|
                            0 <= a < after.len() && 0 <= b < after.len() && a != b implies
                            #[trigger] after[a].0@ != #[trigger] after[b].0@ by {
                            if a != i && b != i {
                                assert(after[a] == before[a] && after[b] == before[b]);
                            } else if a == i {
                                assert(after[b] == before[b]);
                            } else {
                                assert(after[a] == before[a]);
                            }
                        }
                    }
                    assert forall|kk: Seq<char>| #[trigger] entries_map(after).dom().contains(kk)
                        == entries_map(before).insert(k, v).dom().contains(kk) by {
                        if has_key(after, kk) {
                            let j = choose|j: int| 0 <= j < after.len() && #[trigger] after[j].0@ == kk;
                            if j != i {
                                assert(before[j].0@ == kk);
                            }
                        }
                        if has_key(before, kk) && kk != k {
                            let j = choose|j: int| 0 <= j < before.len() && #[trigger] before[j].0@ == kk;
                            assert(after[j].0@ == kk);
                        }
                        if kk == k {
                            assert(after[i as int].0@ == kk);
                        }
                    }
                    assert forall|kk: Seq<char>| #[trigger] entries_map(after).dom().contains(kk)
                        implies entries_map(after)[kk] == entries_map(before).insert(k, v)[kk] by {
                        let j = choose|j: int| 0 <= j < after.len() && #[trigger] after[j].0@ == kk;
                        lemma_entry_in_map(after, j);
                        if j != i {
                            lemma_entry_in_map(before, j);
                        }
                    }
                    assert(entries_map(after) =~= entries_map(before).insert(k, v));
                }
            },
            None => {
                entries.push((key, value));
                proof {
                    let after = entries@;
                    let n = before.len() as int;
                    assert(after == before.push(after[n]));
                    assert(keys_distinct(after)) by {
                        assert forall|a: int, b: int|
                            0 <= a < after.len() && 0 <= b < after.len() && a != b implies
                            #[trigger] after[a].0@ != #[trigger] after[b].0@ by {
                            if a < n && b < n {
                                assert(after[a] == before[a] && after[b] == before[b]);
                            } else if a == n {
                                assert(after[b] == before[b]);
                                assert(!has_key(before, k));
                            } else {
                                assert(after[a] == before[a]);
                                assert(!has_key(before, k));
                            }
                        }
                    }
                    assert forall|kk: Seq<char>| #[trigger] entries_map(after).dom().contains(kk)
                        == entries_map(before).insert(k, v).dom().contains(kk) by {
                        if has_key(after, kk) {
                            let j = choose|j: int| 0 <= j < after.len() && #[trigger] after[j].0@ == kk;
                            if j != n {
                                assert(before[j].0@ == kk);
                            }
                        }
                        if has_key(before, kk) {
                            let j = choose|j: int| 0 <= j < before.len() && #[trigger] before[j].0@ == kk;
                            assert(after[j].0@ == kk);
                        }
                        if kk == k {
                            assert(after[n].0@ == kk);
                        }
                    }
                    assert forall|kk: Seq<char>| #[trigger] entries_map(after).dom().contains(kk)
                        implies entries_map(after)[kk] == entries_map(before).insert(k, v)[kk] by {
                        let j = choose|j: int| 0 <= j < after.len() && #[trigger] after[j].0@ == kk;
                        lemma_entry_in_map(after, j);
                        if j != n {
                            lemma_entry_in_map(before, j);
                        }
                    }
                    assert(entries_map(after) =~= entries_map(before).insert(k, v));
                }
            },
        }
        self.entries = entries;
    }

    /// Removes the key and its value, if present.
    pub fn remove(&mut self, key: &String)
        ensures
            final(self)@ == old(self)@.remove(key@),
    {
        proof {
            use_type_invariant(&*self);
        }
        let ghost k = key@;
        let mut entries: Vec<(String, String)> = Vec::new();
        std::mem::swap(&mut entries, &mut self.entries);
        let ghost before = entries@;
        match find_key(&entries, key) {
            Some(i) => {
                let _ = entries.swap_remove(i);
                proof {
                    let after = entries@;
                    let last = before.len() - 1;
                    // after is before with position i taking the last entry, then the last dropped
                    assert(after.len() == last);
                    assert forall|a: int| 0 <= a < after.len() implies
                        #[trigger] after[a] == (if a == i { before[last] } else { before[a] }) by {}
                    assert(keys_distinct(after)) by {
                        assert forall|a: int, b: int|
                            0 <= a < after.len() && 0 <= b < after.len() && a != b implies
                            #[trigger] after[a].0@ != #[trigger] after[b].0@ by {
                            let ia = if a == i { last } else { a };
                            let ib = if b == i { last } else { b };
                            assert(after[a] == before[ia]);
                            assert(after[b] == before[ib]);
                        }
                    }
                    assert forall|kk: Seq<char>| #[trigger] entries_map(after).dom().contains(kk)
                        == entries_map(before).remove(k).dom().contains(kk) by {
                        if has_key(after, kk) {
                            let j = choose|j: int| 0 <= j < after.len() && #[trigger] after[j].0@ == kk;
                            let ij = if j == i { last } else { j };
                            assert(before[ij].0@ == kk);
                            assert(ij != i);
                        }
                        if has_key(before, kk) && kk != k {
                            let j = choose|j: int| 0 <= j < before.len() && #[trigger] before[j].0@ == kk;
                            assert(j != i);
                            let aj = if j == last { i as int } else { j };
                            assert(after[aj].0@ == kk);
                        }
                    }
                    assert forall|kk: Seq<char>| #[trigger] entries_map(after).dom().contains(kk)
                        implies entries_map(after)[kk] == entries_map(before).remove(k)[kk] by {
                        let j = choose|j: int| 0 <= j < after.len() && #[trigger] after[j].0@ == kk;
                        let ij = if j == i { last } else { j };
                        lemma_entry_in_map(after, j);
                        lemma_entry_in_map(before, ij);
                    }
                    assert(entries_map(after) =~= entries_map(before).remove(k));
                }
            },
            None => {
                assert(entries_map(before) =~= entries_map(before).remove(k));
            },
        }
        self.entries = entries;
    }
}

/// Where the key stands among the entries, if it is there.
fn find_key(entries: &Vec<(String, String)>, key: &String) -> (r: Option<usize>)
    requires
        keys_distinct(entries@),
    ensures
        match r {
            Some(i) => i < entries@.len() && entries@[i as int].0@ == key@,
            None => !entries_map(entries@).dom().contains(key@),
        },
{
    let n = entries.len();
    let mut i: usize = 0;
    while i < n
        invariant
            n == entries@.len(),
            i <= n,
            forall|j: int| 0 <= j < i ==> #[trigger] entries@[j].0@ != key@,
        decreases n - i,
    {
        if entries[i].0 == *key {
            return Some(i);
        }
        i = i + 1;
    }
    None
}

/// Removing the last entry takes its key out of the domain.
proof fn lemma_dom_drop_last(s: Seq<(String, String)>)
    requires
        keys_distinct(s),
        s.len() > 0,
    ensures
        keys_distinct(s.drop_last()),
        entries_map(s).dom() == entries_map(s.drop_last()).dom().insert(s.last().0@),
        !entries_map(s.drop_last()).dom().contains(s.last().0@),
{
    let t = s.drop_last();
    let n = s.len() - 1;
    assert(keys_distinct(t)) by {
        assert forall|a: int, b: int| 0 <= a < t.len() && 0 <= b < t.len() && a != b implies
            #[trigger] t[a].0@ != #[trigger] t[b].0@ by {
            assert(t[a] == s[a] && t[b] == s[b]);
        }
    }
    assert forall|kk: Seq<char>| #[trigger] entries_map(s).dom().contains(kk)
        == entries_map(t).dom().insert(s.last().0@).contains(kk) by {
        if has_key(s, kk) {
            let j = choose|j: int| 0 <= j < s.len() && #[trigger] s[j].0@ == kk;
            if j != n {
                assert(t[j].0@ == kk);
            }
        }
        if has_key(t, kk) {
            let j = choose|j: int| 0 <= j < t.len() && #[trigger] t[j].0@ == kk;
            assert(s[j].0@ == kk);
        }
        if kk == s.last().0@ {
            assert(s[n].0@ == kk);
        }
    }
    assert(entries_map(s).dom() =~= entries_map(t).dom().insert(s.last().0@));
    if has_key(t, s.last().0@) {
        let j = choose|j: int| 0 <= j < t.len() && #[trigger] t[j].0@ == s.last().0@;
        assert(s[j].0@ == s[n].0@);
    }
}

proof fn lemma_dom_len(s: Seq<(String, String)>)
    requires
        keys_distinct(s),
    ensures
        entries_map(s).dom().finite(),
        entries_map(s).dom().len() == s.len(),
    decreases s.len(),
{
    if s.len() == 0 {
        assert(entries_map(s).dom() =~= Set::<Seq<char>>::empty());
    } else {
        lemma_dom_drop_last(s);
        lemma_dom_len(s.drop_last());
    }
}

} // verus!
