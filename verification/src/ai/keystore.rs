//! API keys of the AI providers, held in memory only for the life of the
//! application: never written to disk, never returned to the user interface
//! (which only asks whether a key is set).
use vstd::prelude::*;
use crate::text::str_eq;

verus! {

/// The keys, one per provider name.
pub struct AiKeyStore {
    entries: Vec<(String, String)>,
}

/// `e` holds `k` as a provider name.
pub open spec fn holds_key(e: Seq<(String, String)>, k: Seq<char>) -> bool {
    exists|i: int| 0 <= i < e.len() && (#[trigger] e[i]).0@ == k
}

/// The stored keys as a map from provider name to key.
pub open spec fn entries_map(e: Seq<(String, String)>) -> Map<Seq<char>, Seq<char>> {
    Map::new(
        |k: Seq<char>| holds_key(e, k),
        |k: Seq<char>| e[choose|i: int| 0 <= i < e.len() && (#[trigger] e[i]).0@ == k].1@,
    )
}

/// No provider name occurs twice.
pub open spec fn distinct_names(e: Seq<(String, String)>) -> bool {
    forall|i: int, j: int|
        0 <= i < e.len() && 0 <= j < e.len() && i != j ==> (#[trigger] e[i]).0@ != (#[trigger] e[j]).0@
}

proof fn lemma_map_at(e: Seq<(String, String)>, i: int)
    requires
        distinct_names(e),
        0 <= i < e.len(),
    ensures
        entries_map(e).dom().contains(e[i].0@),
        entries_map(e)[e[i].0@] == e[i].1@,
{
    let k = e[i].0@;
    assert(holds_key(e, k));
    let j = choose|j: int| 0 <= j < e.len() && (#[trigger] e[j]).0@ == k;
    assert(j == i);
}

impl View for AiKeyStore {
    type V = Map<Seq<char>, Seq<char>>;

    closed spec fn view(&self) -> Map<Seq<char>, Seq<char>> {
        entries_map(self.entries@)
    }
}

impl AiKeyStore {
    /// The store's invariant: each provider has at most one key, and no
    /// stored key is empty.
    pub closed spec fn wf(&self) -> bool {
        &&& distinct_names(self.entries@)
        &&& forall|i: int| 0 <= i < self.entries@.len() ==> (#[trigger] self.entries@[i]).1@.len() > 0
    }

    /// An empty store.
    pub fn new() -> (s: Self)
        ensures
            s.wf(),
            s@ == Map::<Seq<char>, Seq<char>>::empty(),
    {
        let s = AiKeyStore { entries: Vec::new() };
        assert(s@ =~= Map::<Seq<char>, Seq<char>>::empty());
        s
    }

    fn find(&self, provider: &str) -> (r: Option<usize>)
        ensures
            r matches Some(i) ==> i < self.entries@.len() && self.entries@[i as int].0@ == provider@,
            r is None ==> !holds_key(self.entries@, provider@),
    {
        let mut i: usize = 0;
        while i < self.entries.len()
            invariant
                0 <= i <= self.entries@.len(),
                forall|j: int| 0 <= j < i ==> (#[trigger] self.entries@[j]).0@ != provider@,
            decreases self.entries.len() - i,
        {
            if str_eq(self.entries[i].0.as_str(), provider) {
                return Some(i);
            }
            i += 1;
        }
        None
    }

    /// Stores `api_key` for `provider`; an empty key removes the provider's
    /// key instead.
    pub fn set(&mut self, provider: &str, api_key: String)
        requires
            old(self).wf(),
        ensures
            final(self).wf(),
            final(self)@ == after_set(old(self)@, provider@, api_key@),
    {
        if api_key.as_str().is_empty() {
            proof {
                assert(api_key@.len() == 0);
            }
            self.clear(provider);
        } else {
            let ghost old_e = self.entries@;
            match self.find(provider) {
                Some(i) => {
                    let name = String::from_str(provider);
                    self.entries.set(i, (name, api_key));
                    proof {
                        let e = self.entries@;
                        assert(e == old_e.update(i as int, (name, api_key)));
                        assert forall|a: int, b: int|
                            0 <= a < e.len() && 0 <= b < e.len() && a != b implies (#[trigger] e[a]).0@
                            != (#[trigger] e[b]).0@ by {
                            assert(old_e[a].0@ != old_e[b].0@);
                        }
                        assert forall|k: Seq<char>|
                            entries_map(e).dom().contains(k) <==> old_e.len() >= 0 && entries_map(
                                old_e,
                            ).insert(provider@, api_key@).dom().contains(k) by {
                            if holds_key(old_e, k) {
                                let j = choose|j: int| 0 <= j < old_e.len() && (#[trigger] old_e[j]).0@ == k;
                                assert(e[j].0@ == k);
                            }
                            if holds_key(e, k) {
                                let j = choose|j: int| 0 <= j < e.len() && (#[trigger] e[j]).0@ == k;
                                if j != i {
                                    assert(old_e[j].0@ == k);
                                }
                            }
                        }
                        assert forall|k: Seq<char>| #[trigger]
                            entries_map(e).dom().contains(k) implies entries_map(e)[k] == entries_map(
                                old_e,
                            ).insert(provider@, api_key@)[k] by {
                            let j = choose|j: int| 0 <= j < e.len() && (#[trigger] e[j]).0@ == k;
                            lemma_map_at(e, j);
                            if j != i {
                                lemma_map_at(old_e, j);
                            }
                        }
                        assert(entries_map(e) =~= entries_map(old_e).insert(provider@, api_key@));
                    }
                },
                None => {
                    let name = String::from_str(provider);
                    self.entries.push((name, api_key));
                    proof {
                        let e = self.entries@;
                        let n = old_e.len() as int;
                        assert(e == old_e.push((name, api_key)));
                        assert forall|a: int, b: int|
                            0 <= a < e.len() && 0 <= b < e.len() && a != b implies (#[trigger] e[a]).0@
                            != (#[trigger] e[b]).0@ by {
                            if a < n && b < n {
                                assert(old_e[a].0@ != old_e[b].0@);
                            } else if a < n {
                                assert(old_e[a] == e[a]);
                            } else {
                                assert(old_e[b] == e[b]);
                            }
                        }
                        assert forall|k: Seq<char>|
                            entries_map(e).dom().contains(k) <==> entries_map(old_e).insert(
                                provider@,
                                api_key@,
                            ).dom().contains(k) by {
                            if holds_key(old_e, k) {
                                let j = choose|j: int| 0 <= j < old_e.len() && (#[trigger] old_e[j]).0@ == k;
                                assert(e[j].0@ == k);
                            }
                            if k == provider@ {
                                assert(e[n].0@ == k);
                            }
                            if holds_key(e, k) {
                                let j = choose|j: int| 0 <= j < e.len() && (#[trigger] e[j]).0@ == k;
                                if j != n {
                                    assert(old_e[j].0@ == k);
                                }
                            }
                        }
                        assert forall|k: Seq<char>| #[trigger]
                            entries_map(e).dom().contains(k) implies entries_map(e)[k] == entries_map(
                                old_e,
                            ).insert(provider@, api_key@)[k] by {
                            let j = choose|j: int| 0 <= j < e.len() && (#[trigger] e[j]).0@ == k;
                            lemma_map_at(e, j);
                            if j != n {
                                assert(old_e[j] == e[j]);
                                lemma_map_at(old_e, j);
                            }
                        }
                        assert(entries_map(e) =~= entries_map(old_e).insert(provider@, api_key@));
                    }
                },
            }
        }
    }

    /// The key stored for `provider`, if any.
    pub fn get(&self, provider: &str) -> (r: Option<String>)
        requires
            self.wf(),
        ensures
            r matches Some(k) ==> self@.dom().contains(provider@) && k@ == self@[provider@],
            r is None ==> !self@.dom().contains(provider@),
    {
        match self.find(provider) {
            Some(i) => {
                proof {
                    lemma_map_at(self.entries@, i as int);
                }
                Some(self.entries[i].1.clone())
            },
            None => None,
        }
    }

    /// Whether a key is stored for `provider`.
    pub fn has(&self, provider: &str) -> (b: bool)
        requires
            self.wf(),
        ensures
            b == self@.dom().contains(provider@),
    {
        match self.find(provider) {
            Some(i) => {
                proof {
                    lemma_map_at(self.entries@, i as int);
                }
                true
            },
            None => false,
        }
    }

    /// Removes the key stored for `provider`, if any.
    pub fn clear(&mut self, provider: &str)
        requires
            old(self).wf(),
        ensures
            final(self).wf(),
            final(self)@ == old(self)@.remove(provider@),
    {
        let ghost old_e = self.entries@;
        match self.find(provider) {
            Some(i) => {
                self.entries.remove(i);
                proof {
                    let e = self.entries@;
                    assert(e == old_e.remove(i as int));
                    assert forall|a: int, b: int|
                        0 <= a < e.len() && 0 <= b < e.len() && a != b implies (#[trigger] e[a]).0@
                        != (#[trigger] e[b]).0@ by {
                        let oa = if a < i { a } else { a + 1 };
                        let ob = if b < i { b } else { b + 1 };
                        assert(e[a] == old_e[oa]);
                        assert(e[b] == old_e[ob]);
                    }
                    assert forall|a: int| 0 <= a < e.len() implies (#[trigger] e[a]).1@.len() > 0 by {
                        let oa = if a < i { a } else { a + 1 };
                        assert(e[a] == old_e[oa]);
                    }
                    assert forall|k: Seq<char>|
                        entries_map(e).dom().contains(k) <==> entries_map(old_e).remove(
                            provider@,
                        ).dom().contains(k) by {
                        if holds_key(old_e, k) && k != provider@ {
                            let j = choose|j: int| 0 <= j < old_e.len() && (#[trigger] old_e[j]).0@ == k;
                            assert(j != i);
                            let nj = if j < i { j } else { j - 1 };
                            assert(e[nj] == old_e[j]);
                        }
                        if holds_key(e, k) {
                            let j = choose|j: int| 0 <= j < e.len() && (#[trigger] e[j]).0@ == k;
                            let oj = if j < i { j } else { j + 1 };
                            assert(e[j] == old_e[oj]);
                            assert(oj != i);
                        }
                    }
                    assert forall|k: Seq<char>| #[trigger]
                        entries_map(e).dom().contains(k) implies entries_map(e)[k] == entries_map(
                            old_e,
                        ).remove(provider@)[k] by {
                        let j = choose|j: int| 0 <= j < e.len() && (#[trigger] e[j]).0@ == k;
                        let oj = if j < i { j } else { j + 1 };
                        assert(e[j] == old_e[oj]);
                        lemma_map_at(e, j);
                        lemma_map_at(old_e, oj);
                    }
                    assert(entries_map(e) =~= entries_map(old_e).remove(provider@));
                }
            },
            None => {
                assert(entries_map(old_e) =~= entries_map(old_e).remove(provider@));
            },
        }
    }
}

/// The keys after `set(provider, key)`: the key is stored for the provider,
/// or, when empty, the provider's key is removed.
pub open spec fn after_set(before: Map<Seq<char>, Seq<char>>, provider: Seq<char>, key: Seq<char>) -> Map<
    Seq<char>,
    Seq<char>,
> {
    if key.len() == 0 {
        before.remove(provider)
    } else {
        before.insert(provider, key)
    }
}

/// Reading back after a write: once a non-empty key is set for a provider,
/// `get` gives that key and `has` is true; once an empty key is set, or
/// the provider's key is cleared, `has` is false; and no other provider's
/// key is touched by either.
pub proof fn law_read_after_write(
    before: Map<Seq<char>, Seq<char>>,
    provider: Seq<char>,
    key: Seq<char>,
    other: Seq<char>,
)
    requires
        other != provider,
    ensures
        key.len() > 0 ==> after_set(before, provider, key).dom().contains(provider) && after_set(
            before,
            provider,
            key,
        )[provider] == key,
        key.len() == 0 ==> !after_set(before, provider, key).dom().contains(provider),
        !before.remove(provider).dom().contains(provider),
        after_set(before, provider, key).dom().contains(other) == before.dom().contains(other),
        before.dom().contains(other) ==> after_set(before, provider, key)[other] == before[other],
        before.remove(provider).dom().contains(other) == before.dom().contains(other),
        before.dom().contains(other) ==> before.remove(provider)[other] == before[other],
{
}

/// No key read from the store is ever empty: an empty key is never stored.
pub proof fn law_stored_keys_not_empty(store: &AiKeyStore, provider: Seq<char>)
    requires
        store.wf(),
        store@.dom().contains(provider),
    ensures
        store@[provider].len() > 0,
{
    let e = store.entries@;
    let j = choose|j: int| 0 <= j < e.len() && (#[trigger] e[j]).0@ == provider;
    lemma_map_at(e, j);
}

impl Default for AiKeyStore {
    /// An empty store (`new`).
    fn default() -> (s: Self)
        ensures
            s.wf(),
            s@ == Map::<Seq<char>, Seq<char>>::empty(),
    {
        AiKeyStore::new()
    }
}

} // verus!
