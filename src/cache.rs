//! A bounded memoizing cache keyed by the fingerprint of a source text.

use std::collections::hash_map::DefaultHasher;
use std::collections::HashMap;
use std::hash::Hasher;
use vstd::prelude::*;
use vstd::std_specs::hash::DefaultHasherAdditionalSpecFns;
use vstd::utf8::encode_utf8;

verus! {

broadcast use vstd::std_specs::hash::group_hash_axioms;

/// The fingerprint of a source text: the default hasher run over its UTF-8 bytes.
pub open spec fn fingerprint(source: Seq<char>) -> u64 {
    DefaultHasher::spec_finish(seq![encode_utf8(source)])
}

/// Computes the fingerprint of `source`.
pub fn calculate_hash(source: &str) -> (r: u64)
    ensures
        r == fingerprint(source@),
{
    let mut hasher = DefaultHasher::new();
    hasher.write(source.as_bytes());
    hasher.finish()
}

/// The contents of a cache of `capacity` entries after storing `value` under `key`:
/// a key that is new to a full cache first empties it.
pub open spec fn stored<V>(m: Map<u64, V>, capacity: nat, key: u64, value: V) -> Map<u64, V> {
    if m.contains_key(key) || m.len() < capacity {
        m.insert(key, value)
    } else {
        map![key => value]
    }
}

/// The contents after storing each `(key, value)` of `items` in order.
pub open spec fn stored_all<V>(m: Map<u64, V>, capacity: nat, items: Seq<(u64, V)>) -> Map<
    u64,
    V,
>
    decreases items.len(),
{
    if items.len() == 0 {
        m
    } else {
        let rest = stored_all(m, capacity, items.drop_last());
        stored(rest, capacity, items.last().0, items.last().1)
    }
}

/// The success of an outcome, if any.
pub open spec fn success<A, E>(r: Result<A, E>) -> Option<A> {
    match r {
        Ok(a) => Some(a),
        Err(_) => None,
    }
}

/// One memoized computation on a cache holding `before`: a hit yields the stored
/// artifact and leaves the cache alone; a miss yields what was computed
/// (`None` for a failure) and stores a success only.
pub open spec fn memo_step<A>(
    before: Map<u64, A>,
    capacity: nat,
    key: u64,
    outcome: Option<A>,
    after: Map<u64, A>,
) -> bool {
    if before.contains_key(key) {
        outcome == Some(before[key]) && after == before
    } else {
        match outcome {
            Some(a) => after == stored(before, capacity, key, a),
            None => after == before,
        }
    }
}

/// Storing never leaves more than `capacity` entries, and always keeps the new one.
pub proof fn lemma_stored<A>(m: Map<u64, A>, capacity: nat, key: u64, value: A)
    requires
        0 < capacity,
        m.dom().finite(),
        m.len() <= capacity,
    ensures
        stored(m, capacity, key, value).dom().finite(),
        stored(m, capacity, key, value).len() <= capacity,
        stored(m, capacity, key, value).contains_key(key),
        stored(m, capacity, key, value)[key] == value,
{
    if m.contains_key(key) {
        assert(m.insert(key, value).dom() =~= m.dom());
    } else if m.len() < capacity {
    } else {
        assert(map![key => value].dom() =~= set![key]);
    }
}

/// Repeating a memoized computation that succeeded returns the same artifact
/// and leaves the cache as the first one left it.
pub proof fn lemma_memo_repeat<A>(
    m0: Map<u64, A>,
    capacity: nat,
    key: u64,
    first: A,
    m1: Map<u64, A>,
    second: Option<A>,
    m2: Map<u64, A>,
)
    requires
        0 < capacity,
        m0.dom().finite(),
        m0.len() <= capacity,
        memo_step(m0, capacity, key, Some(first), m1),
        memo_step(m1, capacity, key, second, m2),
    ensures
        second == Some(first),
        m2 == m1,
{
    if !m0.contains_key(key) {
        lemma_stored(m0, capacity, key, first);
    }
}

/// Keys of the first `n` items.
pub open spec fn first_keys<A>(items: Seq<(u64, A)>, n: int) -> Set<u64> {
    Set::new(|k: u64| exists|i: int| 0 <= i < n && #[trigger] items[i].0 == k)
}

proof fn lemma_fill_distinct<A>(capacity: nat, items: Seq<(u64, A)>, n: int)
    requires
        0 <= n <= capacity,
        n <= items.len(),
        forall|i: int, j: int| 0 <= i < j < items.len() ==> items[i].0 != items[j].0,
    ensures
        stored_all(Map::empty(), capacity, items.take(n)).dom() == first_keys(items, n),
        stored_all(Map::empty(), capacity, items.take(n)).dom().finite(),
        stored_all(Map::empty(), capacity, items.take(n)).len() == n,
    decreases n,
{
    let m = stored_all(Map::<u64, A>::empty(), capacity, items.take(n));
    if n == 0 {
        assert(first_keys(items, 0) =~= Set::<u64>::empty());
        assert(m =~= Map::<u64, A>::empty());
    } else {
        lemma_fill_distinct(capacity, items, n - 1);
        assert(items.take(n).drop_last() =~= items.take(n - 1));
        let prev = stored_all(Map::<u64, A>::empty(), capacity, items.take(n - 1));
        let k = items[n - 1].0;
        assert(!prev.contains_key(k)) by {
            if prev.contains_key(k) {
                assert(first_keys(items, n - 1).contains(k));
                let i = choose|i: int| 0 <= i < n - 1 && #[trigger] items[i].0 == k;
                assert(items[i].0 != items[n - 1].0);
            }
        }
        assert(first_keys(items, n) =~= first_keys(items, n - 1).insert(k)) by {
            assert forall|x: u64| first_keys(items, n).contains(x) implies first_keys(
                items,
                n - 1,
            ).insert(k).contains(x) by {
                let i = choose|i: int| 0 <= i < n && #[trigger] items[i].0 == x;
                if i < n - 1 {
                    assert(first_keys(items, n - 1).contains(x));
                }
            }
            assert forall|x: u64| first_keys(items, n - 1).insert(k).contains(x) implies first_keys(
                items,
                n,
            ).contains(x) by {
                if x != k {
                    let i = choose|i: int| 0 <= i < n - 1 && #[trigger] items[i].0 == x;
                    assert(items[i].0 == x);
                } else {
                    assert(items[n - 1].0 == x);
                }
            }
        }
        assert(prev.len() < capacity);
        assert(m.dom() =~= prev.dom().insert(k));
    }
}

/// Storing `capacity + 1` artifacts under distinct fingerprints into an empty
/// cache of `capacity` entries leaves at most `capacity` entries, none of them
/// stored before the last one.
pub proof fn lemma_bounded_memory<A>(capacity: nat, items: Seq<(u64, A)>)
    requires
        0 < capacity,
        items.len() == capacity + 1,
        forall|i: int, j: int| 0 <= i < j < items.len() ==> items[i].0 != items[j].0,
    ensures
        stored_all(Map::empty(), capacity, items).len() <= capacity,
        forall|i: int|
            0 <= i < capacity ==> !stored_all(Map::empty(), capacity, items).contains_key(
                #[trigger] items[i].0,
            ),
{
    let n = capacity as int;
    lemma_fill_distinct(capacity, items, n);
    assert(items.drop_last() =~= items.take(n));
    let prev = stored_all(Map::<u64, A>::empty(), capacity, items.take(n));
    let k = items[n].0;
    assert(!prev.contains_key(k)) by {
        if prev.contains_key(k) {
            let i = choose|i: int| 0 <= i < n && #[trigger] items[i].0 == k;
            assert(items[i].0 != items[n].0);
        }
    }
    let last = stored_all(Map::<u64, A>::empty(), capacity, items);
    assert(last == map![k => items[n].1]);
    assert(last.dom() =~= set![k]);
}

/// A memoizing cache from the fingerprint of a source text to the artifact
/// produced from it, holding at most `capacity` entries.
pub struct MemoCache<V: View> {
    entries: HashMap<u64, V>,
    capacity: usize,
    origins: Ghost<Map<u64, Seq<char>>>,
}

impl<V: View> View for MemoCache<V> {
    type V = Map<u64, V::V>;

    closed spec fn view(&self) -> Map<u64, V::V> {
        self.entries@.map_values(|v: V| v@)
    }
}

impl<V: View> MemoCache<V> {
    /// The largest number of entries the cache holds.
    pub closed spec fn capacity(&self) -> nat {
        self.capacity as nat
    }

    /// For each entry, the source text whose artifact it holds.
    pub closed spec fn origin(&self) -> Map<u64, Seq<char>> {
        self.origins@
    }

    /// The cache stays within its capacity, and each entry is keyed by the
    /// fingerprint of the source it came from.
    pub open spec fn wf(&self) -> bool {
        &&& 0 < self.capacity()
        &&& self@.dom().finite()
        &&& self@.len() <= self.capacity()
        &&& self@.dom() == self.origin().dom()
        &&& forall|k: u64| #[trigger]
            self.origin().contains_key(k) ==> fingerprint(self.origin()[k]) == k
    }

    /// An empty cache that holds at most `capacity` entries.
    pub fn new(capacity: usize) -> (r: Self)
        requires
            0 < capacity,
        ensures
            r.wf(),
            r@ == Map::<u64, V::V>::empty(),
            r.capacity() == capacity,
    {
        let r = MemoCache { entries: HashMap::new(), capacity, origins: Ghost(Map::empty()) };
        assert(r@ =~= Map::<u64, V::V>::empty());
        assert(r@.dom() =~= Set::<u64>::empty());
        r
    }

    /// The artifact stored for the fingerprint of `source`, if any.
    pub fn lookup(&self, source: &str) -> (r: Option<&V>)
        requires
            self.wf(),
        ensures
            match r {
                Some(v) => self@.contains_key(fingerprint(source@)) && v@ == self@[fingerprint(
                    source@,
                )],
                None => !self@.contains_key(fingerprint(source@)),
            },
    {
        let key = calculate_hash(source);
        self.entries.get(&key)
    }

    /// Stores `value` as the artifact of `source`, emptying the cache first when
    /// a new entry would exceed the capacity.
    pub fn store(&mut self, source: &str, value: V)
        requires
            old(self).wf(),
        ensures
            final(self).wf(),
            final(self).capacity() == old(self).capacity(),
            final(self)@ == stored(old(self)@, old(self).capacity(), fingerprint(source@), value@),
            final(self).origin() == (if old(self)@.contains_key(fingerprint(source@)) || old(
                self,
            )@.len() < old(self).capacity() {
                old(self).origin().insert(fingerprint(source@), source@)
            } else {
                map![fingerprint(source@) => source@]
            }),
    {
        let key = calculate_hash(source);
        let ghost value_view = value@;
        assert(self.entries@.dom() =~= self@.dom());
        if !self.entries.contains_key(&key) && self.entries.len() >= self.capacity {
            self.entries.clear();
            self.origins = Ghost(Map::empty());
        }
        self.entries.insert(key, value);
        self.origins = Ghost(self.origins@.insert(key, source@));
        proof {
            let expected = stored(old(self)@, old(self).capacity(), key, value_view);
            assert(self.entries@.dom() =~= self@.dom());
            if old(self)@.contains_key(key) || old(self)@.len() < old(self).capacity() {
                assert(self@ =~= old(self)@.insert(key, value_view));
                assert(self.origin() =~= old(self).origin().insert(key, source@));
            } else {
                assert(self@ =~= map![key => value_view]);
                assert(self.origin() =~= map![key => source@]);
            }
            assert(self@ == expected);
        }
    }

    /// Removes every entry.
    pub fn clear(&mut self)
        requires
            old(self).wf(),
        ensures
            final(self).wf(),
            final(self)@ == Map::<u64, V::V>::empty(),
            final(self).capacity() == old(self).capacity(),
    {
        self.entries.clear();
        self.origins = Ghost(Map::empty());
        assert(self@ =~= Map::<u64, V::V>::empty());
    }
}

} // verus!
