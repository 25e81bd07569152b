//! A cache whose entries remember when they were last used, and a sweep
//! that drops the ones unused for too long. The measure and shape
//! caches of the text renderer are built on it.

use vstd::prelude::*;

verus! {

/// A key that can be compared with another by its view.
pub trait CacheKey: View + Sized {
    fn same_key(&self, other: &Self) -> (r: bool)
        ensures
            r == (self@ == other@),
    ;
}

/// One cached value and the time it was last used, in the units of
/// the cache's clock.
pub struct Entry<K, V> {
    pub key: K,
    pub value: V,
    pub last_used: u64,
}

/// The entries, each key at most once, and when the last sweep ran.
pub struct TimedCache<K, V> {
    pub entries: Vec<Entry<K, V>>,
    pub last_sweep: Option<u64>,
}

/// The map the entries `s` stand for: each key's value and last use.
pub open spec fn map_of<K: View, V>(s: Seq<Entry<K, V>>) -> Map<K::V, (V, u64)>
    decreases s.len(),
{
    if s.len() == 0 {
        Map::empty()
    } else {
        map_of(s.drop_last()).insert(s.last().key@, (s.last().value, s.last().last_used))
    }
}

/// No key occurs twice in `s`.
pub open spec fn unique_keys<K: View, V>(s: Seq<Entry<K, V>>) -> bool {
    forall|i: int, j: int| 0 <= i < j < s.len() ==> s[i].key@ != s[j].key@
}

/// The time from `then` to `now`, zero if `then` is later.
pub open spec fn elapsed(now: u64, then: u64) -> u64 {
    if now >= then {
        (now - then) as u64
    } else {
        0
    }
}

/// The entries of `m` used less than `keep` before `now`.
pub open spec fn fresh<KV, V>(m: Map<KV, (V, u64)>, now: u64, keep: u64) -> Map<KV, (V, u64)> {
    Map::new(|k: KV| m.contains_key(k) && elapsed(now, m[k].1) < keep, |k: KV| m[k])
}

/// Whether a sweep at `now` scans, given when the last one did.
pub open spec fn sweep_due(last_sweep: Option<u64>, now: u64, every: u64) -> bool {
    match last_sweep {
        Some(last) => elapsed(now, last) >= every,
        None => true,
    }
}

proof fn lemma_map_of_domain<K: View, V>(s: Seq<Entry<K, V>>, k: K::V)
    ensures
        map_of(s).contains_key(k) <==> exists|i: int| 0 <= i < s.len() && #[trigger] s[i].key@ == k,
    decreases s.len(),
{
    if s.len() > 0 {
        lemma_map_of_domain(s.drop_last(), k);
        if map_of(s).contains_key(k) && s.last().key@ != k {
            let i = choose|i: int| 0 <= i < s.len() - 1 && #[trigger] s.drop_last()[i].key@ == k;
            assert(s[i].key@ == k);
        }
        if exists|i: int| 0 <= i < s.len() && #[trigger] s[i].key@ == k {
            let i = choose|i: int| 0 <= i < s.len() && #[trigger] s[i].key@ == k;
            if i < s.len() - 1 {
                assert(s.drop_last()[i].key@ == k);
            }
        }
    }
}

/// An entry of unique-keyed entries is what the map holds for its key.
pub proof fn lemma_map_of_at<K: View, V>(s: Seq<Entry<K, V>>, i: int)
    requires
        unique_keys(s),
        0 <= i < s.len(),
    ensures
        map_of(s).contains_key(s[i].key@),
        map_of(s)[s[i].key@] == (s[i].value, s[i].last_used),
    decreases s.len(),
{
    if i < s.len() - 1 {
        let t = s.drop_last();
        assert forall|a: int, b: int| 0 <= a < b < t.len() implies t[a].key@ != t[b].key@ by {
            assert(t[a] == s[a] && t[b] == s[b]);
        }
        lemma_map_of_at(t, i);
        assert(t[i] == s[i]);
    }
}

proof fn lemma_map_of_update<K: View, V>(s: Seq<Entry<K, V>>, i: int, e: Entry<K, V>)
    requires
        unique_keys(s),
        0 <= i < s.len(),
        e.key@ == s[i].key@,
    ensures
        map_of(s.update(i, e)) =~= map_of(s).insert(e.key@, (e.value, e.last_used)),
        unique_keys(s.update(i, e)),
    decreases s.len(),
{
    let u = s.update(i, e);
    assert forall|a: int, b: int| 0 <= a < b < u.len() implies u[a].key@ != u[b].key@ by {
        assert(s[a].key@ != s[b].key@);
    }
    if i == s.len() - 1 {
        assert(u.drop_last() =~= s.drop_last());
        let t = s.drop_last();
        lemma_map_of_domain(t, e.key@);
        if map_of(t).contains_key(e.key@) {
            let j = choose|j: int| 0 <= j < t.len() && #[trigger] t[j].key@ == e.key@;
            assert(s[j].key@ == s[i].key@);
        }
    } else {
        let t = s.drop_last();
        assert forall|a: int, b: int| 0 <= a < b < t.len() implies t[a].key@ != t[b].key@ by {
            assert(t[a] == s[a] && t[b] == s[b]);
        }
        lemma_map_of_update(t, i, e);
        assert(u.drop_last() =~= t.update(i, e));
        assert(u.last() == s.last());
        assert(s.last().key@ != e.key@) by {
            assert(s[i].key@ != s[s.len() - 1].key@);
        }
    }
}

proof fn lemma_map_of_push<K: View, V>(s: Seq<Entry<K, V>>, e: Entry<K, V>)
    requires
        unique_keys(s),
        !map_of(s).contains_key(e.key@),
    ensures
        map_of(s.push(e)) == map_of(s).insert(e.key@, (e.value, e.last_used)),
        unique_keys(s.push(e)),
{
    let u = s.push(e);
    assert(u.drop_last() =~= s);
    lemma_map_of_domain(s, e.key@);
    assert forall|a: int, b: int| 0 <= a < b < u.len() implies u[a].key@ != u[b].key@ by {
        if b == s.len() {
            assert(u[a] == s[a]);
        } else {
            assert(u[a] == s[a] && u[b] == s[b]);
        }
    }
}

impl<K: CacheKey, V> TimedCache<K, V> {
    /// What the cache holds: each key's value and last use.
    pub open spec fn view(&self) -> Map<K::V, (V, u64)> {
        map_of(self.entries@)
    }

    pub open spec fn wf(&self) -> bool {
        unique_keys(self.entries@)
    }

    /// An empty cache that never swept.
    pub fn new() -> (c: Self)
        ensures
            c.wf(),
            c.view() == Map::<K::V, (V, u64)>::empty(),
            c.last_sweep is None,
    {
        TimedCache { entries: Vec::new(), last_sweep: None }
    }

    /// Where `key` is held, if it is.
    pub fn position(&self, key: &K) -> (r: Option<usize>)
        requires
            self.wf(),
        ensures
            r matches Some(i) ==> i < self.entries.len() && self.entries@[i as int].key@ == key@,
            r is None <==> !self.view().contains_key(key@),
    {
        let mut i: usize = 0;
        while i < self.entries.len()
            invariant
                i <= self.entries.len(),
                forall|j: int| 0 <= j < i ==> #[trigger] self.entries@[j].key@ != key@,
            decreases self.entries.len() - i,
        {
            if self.entries[i].key.same_key(key) {
                proof {
                    lemma_map_of_domain(self.entries@, key@);
                }
                return Some(i);
            }
            i = i + 1;
        }
        proof {
            lemma_map_of_domain(self.entries@, key@);
        }
        None
    }

    /// Marks the entry at `i` used at `now`.
    pub fn touch(&mut self, i: usize, now: u64)
        requires
            old(self).wf(),
            i < old(self).entries.len(),
        ensures
            final(self).wf(),
            final(self).last_sweep == old(self).last_sweep,
            final(self).entries.len() == old(self).entries.len(),
            final(self).entries@[i as int].key@ == old(self).entries@[i as int].key@,
            final(self).entries@[i as int].value == old(self).entries@[i as int].value,
            final(self).view() == old(self).view().insert(
                old(self).entries@[i as int].key@,
                (old(self).entries@[i as int].value, now),
            ),
    {
        let ghost before = self.entries@;
        let mut entry = self.entries.remove(i);
        entry.last_used = now;
        self.entries.insert(i, entry);
        proof {
            assert(self.entries@ =~= before.update(i as int, entry));
            lemma_map_of_update(before, i as int, entry);
        }
    }

    /// Stores `value` under `key`, used at `now`, replacing what the key
    /// held.
    pub fn insert_at(&mut self, key: K, value: V, now: u64)
        requires
            old(self).wf(),
        ensures
            final(self).wf(),
            final(self).last_sweep == old(self).last_sweep,
            final(self).view() == old(self).view().insert(key@, (value, now)),
    {
        let ghost before = self.entries@;
        let ghost kv = key@;
        match self.position(&key) {
            Some(i) => {
                let _old_entry = self.entries.remove(i);
                let entry = Entry { key, value, last_used: now };
                self.entries.insert(i, entry);
                proof {
                    assert(self.entries@ =~= before.update(i as int, entry));
                    lemma_map_of_update(before, i as int, entry);
                }
            },
            None => {
                let entry = Entry { key, value, last_used: now };
                self.entries.push(entry);
                proof {
                    lemma_map_of_push(before, entry);
                }
            },
        }
    }

    /// Drops the entries unused for `keep` before `now`.
    /// The scan runs at most once per `every`; a sweep
    /// sooner than that changes nothing.
    pub fn sweep_at(&mut self, now: u64, keep: u64, every: u64)
        requires
            old(self).wf(),
        ensures
            final(self).wf(),
            sweep_due(old(self).last_sweep, now, every) ==> final(self).last_sweep == Some(now)
                && final(self).view() == fresh(old(self).view(), now, keep),
            !sweep_due(old(self).last_sweep, now, every) ==> *final(self) == *old(self),
    {
        let due = match self.last_sweep {
            Some(last) => {
                let gone = if now >= last {
                    now - last
                } else {
                    0
                };
                gone >= every
            },
            None => true,
        };
        if !due {
            return;
        }
        self.last_sweep = Some(now);
        let ghost s = self.entries@;
        let mut old_entries: Vec<Entry<K, V>> = Vec::new();
        std::mem::swap(&mut old_entries, &mut self.entries);
        let mut kept: Vec<Entry<K, V>> = Vec::new();
        let mut rest = old_entries;
        proof {
            assert(rest@.skip(0) =~= s);
            assert(s.take(0) =~= Seq::<Entry<K, V>>::empty());
            assert(map_of(kept@) =~= fresh(map_of(s.take(0)), now, keep));
        }
        let mut j: usize = 0;
        let n = rest.len();
        while j < n
            invariant
                n == s.len(),
                j <= n,
                unique_keys(s),
                rest@ == s.skip(j as int),
                unique_keys(kept@),
                forall|a: int| #![trigger kept@[a]] 0 <= a < kept@.len() ==> exists|b: int| 0 <= b < j && #[trigger] s[b].key@ == kept@[a].key@,
                map_of(kept@) == fresh(map_of(s.take(j as int)), now, keep),
            decreases n - j,
        {
            let ghost e = s[j as int];
            assert(rest@[0] == e);
            let t = &rest[0];
            let gone = if now >= t.last_used {
                now - t.last_used
            } else {
                0
            };
            proof {
                assert(s.take(j + 1).drop_last() =~= s.take(j as int));
                assert(s.take(j + 1).last() == e);
                let pre = s.take(j as int);
                assert forall|a: int, b: int| 0 <= a < b < pre.len() implies pre[a].key@ != pre[b].key@ by {
                    assert(pre[a] == s[a] && pre[b] == s[b]);
                }
                lemma_map_of_domain(pre, e.key@);
                if map_of(pre).contains_key(e.key@) {
                    let b = choose|b: int| 0 <= b < pre.len() && #[trigger] pre[b].key@ == e.key@;
                    assert(s[b].key@ == s[j as int].key@);
                }
            }
            if gone < keep {
                let moved = rest.remove(0);
                proof {
                    lemma_map_of_domain(kept@, e.key@);
                    if map_of(kept@).contains_key(e.key@) {
                        let a = choose|a: int| 0 <= a < kept@.len() && #[trigger] kept@[a].key@ == e.key@;
                        let b = choose|b: int| 0 <= b < j && #[trigger] s[b].key@ == kept@[a].key@;
                        assert(s[b].key@ == s[j as int].key@);
                    }
                    lemma_map_of_push(kept@, moved);
                }
                kept.push(moved);
                proof {
                    assert(map_of(kept@) =~= fresh(map_of(s.take(j + 1)), now, keep));
                    assert forall|a: int| #![trigger kept@[a]] 0 <= a < kept@.len() implies exists|b: int| 0 <= b < j + 1 && #[trigger] s[b].key@ == kept@[a].key@ by {
                        if a == kept@.len() - 1 {
                            assert(s[j as int].key@ == kept@[a].key@);
                        } else {
                            let b = choose|b: int| 0 <= b < j && #[trigger] s[b].key@ == kept@[a].key@;
                            assert(s[b].key@ == kept@[a].key@);
                        }
                    }
                }
            } else {
                let _stale = rest.remove(0);
                proof {
                    assert(map_of(kept@) =~= fresh(map_of(s.take(j + 1)), now, keep));
                }
            }
            assert(rest@ =~= s.skip(j + 1));
            j = j + 1;
        }
        proof {
            assert(s.take(n as int) =~= s);
        }
        self.entries = kept;
    }
}

} // verus!
