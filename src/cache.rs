use vstd::prelude::*;

use crate::text::str_eq;

verus! {

/// Relies on `SystemTime::now` and `duration_since(UNIX_EPOCH)`: seconds since the
/// epoch, zero for a clock set before it.
#[verifier::external_body]
pub(crate) fn unix_now_secs() -> (r: u64) {
    std::time::SystemTime::now().duration_since(std::time::UNIX_EPOCH).unwrap_or_default().as_secs()
}

struct CacheEntry {
    key: String,
    value: String,
    expires_at: Option<u64>,
}

/// A string cache with optional expiry, keyed by string.
pub struct MemoryCache {
    data: Vec<CacheEntry>,
}

/// Whether an entry that expires at `exp` is still valid at `now`.
pub open spec fn live_at(exp: Option<u64>, now: u64) -> bool {
    match exp {
        Some(e) => now <= e,
        None => true,
    }
}

/// The expiry of an entry set at `now` with time-to-live `ttl` (saturating).
pub open spec fn expiry(now: u64, ttl: Option<u64>) -> Option<u64> {
    match ttl {
        Some(t) => Some(if now + t > u64::MAX { u64::MAX } else { (now + t) as u64 }),
        None => None,
    }
}

impl MemoryCache {
    pub closed spec fn keys(&self) -> Seq<Seq<char>> {
        self.data@.map_values(|e: CacheEntry| e.key@)
    }

    /// The value and expiry stored under `key`.
    pub closed spec fn entry(&self, key: Seq<char>) -> Option<(Seq<char>, Option<u64>)> {
        if self.keys().contains(key) {
            let i = choose|i: int| 0 <= i < self.data@.len() && self.keys()[i] == key;
            Some((self.data@[i].value@, self.data@[i].expires_at))
        } else {
            None
        }
    }

    pub closed spec fn wf(&self) -> bool {
        self.keys().no_duplicates()
    }

    proof fn lemma_entry_at(&self, i: int)
        requires
            self.wf(),
            0 <= i < self.data@.len(),
        ensures
            self.entry(self.data@[i].key@) == Some((self.data@[i].value@, self.data@[i].expires_at)),
    {
        let k = self.data@[i].key@;
        assert(self.keys()[i] == k);
        let j = choose|j: int| 0 <= j < self.data@.len() && self.keys()[j] == k;
    }

    pub fn new() -> (r: MemoryCache)
        ensures
            r.wf(),
            forall|k: Seq<char>| #[trigger] r.entry(k) is None,
    {
        let r = MemoryCache { data: Vec::new() };
        assert(r.keys() =~= Seq::<Seq<char>>::empty());
        r
    }

    fn find(&self, key: &str) -> (r: Option<usize>)
        ensures
            match r {
                Some(i) => i < self.data@.len() && self.data@[i as int].key@ == key@,
                None => !self.keys().contains(key@),
            },
    {
        let mut i: usize = 0;
        while i < self.data.len()
            invariant
                0 <= i <= self.data@.len(),
                forall|k: int| 0 <= k < i ==> self.data@[k].key@ != key@,
            decreases self.data@.len() - i,
        {
            if str_eq(self.data[i].key.as_str(), key) {
                return Some(i);
            }
            i += 1;
        }
        assert(!self.keys().contains(key@)) by {
            if self.keys().contains(key@) {
                let k = choose|k: int| 0 <= k < self.keys().len() && self.keys()[k] == key@;
                assert(self.data@[k].key@ == key@);
            }
        }
        None
    }

    proof fn lemma_others_kept(&self, old_c: &MemoryCache, key: Seq<char>, i: int)
        requires
            old_c.wf(),
            self.wf(),
            0 <= i <= old_c.data@.len(),
            self.data@.len() >= old_c.data@.len(),
            forall|k: int| 0 <= k < old_c.data@.len() && k != i ==> self.data@[k] == old_c.data@[k],
            i < old_c.data@.len() ==> old_c.data@[i].key@ == key && self.data@.len() == old_c.data@.len(),
            i == old_c.data@.len() ==> self.data@.len() == old_c.data@.len() + 1,
            self.data@[i].key@ == key,
        ensures
            forall|k: Seq<char>| k != key ==> #[trigger] self.entry(k) == old_c.entry(k),
    {
        assert forall|k: Seq<char>| k != key implies #[trigger] self.entry(k) == old_c.entry(k) by {
            if old_c.keys().contains(k) {
                let j = choose|j: int| 0 <= j < old_c.keys().len() && old_c.keys()[j] == k;
                old_c.lemma_entry_at(j);
                self.lemma_entry_at(j);
            } else {
                assert(!self.keys().contains(k)) by {
                    if self.keys().contains(k) {
                        let j = choose|j: int| 0 <= j < self.keys().len() && self.keys()[j] == k;
                        if j != i {
                            assert(old_c.keys()[j] == k);
                        }
                    }
                }
            }
        }
    }

    /// Stores `value` under `key` as of `now`, expiring `ttl_seconds` later when given.
    pub fn set_at(&mut self, key: &str, value: String, ttl_seconds: Option<u64>, now: u64)
        requires
            old(self).wf(),
        ensures
            final(self).wf(),
            final(self).entry(key@) == Some((value@, expiry(now, ttl_seconds))),
            forall|k: Seq<char>| k != key@ ==> #[trigger] final(self).entry(k) == old(self).entry(k),
    {
        let expires_at = match ttl_seconds {
            Some(t) => Some(now.saturating_add(t)),
            None => None,
        };
        let ghost vv = value@;
        match self.find(key) {
            Some(i) => {
                let k = self.data[i].key.clone();
                self.data.set(i, CacheEntry { key: k, value, expires_at });
                proof {
                    assert(self.keys() =~= old(self).keys());
                    self.lemma_entry_at(i as int);
                    self.lemma_others_kept(old(self), key@, i as int);
                }
            },
            None => {
                self.data.push(CacheEntry { key: key.to_owned(), value, expires_at });
                proof {
                    let n = old(self).data@.len() as int;
                    assert(self.keys() =~= old(self).keys().push(key@));
                    self.lemma_entry_at(n);
                    self.lemma_others_kept(old(self), key@, n);
                }
            },
        }
    }

    /// Stores `value` under `key` now, expiring `ttl_seconds` later when given.
    pub fn set(&mut self, key: &str, value: String, ttl_seconds: Option<u64>)
        requires
            old(self).wf(),
        ensures
            final(self).wf(),
            exists|now: u64| #[trigger] final(self).entry(key@) == Some((value@, expiry(now, ttl_seconds))),
            forall|k: Seq<char>| k != key@ ==> #[trigger] final(self).entry(k) == old(self).entry(k),
    {
        let now = unix_now_secs();
        self.set_at(key, value, ttl_seconds, now);
    }

    /// The value under `key` if it has not expired at `now`.
    pub fn get_at(&self, key: &str, now: u64) -> (r: Option<&String>)
        requires
            self.wf(),
        ensures
            match self.entry(key@) {
                Some((v, exp)) => if live_at(exp, now) {
                    r matches Some(s) && s@ == v
                } else {
                    r is None
                },
                None => r is None,
            },
    {
        match self.find(key) {
            Some(i) => {
                proof {
                    self.lemma_entry_at(i as int);
                }
                let e = &self.data[i];
                match e.expires_at {
                    Some(exp) => {
                        if now > exp {
                            return None;
                        }
                    },
                    None => {},
                }
                Some(&e.value)
            },
            None => None,
        }
    }

    /// The value under `key` if it has not expired now.
    pub fn get(&self, key: &str) -> (r: Option<&String>)
        requires
            self.wf(),
        ensures
            self.entry(key@) is None ==> r is None,
            r matches Some(s) ==> (self.entry(key@) matches Some((v, _)) && s@ == v),
            (self.entry(key@) matches Some((_, None))) ==> r is Some,
    {
        let now = unix_now_secs();
        self.get_at(key, now)
    }

    /// Removes `key`, returning its value.
    pub fn remove(&mut self, key: &str) -> (r: Option<String>)
        requires
            old(self).wf(),
        ensures
            final(self).wf(),
            final(self).entry(key@) is None,
            match old(self).entry(key@) {
                Some((v, _)) => r matches Some(s) && s@ == v,
                None => r is None,
            },
            forall|k: Seq<char>| k != key@ ==> #[trigger] final(self).entry(k) == old(self).entry(k),
    {
        match self.find(key) {
            Some(i) => {
                proof {
                    old(self).lemma_entry_at(i as int);
                }
                let e = self.data.remove(i);
                proof {
                    assert(old(self).keys()[i as int] == key@);
                    assert(self.keys() =~= old(self).keys().remove(i as int));
                    assert(!self.keys().contains(key@)) by {
                        if self.keys().contains(key@) {
                            let k = choose|k: int| 0 <= k < self.keys().len() && self.keys()[k] == key@;
                            if k < i {
                                assert(old(self).keys()[k] == key@);
                            } else {
                                assert(old(self).keys()[k + 1] == key@);
                            }
                        }
                    }
                    assert forall|k: Seq<char>| k != key@ implies #[trigger] self.entry(k) == old(self).entry(k) by {
                        if old(self).keys().contains(k) {
                            let j = choose|j: int| 0 <= j < old(self).keys().len() && old(self).keys()[j] == k;
                            old(self).lemma_entry_at(j);
                            if j < i {
                                self.lemma_entry_at(j);
                            } else {
                                assert(j != i);
                                self.lemma_entry_at(j - 1);
                            }
                        } else {
                            assert(!self.keys().contains(k)) by {
                                if self.keys().contains(k) {
                                    let j = choose|j: int| 0 <= j < self.keys().len() && self.keys()[j] == k;
                                    if j < i {
                                        assert(old(self).keys()[j] == k);
                                    } else {
                                        assert(old(self).keys()[j + 1] == k);
                                    }
                                }
                            }
                        }
                    }
                }
                Some(e.value)
            },
            None => None,
        }
    }

    /// Removes every entry.
    pub fn clear(&mut self)
        ensures
            final(self).wf(),
            forall|k: Seq<char>| #[trigger] final(self).entry(k) is None,
    {
        self.data.clear();
        assert(self.keys() =~= Seq::<Seq<char>>::empty());
    }

    /// Removes the entries whose expiry is not after `now`; entries without expiry stay.
    pub fn cleanup_expired_at(&mut self, now: u64)
        requires
            old(self).wf(),
        ensures
            final(self).wf(),
            forall|k: Seq<char>|
                #[trigger] final(self).entry(k) == match old(self).entry(k) {
                    Some((v, Some(e))) => if e > now {
                        Some((v, Some(e)))
                    } else {
                        None
                    },
                    other => other,
                },
    {
        let ghost start = self.data@;
        let mut kept: Vec<CacheEntry> = Vec::new();
        let mut i: usize = 0;
        while i < self.data.len()
            invariant
                0 <= i <= self.data@.len(),
                self.data@ == start,
                start == old(self).data@,
                old(self).wf(),
                kept@.map_values(|e: CacheEntry| e.key@).no_duplicates(),
                forall|a: int| 0 <= a < kept@.len() ==> exists|b: int| 0 <= b < i && start[b] == #[trigger] kept@[a],
                forall|a: int|
                    0 <= a < kept@.len() ==> match (#[trigger] kept@[a]).expires_at {
                        Some(e) => e > now,
                        None => true,
                    },
                forall|b: int|
                    0 <= b < i ==> (match (#[trigger] start[b]).expires_at {
                        Some(e) => e > now,
                        None => true,
                    }) ==> exists|a: int| 0 <= a < kept@.len() && kept@[a] == start[b],
            decreases self.data@.len() - i,
        {
            let keep = match self.data[i].expires_at {
                Some(e) => e > now,
                None => true,
            };
            if keep {
                let e = &self.data[i];
                let ghost before = kept@;
                kept.push(CacheEntry { key: e.key.clone(), value: e.value.clone(), expires_at: e.expires_at });
                proof {
                    let ks = kept@.map_values(|e: CacheEntry| e.key@);
                    assert forall|a: int, b: int| 0 <= a < b < ks.len() implies ks[a] != ks[b] by {
                        assert(ks[a] == kept@[a].key@ && ks[b] == kept@[b].key@);
                        if b == before.len() {
                            assert(kept@[a] == before[a]);
                            let c = choose|c: int| 0 <= c < i && start[c] == #[trigger] before[a];
                            assert(old(self).keys()[c] == ks[a]);
                            assert(kept@[b].key@ == start[i as int].key@);
                            assert(old(self).keys()[i as int] == ks[b]);
                        } else {
                            let kb = before.map_values(|e: CacheEntry| e.key@);
                            assert(kept@[a] == before[a] && kept@[b] == before[b]);
                            assert(kb[a] == before[a].key@ && kb[b] == before[b].key@);
                        }
                    }
                    assert forall|a: int| 0 <= a < kept@.len() implies exists|b: int| 0 <= b < i + 1 && start[b] == #[trigger] kept@[a] by {
                        if a < before.len() {
                            let c = choose|c: int| 0 <= c < i && start[c] == #[trigger] before[a];
                            assert(start[c] == kept@[a]);
                        } else {
                            assert(start[i as int] == kept@[a]);
                        }
                    }
                    assert forall|b: int|
                        0 <= b < i + 1 && (match (#[trigger] start[b]).expires_at {
                            Some(e) => e > now,
                            None => true,
                        }) implies exists|a: int| 0 <= a < kept@.len() && kept@[a] == start[b] by {
                        if b < i {
                            let a = choose|a: int| 0 <= a < before.len() && before[a] == start[b];
                            assert(kept@[a] == start[b]);
                        } else {
                            assert(kept@[before.len() as int] == start[b]);
                        }
                    }
                }
            } else {
                proof {
                    assert forall|a: int| 0 <= a < kept@.len() implies exists|b: int| 0 <= b < i + 1 && start[b] == #[trigger] kept@[a] by {
                        let c = choose|c: int| 0 <= c < i && start[c] == #[trigger] kept@[a];
                    }
                }
            }
            i += 1;
        }
        self.data = kept;
        proof {
            assert forall|k: Seq<char>|
                #[trigger] self.entry(k) == match old(self).entry(k) {
                    Some((v, Some(e))) => if e > now {
                        Some((v, Some(e)))
                    } else {
                        None
                    },
                    other => other,
                } by {
                if old(self).keys().contains(k) {
                    let j = choose|j: int| 0 <= j < old(self).keys().len() && old(self).keys()[j] == k;
                    old(self).lemma_entry_at(j);
                    let kept_j = match start[j].expires_at {
                        Some(e) => e > now,
                        None => true,
                    };
                    if kept_j {
                        let a = choose|a: int| 0 <= a < self.data@.len() && self.data@[a] == start[j];
                        self.lemma_entry_at(a);
                    } else {
                        assert(!self.keys().contains(k)) by {
                            if self.keys().contains(k) {
                                let a = choose|a: int| 0 <= a < self.keys().len() && self.keys()[a] == k;
                                let b = choose|b: int| 0 <= b < start.len() && start[b] == #[trigger] self.data@[a];
                                assert(old(self).keys()[b] == k);
                                assert(old(self).keys()[j] == k);
                            }
                        }
                    }
                } else {
                    assert(!self.keys().contains(k)) by {
                        if self.keys().contains(k) {
                            let a = choose|a: int| 0 <= a < self.keys().len() && self.keys()[a] == k;
                            let b = choose|b: int| 0 <= b < start.len() && start[b] == #[trigger] self.data@[a];
                            assert(old(self).keys()[b] == k);
                        }
                    }
                }
            }
        }
    }

    /// Removes the entries that have expired by now.
    pub fn cleanup_expired(&mut self)
        requires
            old(self).wf(),
        ensures
            final(self).wf(),
            forall|k: Seq<char>| (#[trigger] final(self).entry(k)) is Some ==> final(self).entry(k) == old(self).entry(k),
            forall|k: Seq<char>|
                (#[trigger] old(self).entry(k) matches Some((_, None))) ==> final(self).entry(k) == old(self).entry(k),
    {
        let now = unix_now_secs();
        self.cleanup_expired_at(now);
    }
}

} // verus!
