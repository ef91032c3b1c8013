use vstd::prelude::*;

use crate::text::str_eq;

verus! {

/// Cool-down window written after a rate-limit response, in seconds.
pub const RATE_LIMIT_COOLDOWN_SECONDS: i64 = 120;

/// A target is rate-limited exactly when its key has an entry whose expiry
/// lies in the future; an absent key is never limited.
pub open spec fn spec_is_limited(m: Map<Seq<char>, int>, key: Seq<char>, now: int) -> bool {
    m.dom().contains(key) && now < m[key]
}

/// Mapping from target key to cool-down expiry timestamp (seconds).
/// Entries are never evicted: a stale expiry is simply ignored on read and
/// overwritten on the next limit event.
pub struct RateLimitStore {
    entries: Vec<(String, i64)>,
}

/// The map an association list of (key, expiry) entries stands for.
spec fn entries_map(s: Seq<(String, i64)>) -> Map<Seq<char>, int>
    decreases s.len(),
{
    if s.len() == 0 {
        Map::empty()
    } else {
        entries_map(s.drop_last()).insert(s.last().0@, s.last().1 as int)
    }
}

/// Each key occurs at most once.
spec fn unique_keys(s: Seq<(String, i64)>) -> bool {
    forall|i: int, j: int| 0 <= i < j < s.len() ==> s[i].0@ != s[j].0@
}

proof fn lemma_entries_map_contains(s: Seq<(String, i64)>, k: Seq<char>)
    ensures
        entries_map(s).dom().contains(k) <==> exists|i: int| 0 <= i < s.len() && s[i].0@ == k,
    decreases s.len(),
{
    if s.len() > 0 {
        lemma_entries_map_contains(s.drop_last(), k);
        if s.last().0@ == k {
            assert(s[s.len() - 1].0@ == k);
        } else if entries_map(s).dom().contains(k) {
            let i = choose|i: int| 0 <= i < s.drop_last().len() && s.drop_last()[i].0@ == k;
            assert(s[i].0@ == k);
        } else if exists|i: int| 0 <= i < s.len() && s[i].0@ == k {
            let i = choose|i: int| 0 <= i < s.len() && s[i].0@ == k;
            assert(i < s.len() - 1);
            assert(s.drop_last()[i].0@ == k);
        }
    }
}

proof fn lemma_entries_map_index(s: Seq<(String, i64)>, i: int)
    requires
        unique_keys(s),
        0 <= i < s.len(),
    ensures
        entries_map(s).dom().contains(s[i].0@),
        entries_map(s)[s[i].0@] == s[i].1 as int,
    decreases s.len(),
{
    if i < s.len() - 1 {
        assert(unique_keys(s.drop_last())) by {
            assert(forall|x: int, y: int|
                0 <= x < y < s.drop_last().len() ==> s.drop_last()[x].0@ != s.drop_last()[y].0@);
        }
        lemma_entries_map_index(s.drop_last(), i);
        assert(s.last().0@ != s[i].0@);
    }
}

proof fn lemma_entries_map_update(s: Seq<(String, i64)>, i: int, v: i64)
    requires
        unique_keys(s),
        0 <= i < s.len(),
    ensures
        entries_map(s.update(i, (s[i].0, v))) == entries_map(s).insert(s[i].0@, v as int),
    decreases s.len(),
{
    let t = s.update(i, (s[i].0, v));
    if i == s.len() - 1 {
        assert(t.drop_last() =~= s.drop_last());
        assert(entries_map(t) =~= entries_map(s).insert(s[i].0@, v as int));
    } else {
        assert(unique_keys(s.drop_last()));
        assert(t.drop_last() =~= s.drop_last().update(i, (s[i].0, v)));
        lemma_entries_map_update(s.drop_last(), i, v);
        assert(s.last().0@ != s[i].0@);
        assert(t.last() == s.last());
        assert(entries_map(t) =~= entries_map(s).insert(s[i].0@, v as int));
    }
}

impl View for RateLimitStore {
    type V = Map<Seq<char>, int>;

    closed spec fn view(&self) -> Map<Seq<char>, int> {
        entries_map(self.entries@)
    }
}

impl RateLimitStore {
    /// The association list holds each key at most once.
    pub closed spec fn wf(&self) -> bool {
        unique_keys(self.entries@)
    }

    /// An empty store: nothing is rate-limited.
    pub fn new() -> (r: RateLimitStore)
        ensures
            r.wf(),
            r@ == Map::<Seq<char>, int>::empty(),
    {
        RateLimitStore { entries: Vec::new() }
    }

    /// The position of `key`'s entry, if it has one.
    fn find_index(&self, key: &str) -> (r: Option<usize>)
        ensures
            match r {
                Some(i) => i < self.entries@.len() && self.entries@[i as int].0@ == key@,
                None => forall|j: int|
                    0 <= j < self.entries@.len() ==> self.entries@[j].0@ != key@,
            },
    {
        let mut i: usize = 0;
        while i < self.entries.len()
            invariant
                i <= self.entries@.len(),
                forall|j: int| 0 <= j < i ==> self.entries@[j].0@ != key@,
            decreases self.entries@.len() - i,
        {
            if str_eq(self.entries[i].0.as_str(), key) {
                return Some(i);
            }
            i += 1;
        }
        None
    }

    /// True exactly when `key` has an entry and `now` lies before its
    /// expiry.
    pub fn is_limited(&self, key: &str, now: i64) -> (r: bool)
        requires
            self.wf(),
        ensures
            r == spec_is_limited(self@, key@, now as int),
    {
        match self.find_index(key) {
            Some(i) => {
                proof {
                    lemma_entries_map_index(self.entries@, i as int);
                }
                now < self.entries[i].1
            },
            None => {
                proof {
                    lemma_entries_map_contains(self.entries@, key@);
                }
                false
            },
        }
    }

    /// Insert or overwrite `key`'s entry with the given expiry, as when
    /// restoring a persisted store.
    pub fn set_expiry(&mut self, key: &str, expiry: i64)
        requires
            old(self).wf(),
        ensures
            final(self).wf(),
            final(self)@ == old(self)@.insert(key@, expiry as int),
    {
        match self.find_index(key) {
            Some(i) => {
                proof {
                    lemma_entries_map_update(self.entries@, i as int, expiry);
                }
                self.entries[i].1 = expiry;
            },
            None => {
                let ghost prev = self.entries@;
                self.entries.push((key.to_owned(), expiry));
                proof {
                    lemma_entries_map_contains(prev, key@);
                    assert(self.entries@.drop_last() =~= prev);
                    assert(self.entries@.last().0@ == key@);
                }
            },
        }
    }

    /// Record a rate-limit event for `key`: its cool-down now expires at
    /// `now + RATE_LIMIT_COOLDOWN_SECONDS`.
    pub fn set_limit(&mut self, key: &str, now: i64)
        requires
            old(self).wf(),
            now <= i64::MAX - RATE_LIMIT_COOLDOWN_SECONDS,
        ensures
            final(self).wf(),
            final(self)@ == old(self)@.insert(key@, now + RATE_LIMIT_COOLDOWN_SECONDS),
    {
        self.set_expiry(key, now + RATE_LIMIT_COOLDOWN_SECONDS);
    }

    /// Write every entry of `updates` into this store, overwriting any
    /// entry the same key already has.
    pub fn merge(&mut self, updates: &RateLimitStore)
        requires
            old(self).wf(),
            updates.wf(),
        ensures
            final(self).wf(),
            final(self)@ == old(self)@.union_prefer_right(updates@),
    {
        let mut i: usize = 0;
        proof {
            assert(old(self)@.union_prefer_right(entries_map(updates.entries@.take(0)))
                =~= old(self)@);
        }
        while i < updates.entries.len()
            invariant
                i <= updates.entries@.len(),
                self.wf(),
                unique_keys(updates.entries@),
                self@ == old(self)@.union_prefer_right(entries_map(updates.entries@.take(i as int))),
            decreases updates.entries@.len() - i,
        {
            let ghost prefix = updates.entries@.take(i as int);
            self.set_expiry(updates.entries[i].0.as_str(), updates.entries[i].1);
            proof {
                assert(updates.entries@.take(i + 1).drop_last() =~= prefix);
                assert(updates.entries@.take(i + 1).last() == updates.entries@[i as int]);
                assert(old(self)@.union_prefer_right(entries_map(updates.entries@.take(i + 1)))
                    =~= old(self)@.union_prefer_right(entries_map(prefix)).insert(
                    updates.entries@[i as int].0@,
                    updates.entries@[i as int].1 as int,
                ));
            }
            i += 1;
        }
        proof {
            assert(updates.entries@.take(updates.entries@.len() as int) =~= updates.entries@);
        }
    }

    /// The entries as plain (key, expiry) pairs, for persistence: each
    /// pair is in the map, every key of the map appears, and no key
    /// appears twice.
    pub fn entries(&self) -> (r: &Vec<(String, i64)>)
        requires
            self.wf(),
        ensures
            forall|i: int|
                0 <= i < r@.len() ==> self@.dom().contains(#[trigger] r@[i].0@) && self@[r@[i].0@]
                    == r@[i].1 as int,
            forall|k: Seq<char>|
                self@.dom().contains(k) ==> exists|i: int| 0 <= i < r@.len() && r@[i].0@ == k,
            forall|i: int, j: int| 0 <= i < j < r@.len() ==> r@[i].0@ != r@[j].0@,
    {
        proof {
            assert forall|i: int| 0 <= i < self.entries@.len() implies self@.dom().contains(
                #[trigger] self.entries@[i].0@,
            ) && self@[self.entries@[i].0@] == self.entries@[i].1 as int by {
                lemma_entries_map_index(self.entries@, i);
            }
            assert forall|k: Seq<char>| self@.dom().contains(k) implies exists|i: int|
                0 <= i < self.entries@.len() && self.entries@[i].0@ == k by {
                lemma_entries_map_contains(self.entries@, k);
            }
        }
        &self.entries
    }
}

} // verus!
