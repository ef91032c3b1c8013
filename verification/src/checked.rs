use vstd::prelude::*;

use crate::target::ScrapingTarget;
use crate::text::str_eq;

verus! {

/// What the per-cycle diagnostics remember for one retailer key: how many
/// of its targets were checked and their names, in order.
#[verifier::ext_equal]
pub ghost struct CheckedInfo {
    pub count: int,
    pub names: Seq<Seq<char>>,
}

/// One retailer key's diagnostic tally.
pub struct CheckedEntry {
    pub key: String,
    pub count: usize,
    pub names: Vec<String>,
}

impl View for CheckedEntry {
    type V = CheckedInfo;

    open spec fn view(&self) -> CheckedInfo {
        CheckedInfo { count: self.count as int, names: self.names.deep_view() }
    }
}

/// Per-key diagnostic tally of the targets checked in one cycle, keyed by
/// retailer key; each key has at most one entry.
pub struct CheckedMap {
    entries: Vec<CheckedEntry>,
}

/// How recording one checked target changes the tally: an existing key's
/// count grows by one and gains the name; a new key starts at one.
pub open spec fn spec_modify_checked(
    m: Map<Seq<char>, CheckedInfo>,
    key: Seq<char>,
    name: Seq<char>,
) -> Map<Seq<char>, CheckedInfo> {
    if m.dom().contains(key) {
        m.insert(key, CheckedInfo { count: m[key].count + 1, names: m[key].names.push(name) })
    } else {
        m.insert(key, CheckedInfo { count: 1, names: seq![name] })
    }
}

/// The map an association list of tallies stands for.
spec fn tally_map(s: Seq<CheckedEntry>) -> Map<Seq<char>, CheckedInfo>
    decreases s.len(),
{
    if s.len() == 0 {
        Map::empty()
    } else {
        tally_map(s.drop_last()).insert(s.last().key@, s.last()@)
    }
}

/// Each key occurs at most once.
spec fn unique_keys(s: Seq<CheckedEntry>) -> bool {
    forall|i: int, j: int| 0 <= i < j < s.len() ==> s[i].key@ != s[j].key@
}

proof fn lemma_tally_map_contains(s: Seq<CheckedEntry>, k: Seq<char>)
    ensures
        tally_map(s).dom().contains(k) <==> exists|i: int| 0 <= i < s.len() && s[i].key@ == k,
    decreases s.len(),
{
    if s.len() > 0 {
        lemma_tally_map_contains(s.drop_last(), k);
        if s.last().key@ == k {
            assert(s[s.len() - 1].key@ == k);
        } else if tally_map(s).dom().contains(k) {
            let i = choose|i: int| 0 <= i < s.drop_last().len() && s.drop_last()[i].key@ == k;
            assert(s[i].key@ == k);
        } else if exists|i: int| 0 <= i < s.len() && s[i].key@ == k {
            let i = choose|i: int| 0 <= i < s.len() && s[i].key@ == k;
            assert(i < s.len() - 1);
            assert(s.drop_last()[i].key@ == k);
        }
    }
}

proof fn lemma_tally_map_index(s: Seq<CheckedEntry>, i: int)
    requires
        unique_keys(s),
        0 <= i < s.len(),
    ensures
        tally_map(s).dom().contains(s[i].key@),
        tally_map(s)[s[i].key@] == s[i]@,
    decreases s.len(),
{
    if i < s.len() - 1 {
        assert(unique_keys(s.drop_last()));
        lemma_tally_map_index(s.drop_last(), i);
        assert(s.last().key@ != s[i].key@);
    }
}

proof fn lemma_tally_map_update(s: Seq<CheckedEntry>, i: int, e: CheckedEntry)
    requires
        unique_keys(s),
        0 <= i < s.len(),
        e.key@ == s[i].key@,
    ensures
        tally_map(s.update(i, e)) == tally_map(s).insert(e.key@, e@),
    decreases s.len(),
{
    let t = s.update(i, e);
    if i == s.len() - 1 {
        assert(t.drop_last() =~= s.drop_last());
        assert(tally_map(t) =~= tally_map(s).insert(e.key@, e@));
    } else {
        assert(unique_keys(s.drop_last()));
        assert(t.drop_last() =~= s.drop_last().update(i, e));
        lemma_tally_map_update(s.drop_last(), i, e);
        assert(s.last().key@ != s[i].key@);
        assert(t.last() == s.last());
        assert(tally_map(t) =~= tally_map(s).insert(e.key@, e@));
    }
}

impl View for CheckedMap {
    type V = Map<Seq<char>, CheckedInfo>;

    closed spec fn view(&self) -> Map<Seq<char>, CheckedInfo> {
        tally_map(self.entries@)
    }
}

impl CheckedMap {
    /// The association list holds each key at most once.
    pub closed spec fn wf(&self) -> bool {
        unique_keys(self.entries@)
    }

    /// An empty tally.
    pub fn new() -> (r: CheckedMap)
        ensures
            r.wf(),
            r@ == Map::<Seq<char>, CheckedInfo>::empty(),
    {
        CheckedMap { entries: Vec::new() }
    }

    /// The position of `key`'s tally, if it has one.
    fn find_index(&self, key: &str) -> (r: Option<usize>)
        ensures
            match r {
                Some(i) => i < self.entries@.len() && self.entries@[i as int].key@ == key@,
                None => forall|j: int|
                    0 <= j < self.entries@.len() ==> self.entries@[j].key@ != key@,
            },
    {
        let mut i: usize = 0;
        while i < self.entries.len()
            invariant
                i <= self.entries@.len(),
                forall|j: int| 0 <= j < i ==> self.entries@[j].key@ != key@,
            decreases self.entries@.len() - i,
        {
            if str_eq(self.entries[i].key.as_str(), key) {
                return Some(i);
            }
            i += 1;
        }
        None
    }

    /// The tallies as plain entries, for the per-cycle diagnostic log:
    /// each entry is in the map, every key of the map appears, and no key
    /// appears twice.
    pub fn entries(&self) -> (r: &Vec<CheckedEntry>)
        requires
            self.wf(),
        ensures
            forall|i: int|
                0 <= i < r@.len() ==> self@.dom().contains(#[trigger] r@[i].key@)
                    && self@[r@[i].key@] == r@[i]@,
            forall|k: Seq<char>|
                self@.dom().contains(k) ==> exists|i: int| 0 <= i < r@.len() && r@[i].key@ == k,
            forall|i: int, j: int| 0 <= i < j < r@.len() ==> r@[i].key@ != r@[j].key@,
    {
        proof {
            assert forall|i: int| 0 <= i < self.entries@.len() implies self@.dom().contains(
                #[trigger] self.entries@[i].key@,
            ) && self@[self.entries@[i].key@] == self.entries@[i]@ by {
                lemma_tally_map_index(self.entries@, i);
            }
            assert forall|k: Seq<char>| self@.dom().contains(k) implies exists|i: int|
                0 <= i < self.entries@.len() && self.entries@[i].key@ == k by {
                lemma_tally_map_contains(self.entries@, k);
            }
        }
        &self.entries
    }
}

/// Record `product` in the per-key diagnostic tally: its key's count grows
/// by one and the product's name joins the key's list.
pub fn modify_checked_map(product: &ScrapingTarget, map: &mut CheckedMap)
    requires
        old(map).wf(),
        old(map)@.dom().contains(product@.key) ==> old(map)@[product@.key].count < usize::MAX,
    ensures
        final(map).wf(),
        final(map)@ == spec_modify_checked(old(map)@, product@.key, product@.name),
{
    match map.find_index(product.key.as_str()) {
        Some(i) => {
            proof {
                lemma_tally_map_index(map.entries@, i as int);
            }
            let ghost prev = map.entries@;
            map.entries[i].count = map.entries[i].count + 1;
            map.entries[i].names.push(product.name.clone());
            proof {
                let e = map.entries@[i as int];
                assert(map.entries@ =~= prev.update(i as int, e));
                assert(unique_keys(prev.update(i as int, e)));
                lemma_tally_map_update(prev, i as int, e);
                assert(e@.names =~= prev[i as int]@.names.push(product@.name));
                assert(e@ =~= CheckedInfo {
                    count: prev[i as int]@.count + 1,
                    names: prev[i as int]@.names.push(product@.name),
                });
            }
        },
        None => {
            let ghost prev = map.entries@;
            let mut names: Vec<String> = Vec::new();
            names.push(product.name.clone());
            let entry = CheckedEntry { key: product.key.clone(), count: 1, names };
            map.entries.push(entry);
            proof {
                lemma_tally_map_contains(prev, product@.key);
                assert(map.entries@.drop_last() =~= prev);
                assert(map.entries@.last().key@ == product@.key);
                assert(map.entries@.last()@.names =~= seq![product@.name]);
                assert(map.entries@.last()@ =~= CheckedInfo {
                    count: 1,
                    names: seq![product@.name],
                });
            }
        },
    }
}

} // verus!
