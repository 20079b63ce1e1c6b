//! The rate store: a keyed collection of premium entries, at most one per
//! (rate key, risk score) pair, supporting upsert, exact and ranged score
//! queries, an emptiness probe and a whole-store clear.

use vstd::prelude::*;

verus! {

/// The store's mathematical content: a map from (rate key, risk score)
/// to the stored premium member.
pub type RateMap = Map<(Seq<char>, int), Seq<char>>;

/// One stored rate: a premium member filed under a rate key and a risk
/// score.
pub struct RateEntry {
    pub key: String,
    pub score: i32,
    pub member: String,
}

/// The map key an entry is filed under.
pub open spec fn entry_key(e: RateEntry) -> (Seq<char>, int) {
    (e.key@, e.score as int)
}

/// No two entries share a (rate key, risk score) pair.
pub open spec fn wf_entries(s: Seq<RateEntry>) -> bool {
    forall|i: int, j: int| 0 <= i < j < s.len() ==> entry_key(s[i]) != entry_key(s[j])
}

/// The map held by a sequence of entries.
pub open spec fn entries_map(s: Seq<RateEntry>) -> RateMap
    decreases s.len(),
{
    if s.len() == 0 {
        Map::empty()
    } else {
        entries_map(s.drop_last()).insert(entry_key(s.last()), s.last().member@)
    }
}

/// The map holds a key exactly when some entry is filed under it.
proof fn lemma_entries_map_contains(s: Seq<RateEntry>, k: (Seq<char>, int))
    ensures
        entries_map(s).contains_key(k) <==> (exists|i: int|
            0 <= i < s.len() && entry_key(s[i]) == k),
    decreases s.len(),
{
    if s.len() > 0 {
        let t = s.drop_last();
        lemma_entries_map_contains(t, k);
        if entry_key(s.last()) == k {
            assert(entry_key(s[s.len() - 1]) == k);
        } else {
            if entries_map(s).contains_key(k) {
                let i = choose|i: int| 0 <= i < t.len() && entry_key(t[i]) == k;
                assert(entry_key(s[i]) == k);
            }
            if exists|i: int| 0 <= i < s.len() && entry_key(s[i]) == k {
                let i = choose|i: int| 0 <= i < s.len() && entry_key(s[i]) == k;
                assert(entry_key(t[i]) == k);
            }
        }
    }
}

/// Under well-formedness, each entry's member is the map's value at its
/// key.
proof fn lemma_entries_map_index(s: Seq<RateEntry>, i: int)
    requires
        wf_entries(s),
        0 <= i < s.len(),
    ensures
        entries_map(s).contains_key(entry_key(s[i])),
        entries_map(s)[entry_key(s[i])] == s[i].member@,
    decreases s.len(),
{
    if i < s.len() - 1 {
        let t = s.drop_last();
        assert(wf_entries(t));
        lemma_entries_map_index(t, i);
        assert(entry_key(s[i]) != entry_key(s[s.len() - 1]));
    }
}

/// Replacing the entry at an index by one with the same key turns the map
/// into the map with that key overwritten.
proof fn lemma_entries_map_update(s: Seq<RateEntry>, i: int, e: RateEntry)
    requires
        wf_entries(s),
        0 <= i < s.len(),
        entry_key(e) == entry_key(s[i]),
    ensures
        entries_map(s.update(i, e)) == entries_map(s).insert(entry_key(e), e.member@),
    decreases s.len(),
{
    let s2 = s.update(i, e);
    if i == s.len() - 1 {
        assert(s2.drop_last() =~= s.drop_last());
        assert(entries_map(s2) =~= entries_map(s).insert(entry_key(e), e.member@));
    } else {
        let t = s.drop_last();
        assert(wf_entries(t));
        assert(s2.drop_last() =~= t.update(i, e));
        lemma_entries_map_update(t, i, e);
        assert(entry_key(s[i]) != entry_key(s[s.len() - 1]));
        assert(s2.last() == s.last());
        assert(entries_map(s2) =~= entries_map(s).insert(entry_key(e), e.member@));
    }
}

/// The rate store: entries filed under distinct (rate key, risk score)
/// pairs. Its view is the map of stored members.
pub struct RateStore {
    entries: Vec<RateEntry>,
}

impl View for RateStore {
    type V = RateMap;

    closed spec fn view(&self) -> RateMap {
        entries_map(self.entries@)
    }
}

impl RateStore {
    /// Well-formedness: no (rate key, risk score) pair is filed twice.
    /// Every constructor establishes it and every method preserves it.
    pub closed spec fn wf(&self) -> bool {
        wf_entries(self.entries@)
    }

    /// An empty store.
    pub fn new() -> (r: RateStore)
        ensures
            r.wf(),
            r@ == RateMap::empty(),
    {
        RateStore { entries: Vec::new() }
    }

    /// The index of the entry filed under (key, score), if any.
    fn find_index(&self, key: &String, score: i32) -> (r: Option<usize>)
        ensures
            match r {
                Some(i) => i < self.entries@.len() && entry_key(self.entries@[i as int]) == (
                    key@,
                    score as int,
                ),
                None => forall|j: int|
                    0 <= j < self.entries@.len() ==> entry_key(self.entries@[j]) != (
                        key@,
                        score as int,
                    ),
            },
    {
        let n = self.entries.len();
        let mut i: usize = 0;
        while i < n
            invariant
                i <= n == self.entries@.len(),
                forall|j: int|
                    0 <= j < i ==> entry_key(self.entries@[j]) != (key@, score as int),
            decreases n - i,
        {
            let e = &self.entries[i];
            if e.score == score && e.key == *key {
                return Some(i);
            }
            i = i + 1;
        }
        None
    }

    /// Files `member` under (key, score), overwriting any member already
    /// filed there.
    pub fn bulk_insert(&mut self, key: String, score: i32, member: String)
        requires
            old(self).wf(),
        ensures
            final(self).wf(),
            final(self)@ == old(self)@.insert((key@, score as int), member@),
    {
        let ghost s0 = self.entries@;
        match self.find_index(&key, score) {
            Some(i) => {
                let e = RateEntry { key, score, member };
                let ghost ge = e;
                self.entries.push(e);
                let _ = self.entries.swap_remove(i);
                proof {
                    assert(self.entries@ =~= s0.update(i as int, ge));
                    lemma_entries_map_update(s0, i as int, ge);
                    assert(wf_entries(self.entries@));
                }
            },
            None => {
                let e = RateEntry { key, score, member };
                let ghost ge = e;
                self.entries.push(e);
                proof {
                    assert(self.entries@.drop_last() =~= s0);
                    assert(wf_entries(self.entries@));
                }
            },
        }
    }

    /// The member filed under (key, score), if any.
    fn get_member(&self, key: &String, score: i32) -> (r: Option<String>)
        requires
            self.wf(),
        ensures
            match r {
                Some(m) => self@.contains_key((key@, score as int)) && m@ == self@[
                    (key@, score as int)
                ],
                None => !self@.contains_key((key@, score as int)),
            },
    {
        match self.find_index(key, score) {
            Some(i) => {
                proof {
                    lemma_entries_map_index(self.entries@, i as int);
                }
                let e = &self.entries[i];
                Some(e.member.clone())
            },
            None => {
                proof {
                    lemma_entries_map_contains(self.entries@, (key@, score as int));
                }
                None
            },
        }
    }

    /// Whether the store holds any entry at all.
    pub fn has_keys(&self) -> (r: bool)
        requires
            self.wf(),
        ensures
            r <==> (exists|k: (Seq<char>, int)| self@.contains_key(k)),
    {
        proof {
            if self.entries@.len() > 0 {
                lemma_entries_map_index(self.entries@, 0);
                assert(self@.contains_key(entry_key(self.entries@[0])));
            } else {
                assert forall|k: (Seq<char>, int)| !self@.contains_key(k) by {
                    lemma_entries_map_contains(self.entries@, k);
                }
            }
        }
        self.entries.len() > 0
    }

    /// Destroys every entry in the store.
    pub fn clear(&mut self)
        ensures
            final(self).wf(),
            final(self)@ == RateMap::empty(),
    {
        self.entries.clear();
    }

    /// All members filed under `key` whose score lies in [min, max],
    /// ordered by score ascending.
    pub fn range_by_score(&self, key: &String, min: i32, max: i32) -> (r: Vec<String>)
        requires
            self.wf(),
        ensures
            r.deep_view() == range_spec(self@, key@, min as int, max as int),
    {
        let mut result: Vec<String> = Vec::new();
        if min > max {
            proof {
                assert(result.deep_view() =~= range_spec(self@, key@, min as int, max as int));
            }
            return result;
        }
        let mut cur: i64 = min as i64;
        while cur <= max as i64
            invariant
                self.wf(),
                min as i64 <= cur <= max as i64 + 1,
                result.deep_view() == range_spec(self@, key@, min as int, cur - 1),
            decreases max as i64 + 1 - cur,
        {
            let ghost prev = result.deep_view();
            match self.get_member(key, cur as i32) {
                Some(m) => {
                    let ghost gm = m@;
                    result.push(m);
                    proof {
                        assert(result.deep_view() =~= prev.push(gm));
                    }
                },
                None => {},
            }
            proof {
                assert(range_spec(self@, key@, min as int, cur as int) == range_spec(
                    self@,
                    key@,
                    min as int,
                    cur - 1,
                ) + (if self@.contains_key((key@, cur as int)) {
                    seq![self@[(key@, cur as int)]]
                } else {
                    Seq::<Seq<char>>::empty()
                }));
                assert(result.deep_view() =~= range_spec(self@, key@, min as int, cur as int));
            }
            cur = cur + 1;
        }
        result
    }
}

/// The members a ranged score query returns: for each score from `lo` to
/// `hi` in ascending order, the member filed under (key, score), if any.
pub open spec fn range_spec(m: RateMap, key: Seq<char>, lo: int, hi: int) -> Seq<Seq<char>>
    decreases hi - lo + 1,
{
    if lo > hi {
        Seq::empty()
    } else {
        range_spec(m, key, lo, hi - 1) + (if m.contains_key((key, hi)) {
            seq![m[(key, hi)]]
        } else {
            Seq::empty()
        })
    }
}

} // verus!
