//! An ordered map from `u64` keys to `u64` values, kept as a list of entries
//! in strictly increasing key order: insertion, removal, the least and the
//! greatest entry, and the values of a key range in key order.
use vstd::prelude::*;

verus! {

/// The keys of the entries strictly increase.
pub open spec fn keys_increasing(s: Seq<(u64, u64)>) -> bool {
    forall|i: int, j: int| 0 <= i < j < s.len() ==> s[i].0 < s[j].0
}

/// The map that a list of entries denotes (a later entry wins on a repeated key).
pub open spec fn entries_map(s: Seq<(u64, u64)>) -> Map<u64, u64>
    decreases s.len(),
{
    if s.len() == 0 {
        Map::empty()
    } else {
        entries_map(s.drop_last()).insert(s.last().0, s.last().1)
    }
}

/// The values of the keys `lo <= k < hi` of a map, in increasing key order.
pub open spec fn range_values(m: Map<u64, u64>, lo: int, hi: int) -> Seq<u64>
    decreases hi - lo,
{
    if hi <= lo {
        seq![]
    } else {
        let k = (hi - 1) as u64;
        if m.contains_key(k) {
            range_values(m, lo, hi - 1).push(m[k])
        } else {
            range_values(m, lo, hi - 1)
        }
    }
}

/// The values of the entries whose key lies in `[lo, hi)`, in list order.
pub open spec fn filter_range(s: Seq<(u64, u64)>, lo: int, hi: int) -> Seq<u64>
    decreases s.len(),
{
    if s.len() == 0 {
        seq![]
    } else {
        let e = s.last();
        if lo <= e.0 < hi {
            filter_range(s.drop_last(), lo, hi).push(e.1)
        } else {
            filter_range(s.drop_last(), lo, hi)
        }
    }
}

/// What the entries of an increasing list denote: one key per entry, each with
/// its entry's value, and no other key.
pub proof fn lemma_entries_map(s: Seq<(u64, u64)>)
    requires
        keys_increasing(s),
    ensures
        entries_map(s).dom().finite(),
        entries_map(s).dom().len() == s.len(),
        forall|i: int| 0 <= i < s.len() ==> entries_map(s).contains_key(#[trigger] s[i].0)
            && entries_map(s)[s[i].0] == s[i].1,
        forall|k: u64| #[trigger] entries_map(s).contains_key(k) ==> exists|i: int| 0 <= i < s.len() && s[i].0 == k,
    decreases s.len(),
{
    if s.len() > 0 {
        let p = s.drop_last();
        assert(keys_increasing(p));
        lemma_entries_map(p);
        let last = s.last();
        if entries_map(p).contains_key(last.0) {
            let i = choose|i: int| 0 <= i < p.len() && p[i].0 == last.0;
            assert(s[i].0 < s[s.len() - 1].0);
        }
        assert forall|i: int| 0 <= i < s.len() implies entries_map(s).contains_key(#[trigger] s[i].0)
            && entries_map(s)[s[i].0] == s[i].1 by {
            if i < s.len() - 1 {
                assert(p[i] == s[i]);
                assert(s[i].0 < s[s.len() - 1].0);
            }
        }
        assert forall|k: u64| #[trigger] entries_map(s).contains_key(k) implies exists|i: int|
            0 <= i < s.len() && s[i].0 == k by {
            if k != last.0 {
                let i = choose|i: int| 0 <= i < p.len() && p[i].0 == k;
                assert(s[i] == p[i]);
            } else {
                assert(s[s.len() - 1].0 == k);
            }
        }
    }
}

/// Adding a key greater than every key of the map appends its value to the
/// values of a range that holds it.
proof fn lemma_range_values_insert_max(m: Map<u64, u64>, k: u64, v: u64, lo: int, hi: int)
    requires
        forall|j: u64| #[trigger] m.contains_key(j) ==> j < k,
        0 <= lo,
        hi <= u64::MAX + 1,
    ensures
        range_values(m.insert(k, v), lo, hi) == range_values(m, lo, hi) + (if lo <= k < hi {
            seq![v]
        } else {
            Seq::<u64>::empty()
        }),
    decreases hi - lo,
{
    let m2 = m.insert(k, v);
    if hi <= lo {
        assert(range_values(m, lo, hi) + Seq::<u64>::empty() =~= range_values(m, lo, hi));
    } else {
        lemma_range_values_insert_max(m, k, v, lo, hi - 1);
        let x = (hi - 1) as u64;
        assert(x as int == hi - 1);
        if hi - 1 == k {
            assert(!m.contains_key(x));
            assert(range_values(m2, lo, hi) =~= range_values(m, lo, hi) + seq![v]);
        } else if hi - 1 < k {
            assert(range_values(m2, lo, hi) =~= range_values(m, lo, hi) + Seq::<u64>::empty());
        } else {
            assert(!m.contains_key(x));
            assert(!m2.contains_key(x));
            assert(range_values(m2, lo, hi) == range_values(m2, lo, hi - 1));
            assert(range_values(m, lo, hi) == range_values(m, lo, hi - 1));
        }
    }
}

/// The values of a key range, read off an increasing list of entries, are the
/// values of that range of the map the list denotes.
pub proof fn lemma_filter_is_range(s: Seq<(u64, u64)>, lo: int, hi: int)
    requires
        keys_increasing(s),
        0 <= lo,
        hi <= u64::MAX + 1,
    ensures
        filter_range(s, lo, hi) == range_values(entries_map(s), lo, hi),
    decreases s.len(),
{
    if s.len() == 0 {
        assert(range_values(Map::<u64, u64>::empty(), lo, hi) =~= seq![]) by {
            lemma_range_values_empty(lo, hi);
        }
    } else {
        let p = s.drop_last();
        assert(keys_increasing(p));
        lemma_filter_is_range(p, lo, hi);
        lemma_entries_map(p);
        let e = s.last();
        assert forall|j: u64| #[trigger] entries_map(p).contains_key(j) implies j < e.0 by {
            let i = choose|i: int| 0 <= i < p.len() && p[i].0 == j;
            assert(s[i] == p[i]);
        }
        lemma_range_values_insert_max(entries_map(p), e.0, e.1, lo, hi);
        if lo <= e.0 < hi {
            assert(filter_range(s, lo, hi) =~= filter_range(p, lo, hi) + seq![e.1]);
        } else {
            assert(filter_range(s, lo, hi) =~= filter_range(p, lo, hi) + Seq::<u64>::empty());
        }
    }
}

proof fn lemma_range_values_empty(lo: int, hi: int)
    ensures
        range_values(Map::<u64, u64>::empty(), lo, hi) =~= seq![],
    decreases hi - lo,
{
    if hi > lo {
        lemma_range_values_empty(lo, hi - 1);
    }
}

/// A key that sorts between the entries before `p` and the entry at `p` is
/// not in the map.
proof fn lemma_absent(s: Seq<(u64, u64)>, p: int, k: u64)
    requires
        keys_increasing(s),
        0 <= p <= s.len(),
        forall|i: int| 0 <= i < p ==> s[i].0 < k,
        p < s.len() ==> s[p].0 != k && s[p].0 >= k,
    ensures
        !entries_map(s).contains_key(k),
{
    lemma_entries_map(s);
    if entries_map(s).contains_key(k) {
        let i = choose|i: int| 0 <= i < s.len() && s[i].0 == k;
        if i > p {
            assert(s[p].0 < s[i].0);
        }
    }
}

/// Replacing the value of the entry at `p` replaces the value of its key.
proof fn lemma_update_at(s: Seq<(u64, u64)>, p: int, v: u64)
    requires
        keys_increasing(s),
        0 <= p < s.len(),
    ensures
        keys_increasing(s.update(p, (s[p].0, v))),
        entries_map(s.update(p, (s[p].0, v))) == entries_map(s).insert(s[p].0, v),
{
    let k = s[p].0;
    let t = s.update(p, (k, v));
    assert(keys_increasing(t));
    lemma_entries_map(s);
    lemma_entries_map(t);
    assert forall|key: u64| #[trigger] entries_map(t).contains_key(key)
        <==> entries_map(s).insert(k, v).contains_key(key) by {
        if entries_map(t).contains_key(key) {
            let i = choose|i: int| 0 <= i < t.len() && t[i].0 == key;
            assert(s[i].0 == t[i].0);
        }
        if entries_map(s).contains_key(key) {
            let i = choose|i: int| 0 <= i < s.len() && s[i].0 == key;
            assert(t[i].0 == s[i].0);
        }
        assert(t[p].0 == k);
    }
    assert forall|key: u64| #[trigger] entries_map(t).contains_key(key) implies entries_map(t)[key]
        == entries_map(s).insert(k, v)[key] by {
        let i = choose|i: int| 0 <= i < t.len() && t[i].0 == key;
        if i != p {
            assert(s[i] == t[i]);
        }
    }
    assert(entries_map(t) =~= entries_map(s).insert(k, v));
}

/// Inserting an entry at the position its key sorts to keeps the keys
/// increasing and adds the key to the map.
proof fn lemma_insert_at(s: Seq<(u64, u64)>, p: int, k: u64, v: u64)
    requires
        keys_increasing(s),
        0 <= p <= s.len(),
        forall|i: int| 0 <= i < p ==> s[i].0 < k,
        p < s.len() ==> s[p].0 != k && s[p].0 >= k,
    ensures
        keys_increasing(s.insert(p, (k, v))),
        entries_map(s.insert(p, (k, v))) == entries_map(s).insert(k, v),
        !entries_map(s).contains_key(k),
{
    let t = s.insert(p, (k, v));
    assert forall|i: int, j: int| 0 <= i < j < t.len() implies t[i].0 < t[j].0 by {
        if j < p {
            assert(t[i] == s[i] && t[j] == s[j]);
        } else if j == p {
            assert(t[i] == s[i]);
        } else if i == p {
            assert(t[j] == s[j - 1]);
            if j - 1 > p {
                assert(s[p].0 < s[j - 1].0);
            }
        } else if i < p {
            assert(t[i] == s[i] && t[j] == s[j - 1]);
        } else {
            assert(t[i] == s[i - 1] && t[j] == s[j - 1]);
        }
    }
    lemma_absent(s, p, k);
    lemma_entries_map(s);
    lemma_entries_map(t);
    assert forall|key: u64| #[trigger] entries_map(t).contains_key(key)
        <==> entries_map(s).insert(k, v).contains_key(key) by {
        if entries_map(t).contains_key(key) {
            let i = choose|i: int| 0 <= i < t.len() && t[i].0 == key;
            if i < p {
                assert(s[i] == t[i]);
            } else if i > p {
                assert(s[i - 1] == t[i]);
            }
        }
        if entries_map(s).contains_key(key) {
            let i = choose|i: int| 0 <= i < s.len() && s[i].0 == key;
            if i < p {
                assert(t[i] == s[i]);
            } else {
                assert(t[i + 1] == s[i]);
            }
        }
        assert(t[p].0 == k);
    }
    assert forall|key: u64| #[trigger] entries_map(t).contains_key(key) implies entries_map(t)[key]
        == entries_map(s).insert(k, v)[key] by {
        let i = choose|i: int| 0 <= i < t.len() && t[i].0 == key;
        if i < p {
            assert(s[i] == t[i]);
        } else if i > p {
            assert(s[i - 1] == t[i]);
        }
    }
    assert(entries_map(t) =~= entries_map(s).insert(k, v));
}

/// Removing the entry at `p` removes its key from the map.
proof fn lemma_remove_at(s: Seq<(u64, u64)>, p: int)
    requires
        keys_increasing(s),
        0 <= p < s.len(),
    ensures
        keys_increasing(s.remove(p)),
        entries_map(s.remove(p)) == entries_map(s).remove(s[p].0),
{
    let k = s[p].0;
    let t = s.remove(p);
    assert forall|i: int, j: int| 0 <= i < j < t.len() implies t[i].0 < t[j].0 by {
        if j < p {
            assert(t[i] == s[i] && t[j] == s[j]);
        } else if i < p {
            assert(t[i] == s[i] && t[j] == s[j + 1]);
        } else {
            assert(t[i] == s[i + 1] && t[j] == s[j + 1]);
        }
    }
    lemma_entries_map(s);
    lemma_entries_map(t);
    assert forall|key: u64| #[trigger] entries_map(t).contains_key(key)
        <==> entries_map(s).remove(k).contains_key(key) by {
        if entries_map(t).contains_key(key) {
            let i = choose|i: int| 0 <= i < t.len() && t[i].0 == key;
            if i < p {
                assert(s[i] == t[i]);
                assert(s[i].0 < s[p].0);
            } else {
                assert(s[i + 1] == t[i]);
                assert(s[p].0 < s[i + 1].0);
            }
        }
        if entries_map(s).contains_key(key) && key != k {
            let i = choose|i: int| 0 <= i < s.len() && s[i].0 == key;
            if i < p {
                assert(t[i] == s[i]);
            } else {
                assert(i != p);
                assert(t[i - 1] == s[i]);
            }
        }
    }
    assert forall|key: u64| #[trigger] entries_map(t).contains_key(key) implies entries_map(t)[key]
        == entries_map(s).remove(k)[key] by {
        let i = choose|i: int| 0 <= i < t.len() && t[i].0 == key;
        if i < p {
            assert(s[i] == t[i]);
        } else {
            assert(s[i + 1] == t[i]);
        }
    }
    assert(entries_map(t) =~= entries_map(s).remove(k));
}

/// An ordered map of `u64` keys to `u64` values.
pub struct OrderedMap {
    entries: Vec<(u64, u64)>,
}

impl View for OrderedMap {
    type V = Map<u64, u64>;

    closed spec fn view(&self) -> Map<u64, u64> {
        entries_map(self.entries@)
    }
}

impl OrderedMap {
    /// The entries are kept in strictly increasing key order.
    pub closed spec fn wf(&self) -> bool {
        keys_increasing(self.entries@)
    }

    /// The empty map.
    pub fn new() -> (m: Self)
        ensures
            m.wf(),
            m@ == Map::<u64, u64>::empty(),
    {
        OrderedMap { entries: Vec::new() }
    }

    /// The number of keys.
    pub fn len(&self) -> (n: usize)
        requires
            self.wf(),
        ensures
            self@.dom().finite(),
            n == self@.dom().len(),
    {
        proof {
            lemma_entries_map(self.entries@);
        }
        self.entries.len()
    }

    /// The position of the first entry whose key is not below `k`.
    fn lower_bound(&self, k: u64) -> (p: usize)
        requires
            self.wf(),
        ensures
            p <= self.entries@.len(),
            forall|i: int| 0 <= i < p ==> self.entries@[i].0 < k,
            p < self.entries@.len() ==> self.entries@[p as int].0 >= k,
    {
        let mut p: usize = 0;
        while p < self.entries.len()
            invariant
                p <= self.entries@.len(),
                forall|i: int| 0 <= i < p ==> self.entries@[i].0 < k,
            decreases self.entries@.len() - p,
        {
            if self.entries[p].0 >= k {
                return p;
            }
            p = p + 1;
        }
        p
    }

    /// Maps `k` to `v`; returns the value `k` had, if any.
    pub fn insert(&mut self, k: u64, v: u64) -> (prev: Option<u64>)
        requires
            old(self).wf(),
        ensures
            final(self).wf(),
            final(self)@ == old(self)@.insert(k, v),
            match prev {
                Some(x) => old(self)@.contains_key(k) && old(self)@[k] == x,
                None => !old(self)@.contains_key(k),
            },
    {
        let ghost s = self.entries@;
        proof {
            lemma_entries_map(s);
        }
        let p = self.lower_bound(k);
        if p < self.entries.len() && self.entries[p].0 == k {
            let x = self.entries[p].1;
            proof {
                lemma_update_at(s, p as int, v);
            }
            self.entries.set(p, (k, v));
            assert(self.entries@ =~= s.update(p as int, (k, v)));
            Some(x)
        } else {
            proof {
                lemma_insert_at(s, p as int, k, v);
            }
            self.entries.insert(p, (k, v));
            None
        }
    }

    /// Removes `k`; returns the value it had, if any.
    pub fn remove(&mut self, k: u64) -> (prev: Option<u64>)
        requires
            old(self).wf(),
        ensures
            final(self).wf(),
            final(self)@ == old(self)@.remove(k),
            match prev {
                Some(x) => old(self)@.contains_key(k) && old(self)@[k] == x,
                None => !old(self)@.contains_key(k),
            },
    {
        let ghost s = self.entries@;
        proof {
            lemma_entries_map(s);
        }
        let p = self.lower_bound(k);
        if p < self.entries.len() && self.entries[p].0 == k {
            proof {
                lemma_remove_at(s, p as int);
            }
            let e = self.entries.remove(p);
            Some(e.1)
        } else {
            proof {
                lemma_absent(s, p as int, k);
                assert(entries_map(s).remove(k) =~= entries_map(s));
            }
            None
        }
    }

    /// The entry with the least key, if the map is not empty.
    pub fn first_key_value(&self) -> (r: Option<(u64, u64)>)
        requires
            self.wf(),
        ensures
            match r {
                None => self@.dom().len() == 0,
                Some((k, v)) => self@.contains_key(k) && self@[k] == v
                    && forall|j: u64| #[trigger] self@.contains_key(j) ==> k <= j,
            },
    {
        proof {
            lemma_entries_map(self.entries@);
        }
        if self.entries.len() == 0 {
            return None;
        }
        let e = self.entries[0];
        proof {
            let s = self.entries@;
            assert(s[0].0 == e.0);
            assert forall|j: u64| #[trigger] self@.contains_key(j) implies e.0 <= j by {
                let i = choose|i: int| 0 <= i < s.len() && s[i].0 == j;
                if i > 0 {
                    assert(s[0].0 < s[i].0);
                }
            }
        }
        Some(e)
    }

    /// The entry with the greatest key, if the map is not empty.
    pub fn last_key_value(&self) -> (r: Option<(u64, u64)>)
        requires
            self.wf(),
        ensures
            match r {
                None => self@.dom().len() == 0,
                Some((k, v)) => self@.contains_key(k) && self@[k] == v
                    && forall|j: u64| #[trigger] self@.contains_key(j) ==> j <= k,
            },
    {
        proof {
            lemma_entries_map(self.entries@);
        }
        let n = self.entries.len();
        if n == 0 {
            return None;
        }
        let e = self.entries[n - 1];
        proof {
            let s = self.entries@;
            assert(s[n - 1].0 == e.0);
            assert forall|j: u64| #[trigger] self@.contains_key(j) implies j <= e.0 by {
                let i = choose|i: int| 0 <= i < s.len() && s[i].0 == j;
                if i < n - 1 {
                    assert(s[i].0 < s[n - 1].0);
                }
            }
        }
        Some(e)
    }

    /// The values of the keys `lo <= k < hi`, in increasing key order.
    pub fn range_values(&self, lo: u64, hi: u64) -> (vals: Vec<u64>)
        requires
            self.wf(),
        ensures
            vals@ == range_values(self@, lo as int, hi as int),
    {
        let mut out: Vec<u64> = Vec::new();
        let mut i: usize = 0;
        while i < self.entries.len()
            invariant
                i <= self.entries@.len(),
                out@ == filter_range(self.entries@.subrange(0, i as int), lo as int, hi as int),
            decreases self.entries@.len() - i,
        {
            let e = self.entries[i];
            proof {
                let q = self.entries@.subrange(0, i + 1);
                assert(q.drop_last() =~= self.entries@.subrange(0, i as int));
                assert(q.last() == e);
            }
            if lo <= e.0 && e.0 < hi {
                out.push(e.1);
            }
            i = i + 1;
        }
        proof {
            assert(self.entries@.subrange(0, self.entries@.len() as int) =~= self.entries@);
            lemma_filter_is_range(self.entries@, lo as int, hi as int);
        }
        out
    }
}

/// Inserting then reading back: after `insert(k, v)` the map holds `v` at
/// `k`, and every other key keeps its value.
pub proof fn law_insert_then_get(m: Map<u64, u64>, k: u64, v: u64, j: u64)
    ensures
        m.insert(k, v).contains_key(k) && m.insert(k, v)[k] == v,
        j != k ==> (m.insert(k, v).contains_key(j) == m.contains_key(j)),
        j != k && m.contains_key(j) ==> m.insert(k, v)[j] == m[j],
{
}

/// Removing a key leaves it absent and every other key unchanged.
pub proof fn law_remove_then_absent(m: Map<u64, u64>, k: u64, j: u64)
    ensures
        !m.remove(k).contains_key(k),
        j != k ==> (m.remove(k).contains_key(j) == m.contains_key(j)),
        j != k && m.contains_key(j) ==> m.remove(k)[j] == m[j],
{
}

/// The values of a key range come in increasing key order: each listed value
/// is the value of a key of the range, and every key of the range is listed.
pub proof fn law_range_values_cover(m: Map<u64, u64>, lo: int, hi: int)
    requires
        0 <= lo,
        hi <= u64::MAX + 1,
    ensures
        range_values(m, lo, hi).len() == Set::new(|k: u64| lo <= k < hi && m.contains_key(k)).len(),
    decreases hi - lo,
{
    let s = Set::new(|k: u64| lo <= k < hi && m.contains_key(k));
    if hi <= lo {
        assert(s =~= Set::<u64>::empty());
    } else {
        law_range_values_cover(m, lo, hi - 1);
        let s1 = Set::new(|k: u64| lo <= k < hi - 1 && m.contains_key(k));
        let x = (hi - 1) as u64;
        assert(s1.finite()) by {
            lemma_interval_set_finite(m, lo, hi - 1);
        }
        if m.contains_key(x) {
            assert(s =~= s1.insert(x));
        } else {
            assert(s =~= s1);
        }
    }
}

proof fn lemma_interval_set_finite(m: Map<u64, u64>, lo: int, hi: int)
    requires
        0 <= lo,
        hi <= u64::MAX + 1,
    ensures
        Set::new(|k: u64| lo <= k < hi && m.contains_key(k)).finite(),
    decreases hi - lo,
{
    let s = Set::new(|k: u64| lo <= k < hi && m.contains_key(k));
    if hi <= lo {
        assert(s =~= Set::<u64>::empty());
    } else {
        lemma_interval_set_finite(m, lo, hi - 1);
        let s1 = Set::new(|k: u64| lo <= k < hi - 1 && m.contains_key(k));
        let x = (hi - 1) as u64;
        assert(s =~= s1.insert(x) || s =~= s1) by {
            if m.contains_key(x) {
                assert(s =~= s1.insert(x));
            } else {
                assert(s =~= s1);
            }
        }
    }
}

} // verus!
