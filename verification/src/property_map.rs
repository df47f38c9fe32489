//! Byte-keyed property maps: the user-collected and readable properties of an
//! SST file, and what a collector hands back from `finish`.
use vstd::prelude::*;

verus! {

/// The byte contents of a list of owned key/value pairs.
pub open spec fn pairs_view(v: Seq<(Vec<u8>, Vec<u8>)>) -> Seq<(Seq<u8>, Seq<u8>)> {
    v.map_values(|p: (Vec<u8>, Vec<u8>)| (p.0@, p.1@))
}

/// The byte contents of a list of pairs keep its length and, at each
/// position, the bytes of that pair's key and value.
pub proof fn lemma_pairs_view_keeps_every_pair(v: Seq<(Vec<u8>, Vec<u8>)>)
    ensures
        pairs_view(v).len() == v.len(),
        forall|i: int| 0 <= i < v.len() ==> #[trigger] pairs_view(v)[i] == (v[i].0@, v[i].1@),
{
}

/// No key occurs twice in the list.
pub open spec fn keys_distinct(s: Seq<(Seq<u8>, Seq<u8>)>) -> bool {
    forall|i: int, j: int|
        #![trigger s[i], s[j]]
        0 <= i < s.len() && 0 <= j < s.len() && i != j ==> s[i].0 != s[j].0
}

/// The map obtained by inserting the pairs one after the other: a later pair
/// replaces an earlier one with the same key.
pub open spec fn map_of_pairs(s: Seq<(Seq<u8>, Seq<u8>)>) -> Map<Seq<u8>, Seq<u8>>
    decreases s.len(),
{
    if s.len() == 0 {
        Map::empty()
    } else {
        map_of_pairs(s.drop_last()).insert(s.last().0, s.last().1)
    }
}

/// A key is mapped exactly when some pair carries it, and the map is finite.
pub proof fn lemma_map_of_pairs_dom(s: Seq<(Seq<u8>, Seq<u8>)>, k: Seq<u8>)
    ensures
        map_of_pairs(s).dom().finite(),
        map_of_pairs(s).dom().contains(k) <==> exists|i: int| 0 <= i < s.len() && s[i].0 == k,
    decreases s.len(),
{
    if s.len() > 0 {
        let p = s.drop_last();
        lemma_map_of_pairs_dom(p, k);
        if map_of_pairs(s).dom().contains(k) {
            if k == s.last().0 {
                assert(s[s.len() - 1].0 == k);
            } else {
                let i = choose|i: int| 0 <= i < p.len() && p[i].0 == k;
                assert(s[i].0 == k);
            }
        }
        if exists|i: int| 0 <= i < s.len() && s[i].0 == k {
            let i = choose|i: int| 0 <= i < s.len() && s[i].0 == k;
            if i < s.len() - 1 {
                assert(p[i].0 == k);
            }
        }
    }
}

/// The value of a key is that of the last pair that carries it.
pub proof fn lemma_map_of_pairs_value(s: Seq<(Seq<u8>, Seq<u8>)>, i: int)
    requires
        0 <= i < s.len(),
        forall|j: int| i < j < s.len() ==> #[trigger] s[j].0 != s[i].0,
    ensures
        map_of_pairs(s).dom().contains(s[i].0),
        map_of_pairs(s)[s[i].0] == s[i].1,
    decreases s.len(),
{
    if i < s.len() - 1 {
        let p = s.drop_last();
        assert forall|j: int| i < j < p.len() implies #[trigger] p[j].0 != p[i].0 by {
            assert(s[j].0 != s[i].0);
        }
        lemma_map_of_pairs_value(p, i);
    }
}

/// With distinct keys the map has one entry per pair.
pub proof fn lemma_map_of_pairs_len(s: Seq<(Seq<u8>, Seq<u8>)>)
    requires
        keys_distinct(s),
    ensures
        map_of_pairs(s).dom().finite(),
        map_of_pairs(s).len() == s.len(),
    decreases s.len(),
{
    lemma_map_of_pairs_dom(s, Seq::empty());
    if s.len() > 0 {
        let p = s.drop_last();
        assert(keys_distinct(p)) by {
            assert forall|i: int, j: int|
                0 <= i < p.len() && 0 <= j < p.len() && i != j implies p[i].0 != p[j].0 by {
                assert(s[i] == p[i] && s[j] == p[j]);
            }
        }
        lemma_map_of_pairs_len(p);
        lemma_map_of_pairs_dom(p, s.last().0);
        if map_of_pairs(p).dom().contains(s.last().0) {
            let i = choose|i: int| 0 <= i < p.len() && p[i].0 == s.last().0;
            assert(s[i].0 == s[s.len() - 1].0);
        }
    }
}

/// For distinct keys, the map agrees with the pair at `i`.
pub proof fn lemma_map_of_distinct_pair(s: Seq<(Seq<u8>, Seq<u8>)>, i: int)
    requires
        keys_distinct(s),
        0 <= i < s.len(),
    ensures
        map_of_pairs(s).dom().contains(s[i].0),
        map_of_pairs(s)[s[i].0] == s[i].1,
{
    assert forall|j: int| i < j < s.len() implies #[trigger] s[j].0 != s[i].0 by {
        assert(s[i].0 != s[j].0);
    }
    lemma_map_of_pairs_value(s, i);
}

/// For distinct keys, the map agrees with every pair.
pub proof fn lemma_map_of_distinct_pairs(s: Seq<(Seq<u8>, Seq<u8>)>)
    requires
        keys_distinct(s),
    ensures
        forall|i: int|
            0 <= i < s.len() ==> #[trigger] map_of_pairs(s).dom().contains(s[i].0)
                && map_of_pairs(s)[s[i].0] == s[i].1,
        forall|k: Seq<u8>|
            #[trigger] map_of_pairs(s).dom().contains(k) ==> exists|i: int|
                0 <= i < s.len() && s[i].0 == k,
{
    assert forall|i: int| 0 <= i < s.len() implies #[trigger] map_of_pairs(s).dom().contains(
        s[i].0,
    ) && map_of_pairs(s)[s[i].0] == s[i].1 by {
        lemma_map_of_distinct_pair(s, i);
    }
    assert forall|k: Seq<u8>| #[trigger] map_of_pairs(s).dom().contains(k) implies exists|i: int|
        0 <= i < s.len() && s[i].0 == k by {
        lemma_map_of_pairs_dom(s, k);
    }
}

/// Whether two byte strings are equal.
pub fn bytes_equal(a: &[u8], b: &[u8]) -> (eq: bool)
    ensures
        eq == (a@ == b@),
{
    if a.len() != b.len() {
        return false;
    }
    let mut i: usize = 0;
    while i < a.len()
        invariant
            a@.len() == b@.len(),
            i <= a@.len(),
            forall|j: int| 0 <= j < i ==> a@[j] == b@[j],
        decreases a@.len() - i,
    {
        if a[i] != b[i] {
            return false;
        }
        i = i + 1;
    }
    assert(a@ =~= b@);
    true
}

/// An owned copy of a byte string.
pub fn copy_of_bytes(a: &[u8]) -> (v: Vec<u8>)
    ensures
        v@ == a@,
{
    let mut v: Vec<u8> = Vec::new();
    let mut i: usize = 0;
    while i < a.len()
        invariant
            i <= a@.len(),
            v@ == a@.take(i as int),
        decreases a@.len() - i,
    {
        v.push(a[i]);
        i = i + 1;
        assert(v@ =~= a@.take(i as int));
    }
    assert(a@.take(a@.len() as int) =~= a@);
    v
}

/// A map from byte keys to byte values, each key present at most once.
pub struct PropertyMap {
    entries: Vec<(Vec<u8>, Vec<u8>)>,
}

impl View for PropertyMap {
    type V = Map<Seq<u8>, Seq<u8>>;

    closed spec fn view(&self) -> Map<Seq<u8>, Seq<u8>> {
        map_of_pairs(pairs_view(self.entries@))
    }
}

impl PropertyMap {
    #[verifier::type_invariant]
    spec fn keys_are_distinct(self) -> bool {
        keys_distinct(pairs_view(self.entries@))
    }

    /// An empty map.
    pub fn new() -> (m: PropertyMap)
        ensures
            m@ == Map::<Seq<u8>, Seq<u8>>::empty(),
    {
        let m = PropertyMap { entries: Vec::new() };
        assert(pairs_view(m.entries@) =~= Seq::empty());
        m
    }

    /// Relates a position among the pairs to the map's view.
    proof fn lemma_position(&self, i: int)
        requires
            self.keys_are_distinct(),
            0 <= i < self.entries@.len(),
        ensures
            self@.dom().contains(self.entries@[i].0@),
            self@[self.entries@[i].0@] == self.entries@[i].1@,
    {
        let s = pairs_view(self.entries@);
        lemma_map_of_distinct_pairs(s);
        assert(s[i] == (self.entries@[i].0@, self.entries@[i].1@));
        assert(map_of_pairs(s).dom().contains(s[i].0));
    }

    /// A key absent from every pair is absent from the map.
    proof fn lemma_absent(&self, key: Seq<u8>)
        requires
            forall|i: int| 0 <= i < self.entries@.len() ==> self.entries@[i].0@ != key,
        ensures
            !self@.dom().contains(key),
    {
        let s = pairs_view(self.entries@);
        lemma_map_of_pairs_dom(s, key);
        if self@.dom().contains(key) {
            let i = choose|i: int| 0 <= i < s.len() && s[i].0 == key;
            assert(self.entries@[i].0@ == key);
        }
    }

    /// The number of keys.
    pub fn len(&self) -> (n: usize)
        ensures
            self@.dom().finite(),
            n == self@.len(),
    {
        proof {
            use_type_invariant(self);
            lemma_map_of_pairs_len(pairs_view(self.entries@));
        }
        self.entries.len()
    }

    /// Whether the map has no key.
    pub fn is_empty(&self) -> (b: bool)
        ensures
            b <==> self@ == Map::<Seq<u8>, Seq<u8>>::empty(),
    {
        proof {
            use_type_invariant(self);
            lemma_map_of_pairs_len(pairs_view(self.entries@));
        }
        if self.entries.len() == 0 {
            assert(pairs_view(self.entries@) =~= Seq::empty());
            true
        } else {
            proof {
                self.lemma_position(0);
            }
            false
        }
    }

    /// The value stored under `key`.
    pub fn get(&self, key: &[u8]) -> (r: Option<&Vec<u8>>)
        ensures
            match r {
                Some(v) => self@.dom().contains(key@) && v@ == self@[key@],
                None => !self@.dom().contains(key@),
            },
    {
        proof {
            use_type_invariant(self);
        }
        match self_position(&self.entries, key) {
            Some(i) => {
                proof {
                    self.lemma_position(i as int);
                }
                Some(&self.entries[i].1)
            },
            None => {
                proof {
                    self.lemma_absent(key@);
                }
                None
            },
        }
    }

    /// Whether `key` is present.
    pub fn contains_key(&self, key: &[u8]) -> (b: bool)
        ensures
            b == self@.dom().contains(key@),
    {
        self.get(key).is_some()
    }

    /// Stores `value` under `key` and returns the value it replaces.
    pub fn insert(&mut self, key: Vec<u8>, value: Vec<u8>) -> (previous: Option<Vec<u8>>)
        ensures
            final(self)@ == old(self)@.insert(key@, value@),
            match previous {
                Some(v) => old(self)@.dom().contains(key@) && v@ == old(self)@[key@],
                None => !old(self)@.dom().contains(key@),
            },
    {
        proof {
            use_type_invariant(&*self);
        }
        let ghost old_map = self@;
        let ghost old_s = pairs_view(self.entries@);
        let mut entries: Vec<(Vec<u8>, Vec<u8>)> = Vec::new();
        std::mem::swap(&mut entries, &mut self.entries);
        let ghost k = key@;
        let ghost v = value@;
        match self_position(&entries, key.as_slice()) {
            Some(i) => {
                proof {
                    lemma_map_of_distinct_pairs(old_s);
                    assert(old_s[i as int].0 == k);
                    assert(map_of_pairs(old_s).dom().contains(old_s[i as int].0));
                }
                let (_, old_value) = entries.remove(i);
                entries.insert(i, (key, value));
                let ghost new_s = pairs_view(entries@);
                proof {
                    assert(new_s =~= old_s.update(i as int, (k, v)));
                    assert(keys_distinct(new_s)) by {
                        assert forall|a: int, b: int|
                            0 <= a < new_s.len() && 0 <= b < new_s.len() && a != b implies new_s[a].0
                            != new_s[b].0 by {
                            assert(old_s[a].0 != old_s[b].0);
                        }
                    }
                    lemma_map_of_distinct_pairs(new_s);
                    assert forall|kk: Seq<u8>|
                        #[trigger] map_of_pairs(new_s).dom().contains(kk) <==> old_map.insert(
                            k,
                            v,
                        ).dom().contains(kk) by {
                        lemma_map_of_pairs_dom(new_s, kk);
                        lemma_map_of_pairs_dom(old_s, kk);
                        if old_map.dom().contains(kk) {
                            let j = choose|j: int| 0 <= j < old_s.len() && old_s[j].0 == kk;
                            assert(new_s[j].0 == kk);
                        }
                        if map_of_pairs(new_s).dom().contains(kk) {
                            let j = choose|j: int| 0 <= j < new_s.len() && new_s[j].0 == kk;
                            if j != i {
                                assert(old_s[j].0 == kk);
                            }
                        }
                    }
                    assert forall|kk: Seq<u8>| #[trigger]
                        map_of_pairs(new_s).dom().contains(kk) implies map_of_pairs(new_s)[kk]
                        == old_map.insert(k, v)[kk] by {
                        let j = choose|j: int| 0 <= j < new_s.len() && new_s[j].0 == kk;
                        if j != i {
                            assert(old_s[j].0 == kk);
                            assert(kk != k);
                        }
                    }
                    assert(map_of_pairs(new_s) =~= old_map.insert(k, v));
                }
                self.entries = entries;
                Some(old_value)
            },
            None => {
                proof {
                    lemma_map_of_pairs_dom(old_s, k);
                    if old_map.dom().contains(k) {
                        let j = choose|j: int| 0 <= j < old_s.len() && old_s[j].0 == k;
                        assert(entries@[j].0@ == k);
                    }
                }
                entries.push((key, value));
                let ghost new_s = pairs_view(entries@);
                proof {
                    assert(new_s =~= old_s.push((k, v)));
                    assert(new_s.drop_last() =~= old_s);
                    assert(keys_distinct(new_s)) by {
                        assert forall|a: int, b: int|
                            0 <= a < new_s.len() && 0 <= b < new_s.len() && a != b implies new_s[a].0
                            != new_s[b].0 by {
                            if a < old_s.len() && b < old_s.len() {
                                assert(old_s[a].0 != old_s[b].0);
                            } else if a < old_s.len() {
                                assert(entries@[a].0@ != k);
                            } else {
                                assert(entries@[b].0@ != k);
                            }
                        }
                    }
                }
                self.entries = entries;
                None
            },
        }
    }

    /// Removes `key` and returns its value.
    pub fn remove(&mut self, key: &[u8]) -> (removed: Option<Vec<u8>>)
        ensures
            final(self)@ == old(self)@.remove(key@),
            match removed {
                Some(v) => old(self)@.dom().contains(key@) && v@ == old(self)@[key@],
                None => !old(self)@.dom().contains(key@),
            },
    {
        proof {
            use_type_invariant(&*self);
        }
        let ghost old_map = self@;
        let ghost old_s = pairs_view(self.entries@);
        let ghost k = key@;
        let mut entries: Vec<(Vec<u8>, Vec<u8>)> = Vec::new();
        std::mem::swap(&mut entries, &mut self.entries);
        match self_position(&entries, key) {
            Some(i) => {
                proof {
                    lemma_map_of_distinct_pairs(old_s);
                    assert(old_s[i as int].0 == k);
                    assert(map_of_pairs(old_s).dom().contains(old_s[i as int].0));
                }
                let (_, old_value) = entries.remove(i);
                let ghost new_s = pairs_view(entries@);
                proof {
                    assert(new_s =~= old_s.remove(i as int));
                    assert(keys_distinct(new_s)) by {
                        assert forall|a: int, b: int|
                            0 <= a < new_s.len() && 0 <= b < new_s.len() && a != b implies new_s[a].0
                            != new_s[b].0 by {
                            let a2 = if a < i { a } else { a + 1 };
                            let b2 = if b < i { b } else { b + 1 };
                            assert(new_s[a] == old_s[a2] && new_s[b] == old_s[b2]);
                            assert(old_s[a2].0 != old_s[b2].0);
                        }
                    }
                    lemma_map_of_distinct_pairs(new_s);
                    assert forall|kk: Seq<u8>|
                        #[trigger] map_of_pairs(new_s).dom().contains(kk) <==> old_map.remove(
                            k,
                        ).dom().contains(kk) by {
                        lemma_map_of_pairs_dom(new_s, kk);
                        lemma_map_of_pairs_dom(old_s, kk);
                        if old_map.remove(k).dom().contains(kk) {
                            let j = choose|j: int| 0 <= j < old_s.len() && old_s[j].0 == kk;
                            assert(j != i);
                            let j2 = if j < i { j } else { j - 1 };
                            assert(new_s[j2].0 == kk);
                        }
                        if map_of_pairs(new_s).dom().contains(kk) {
                            let j = choose|j: int| 0 <= j < new_s.len() && new_s[j].0 == kk;
                            let j2 = if j < i { j } else { j + 1 };
                            assert(old_s[j2].0 == kk);
                            assert(old_s[j2].0 != old_s[i as int].0);
                        }
                    }
                    assert forall|kk: Seq<u8>| #[trigger]
                        map_of_pairs(new_s).dom().contains(kk) implies map_of_pairs(new_s)[kk]
                        == old_map.remove(k)[kk] by {
                        let j = choose|j: int| 0 <= j < new_s.len() && new_s[j].0 == kk;
                        let j2 = if j < i { j } else { j + 1 };
                        assert(old_s[j2] == new_s[j]);
                    }
                    assert(map_of_pairs(new_s) =~= old_map.remove(k));
                }
                self.entries = entries;
                Some(old_value)
            },
            None => {
                proof {
                    lemma_map_of_pairs_dom(old_s, k);
                    if old_map.dom().contains(k) {
                        let j = choose|j: int| 0 <= j < old_s.len() && old_s[j].0 == k;
                        assert(entries@[j].0@ == k);
                    }
                    assert(old_map.remove(k) =~= old_map);
                }
                self.entries = entries;
                None
            },
        }
    }

    /// The pairs of the map, one per key.
    pub fn as_pairs(&self) -> (pairs: &[(Vec<u8>, Vec<u8>)])
        ensures
            keys_distinct(pairs_view(pairs@)),
            map_of_pairs(pairs_view(pairs@)) == self@,
    {
        proof {
            use_type_invariant(self);
        }
        self.entries.as_slice()
    }

    /// The pairs of the map, one per key.
    pub fn into_pairs(self) -> (pairs: Vec<(Vec<u8>, Vec<u8>)>)
        ensures
            keys_distinct(pairs_view(pairs@)),
            map_of_pairs(pairs_view(pairs@)) == self@,
    {
        proof {
            use_type_invariant(&self);
        }
        self.entries
    }

    /// The map obtained by inserting the pairs in order, a later pair
    /// replacing an earlier one with the same key.
    pub fn from_pairs(pairs: Vec<(Vec<u8>, Vec<u8>)>) -> (m: PropertyMap)
        ensures
            m@ == map_of_pairs(pairs_view(pairs@)),
    {
        let ghost all = pairs_view(pairs@);
        let mut m = PropertyMap::new();
        let mut i: usize = 0;
        while i < pairs.len()
            invariant
                i <= pairs@.len(),
                all == pairs_view(pairs@),
                m@ == map_of_pairs(all.take(i as int)),
            decreases pairs@.len() - i,
        {
            let k = copy_of_bytes(pairs[i].0.as_slice());
            let v = copy_of_bytes(pairs[i].1.as_slice());
            proof {
                assert(all[i as int] == (k@, v@));
                assert(all.take(i + 1).drop_last() =~= all.take(i as int));
            }
            m.insert(k, v);
            i = i + 1;
        }
        assert(all.take(i as int) =~= all);
        m
    }

    /// An independent copy of the map.
    pub fn copy(&self) -> (m: PropertyMap)
        ensures
            m@ == self@,
    {
        proof {
            use_type_invariant(self);
        }
        let mut entries: Vec<(Vec<u8>, Vec<u8>)> = Vec::new();
        let mut i: usize = 0;
        while i < self.entries.len()
            invariant
                i <= self.entries@.len(),
                entries@.len() == i,
                forall|j: int|
                    0 <= j < i ==> #[trigger] entries@[j].0@ == self.entries@[j].0@
                        && entries@[j].1@ == self.entries@[j].1@,
            decreases self.entries@.len() - i,
        {
            let k = copy_of_bytes(self.entries[i].0.as_slice());
            let v = copy_of_bytes(self.entries[i].1.as_slice());
            entries.push((k, v));
            i = i + 1;
        }
        assert(pairs_view(entries@) =~= pairs_view(self.entries@));
        PropertyMap { entries }
    }
}

/// The position of `key` among `entries`, if some pair carries it.
fn self_position(entries: &Vec<(Vec<u8>, Vec<u8>)>, key: &[u8]) -> (r: Option<usize>)
    ensures
        match r {
            Some(i) => i < entries@.len() && entries@[i as int].0@ == key@,
            None => forall|i: int| 0 <= i < entries@.len() ==> entries@[i].0@ != key@,
        },
{
    let mut i: usize = 0;
    while i < entries.len()
        invariant
            i <= entries@.len(),
            forall|j: int| 0 <= j < i ==> entries@[j].0@ != key@,
        decreases entries@.len() - i,
    {
        if bytes_equal(entries[i].0.as_slice(), key) {
            return Some(i);
        }
        i = i + 1;
    }
    None
}

} // verus!
