//! A string-keyed map kept sorted by the byte order of its keys.
//!
//! Tensor and metadata tables are keyed by names. Keeping the entries sorted
//! by the UTF-8 bytes of their names (the order `str` itself uses) gives every
//! table a single canonical listing, so the on-disk layout of a checkpoint
//! does not depend on the order in which tensors were added.
use vstd::prelude::*;
use vstd::utf8::*;

verus! {

broadcast use vstd::utf8::encode_utf8_decode_utf8;

/// The bytes of a name as stored on disk (its UTF-8 encoding).
pub open spec fn name_bytes(name: Seq<char>) -> Seq<u8> {
    encode_utf8(name)
}

/// Lexicographic order on byte strings: `a` sorts strictly before `b`.
pub open spec fn bytes_lt(a: Seq<u8>, b: Seq<u8>) -> bool
    decreases a.len(),
{
    if a.len() == 0 {
        b.len() > 0
    } else if b.len() == 0 {
        false
    } else if a[0] < b[0] {
        true
    } else if a[0] > b[0] {
        false
    } else {
        bytes_lt(a.drop_first(), b.drop_first())
    }
}

/// Names ordered by their bytes.
pub open spec fn name_lt(a: Seq<char>, b: Seq<char>) -> bool {
    bytes_lt(name_bytes(a), name_bytes(b))
}

/// No byte string sorts before itself.
pub proof fn lemma_bytes_lt_irreflexive(a: Seq<u8>)
    ensures
        !bytes_lt(a, a),
    decreases a.len(),
{
    if a.len() > 0 {
        lemma_bytes_lt_irreflexive(a.drop_first());
    }
}

/// The byte order is transitive.
pub proof fn lemma_bytes_lt_transitive(a: Seq<u8>, b: Seq<u8>, c: Seq<u8>)
    requires
        bytes_lt(a, b),
        bytes_lt(b, c),
    ensures
        bytes_lt(a, c),
    decreases a.len(),
{
    if a.len() > 0 && b.len() > 0 && c.len() > 0 && a[0] == b[0] && b[0] == c[0] {
        lemma_bytes_lt_transitive(a.drop_first(), b.drop_first(), c.drop_first());
    }
}

/// Any two distinct byte strings are ordered one way or the other.
pub proof fn lemma_bytes_lt_total(a: Seq<u8>, b: Seq<u8>)
    requires
        a != b,
    ensures
        bytes_lt(a, b) || bytes_lt(b, a),
    decreases a.len(),
{
    if a.len() > 0 && b.len() > 0 && a[0] == b[0] {
        if a.drop_first() == b.drop_first() {
            assert(a =~= seq![a[0]] + a.drop_first());
            assert(b =~= seq![b[0]] + b.drop_first());
        }
        lemma_bytes_lt_total(a.drop_first(), b.drop_first());
    } else if a.len() == 0 && b.len() == 0 {
        assert(a =~= b);
    }
}

/// The byte order is asymmetric.
pub proof fn lemma_bytes_lt_asymmetric(a: Seq<u8>, b: Seq<u8>)
    requires
        bytes_lt(a, b),
    ensures
        !bytes_lt(b, a),
{
    if bytes_lt(b, a) {
        lemma_bytes_lt_transitive(a, b, a);
        lemma_bytes_lt_irreflexive(a);
    }
}

/// Distinct names have distinct bytes, so the name order is total as well.
pub proof fn lemma_name_lt_total(a: Seq<char>, b: Seq<char>)
    requires
        a != b,
    ensures
        name_lt(a, b) || name_lt(b, a),
{
    if name_bytes(a) == name_bytes(b) {
        assert(decode_utf8(encode_utf8(a)) == a);
        assert(decode_utf8(encode_utf8(b)) == b);
    }
    lemma_bytes_lt_total(name_bytes(a), name_bytes(b));
}

/// The outcome of comparing two byte strings.
#[derive(Debug, Clone, Copy, PartialEq, Eq, Structural)]
pub enum KeyOrder {
    /// The first sorts before the second.
    Less,
    /// The two are equal.
    Equal,
    /// The first sorts after the second.
    Greater,
}

/// Compares two byte strings in lexicographic order.
pub fn compare_bytes(a: &[u8], b: &[u8]) -> (r: KeyOrder)
    ensures
        r == KeyOrder::Less <==> bytes_lt(a@, b@),
        r == KeyOrder::Equal <==> a@ == b@,
        r == KeyOrder::Greater <==> bytes_lt(b@, a@),
{
    let mut i: usize = 0;
    assert(a@.skip(0) =~= a@);
    assert(b@.skip(0) =~= b@);
    while i < a.len() && i < b.len()
        invariant
            i <= a@.len(),
            i <= b@.len(),
            a@.subrange(0, i as int) == b@.subrange(0, i as int),
            bytes_lt(a@, b@) == bytes_lt(a@.skip(i as int), b@.skip(i as int)),
            bytes_lt(b@, a@) == bytes_lt(b@.skip(i as int), a@.skip(i as int)),
        decreases a.len() - i,
    {
        assert(a@.skip(i as int).drop_first() =~= a@.skip(i + 1));
        assert(b@.skip(i as int).drop_first() =~= b@.skip(i + 1));
        if a[i] < b[i] {
            proof {
                if a@ == b@ {
                }
            }
            return KeyOrder::Less;
        } else if a[i] > b[i] {
            return KeyOrder::Greater;
        }
        assert(a@.subrange(0, i + 1) =~= a@.subrange(0, i as int).push(a@[i as int]));
        assert(b@.subrange(0, i + 1) =~= b@.subrange(0, i as int).push(b@[i as int]));
        i += 1;
    }
    proof {
        lemma_bytes_lt_irreflexive(a@);
    }
    if a.len() == b.len() {
        assert(a@ =~= a@.subrange(0, i as int));
        assert(b@ =~= b@.subrange(0, i as int));
        KeyOrder::Equal
    } else if i == a.len() {
        proof {
            assert(a@ =~= a@.subrange(0, i as int));
            if a@ == b@ {
                assert(a@.len() == b@.len());
            }
        }
        KeyOrder::Less
    } else {
        proof {
            assert(b@ =~= b@.subrange(0, i as int));
            if a@ == b@ {
                assert(a@.len() == b@.len());
            }
        }
        KeyOrder::Greater
    }
}


/// Every name in `s` sorts strictly before every later name, so names are
/// distinct and listed in byte order.
pub open spec fn sorted_by_name<V>(s: Seq<(Seq<char>, V)>) -> bool {
    forall|i: int, j: int| 0 <= i < j < s.len() ==> name_lt(#[trigger] s[i].0, #[trigger] s[j].0)
}

/// Whether some entry of the listing carries the name `k`.
pub open spec fn listing_has<V>(s: Seq<(Seq<char>, V)>, k: Seq<char>) -> bool {
    exists|i: int| 0 <= i < s.len() && s[i].0 == k
}

/// An index of the listing whose entry carries the name `k` (when there is one).
pub open spec fn listing_index<V>(s: Seq<(Seq<char>, V)>, k: Seq<char>) -> int {
    choose|i: int| 0 <= i < s.len() && s[i].0 == k
}

/// The map that a listing of `(name, value)` entries describes.
pub open spec fn listing_to_map<V>(s: Seq<(Seq<char>, V)>) -> Map<Seq<char>, V> {
    Map::new(|k: Seq<char>| listing_has(s, k), |k: Seq<char>| s[listing_index(s, k)].1)
}

/// In a sorted listing, the entry at index `i` is what the map holds for its name.
pub proof fn lemma_listing_entry<V>(s: Seq<(Seq<char>, V)>, i: int)
    requires
        sorted_by_name(s),
        0 <= i < s.len(),
    ensures
        listing_to_map(s).contains_key(s[i].0),
        listing_to_map(s)[s[i].0] == s[i].1,
{
    let k = s[i].0;
    assert(0 <= i < s.len() && s[i].0 == k);
    assert(listing_has(s, k));
    assert(listing_to_map(s).contains_key(k));
    let j = listing_index(s, k);
    if j != i {
        lemma_listing_unique(s, i, j);
    }
    assert(listing_to_map(s)[k] == s[j].1);
}

/// In a sorted listing, at most one entry carries a given name.
pub proof fn lemma_listing_unique<V>(s: Seq<(Seq<char>, V)>, i: int, j: int)
    requires
        sorted_by_name(s),
        0 <= i < s.len(),
        0 <= j < s.len(),
        s[i].0 == s[j].0,
    ensures
        i == j,
{
    if i < j {
        assert(name_lt(s[i].0, s[j].0));
        lemma_bytes_lt_irreflexive(name_bytes(s[i].0));
    } else if j < i {
        assert(name_lt(s[j].0, s[i].0));
        lemma_bytes_lt_irreflexive(name_bytes(s[i].0));
    }
}

/// A map from names to values, listed in the byte order of the names.
#[derive(Debug)]
pub struct NameMap<V> {
    entries: Vec<(String, V)>,
}

impl<V> View for NameMap<V> {
    type V = Map<Seq<char>, V>;

    open spec fn view(&self) -> Map<Seq<char>, V> {
        listing_to_map(self.entries())
    }
}

impl<V> NameMap<V> {
    /// The entries, in the order in which they are stored and iterated.
    pub closed spec fn entries(self) -> Seq<(Seq<char>, V)> {
        self.entries@.map_values(|e: (String, V)| (e.0@, e.1))
    }

    /// The names, in iteration order.
    pub open spec fn names(self) -> Seq<Seq<char>> {
        self.entries().map_values(|e: (Seq<char>, V)| e.0)
    }

    /// The map is well formed: its entries are sorted strictly by name.
    pub open spec fn wf(self) -> bool {
        sorted_by_name(self.entries())
    }

    /// Every map is well formed: the entries are only ever changed by
    /// [`NameMap::insert`], which keeps them sorted.
    #[verifier::type_invariant]
    pub open spec fn sorted(self) -> bool {
        self.wf()
    }

    /// Creates an empty map.
    pub fn new() -> (r: Self)
        ensures
            r.wf(),
            r.entries() == Seq::<(Seq<char>, V)>::empty(),
            r@ == Map::<Seq<char>, V>::empty(),
    {
        let r = NameMap { entries: Vec::new() };
        assert(r.entries() =~= Seq::<(Seq<char>, V)>::empty());
        assert(r@ =~= Map::<Seq<char>, V>::empty());
        r
    }

    /// The number of entries.
    pub fn len(&self) -> (n: usize)
        ensures
            n == self.entries().len(),
    {
        self.entries.len()
    }

    /// Whether the map has no entries.
    pub fn is_empty(&self) -> (b: bool)
        ensures
            b <==> self.entries().len() == 0,
    {
        self.entries.len() == 0
    }

    /// The entry at position `i` of the listing.
    pub fn entry(&self, i: usize) -> (r: (&String, &V))
        requires
            i < self.entries().len(),
        ensures
            r.0@ == self.entries()[i as int].0,
            *r.1 == self.entries()[i as int].1,
    {
        let e = &self.entries[i];
        (&e.0, &e.1)
    }

    /// Binary search for `name`: the number of entries whose names sort
    /// before it, and whether the next entry carries it.
    fn locate(&self, name: &str) -> (r: (usize, bool))
        ensures
            r.0 <= self.entries().len(),
            forall|j: int| 0 <= j < r.0 ==> name_lt(#[trigger] self.entries()[j].0, name@),
            r.1 ==> r.0 < self.entries().len() && self.entries()[r.0 as int].0 == name@,
            !r.1 ==> forall|j: int| r.0 <= j < self.entries().len() ==> name_lt(name@, #[trigger] self.entries()[j].0),
    {
        proof {
            use_type_invariant(self);
        }
        let ghost es = self.entries();
        let key = name.as_bytes();
        let mut lo: usize = 0;
        let mut hi: usize = self.entries.len();
        while lo < hi
            invariant
                es == self.entries(),
                sorted_by_name(es),
                key@ == name_bytes(name@),
                lo <= hi <= es.len(),
                self.entries@.len() == es.len(),
                forall|j: int| 0 <= j < lo ==> name_lt(#[trigger] es[j].0, name@),
                forall|j: int| hi <= j < es.len() ==> name_lt(name@, #[trigger] es[j].0),
            decreases hi - lo,
        {
            let mid = lo + (hi - lo) / 2;
            let here = self.entries[mid].0.as_str().as_bytes();
            match compare_bytes(here, key) {
                KeyOrder::Less => {
                    proof {
                        assert forall|j: int| 0 <= j < mid + 1 implies name_lt(#[trigger] es[j].0, name@) by {
                            if j < mid {
                                assert(name_lt(es[j].0, es[mid as int].0));
                                lemma_bytes_lt_transitive(name_bytes(es[j].0), name_bytes(es[mid as int].0), name_bytes(name@));
                            }
                        }
                    }
                    lo = mid + 1;
                },
                KeyOrder::Equal => {
                    assert(decode_utf8(encode_utf8(es[mid as int].0)) == es[mid as int].0);
                    assert(decode_utf8(encode_utf8(name@)) == name@);
                    return (mid, true);
                },
                KeyOrder::Greater => {
                    proof {
                        assert forall|j: int| mid <= j < es.len() implies name_lt(name@, #[trigger] es[j].0) by {
                            if j > mid {
                                assert(name_lt(es[mid as int].0, es[j].0));
                                lemma_bytes_lt_transitive(name_bytes(name@), name_bytes(es[mid as int].0), name_bytes(es[j].0));
                            }
                        }
                    }
                    hi = mid;
                },
            }
        }
        (lo, false)
    }

    /// The position of `name` in the listing, if it is present.
    pub fn find(&self, name: &str) -> (r: Option<usize>)
        ensures
            r matches Some(i) ==> i < self.entries().len() && self.entries()[i as int].0 == name@,
            r is None <==> !self@.contains_key(name@),
    {
        proof {
            use_type_invariant(self);
        }
        let (i, found) = self.locate(name);
        if found {
            return Some(i);
        }
        proof {
            let es = self.entries();
            if listing_has(es, name@) {
                let j = choose|j: int| 0 <= j < es.len() && es[j].0 == name@;
                lemma_bytes_lt_irreflexive(name_bytes(name@));
                if j < i {
                    assert(name_lt(es[j].0, name@));
                } else {
                    assert(name_lt(name@, es[j].0));
                }
            }
        }
        None
    }

    /// The value stored under `name`, if any.
    pub fn get(&self, name: &str) -> (r: Option<&V>)
        ensures
            r matches Some(v) ==> self@.contains_key(name@) && *v == self@[name@],
            r is None <==> !self@.contains_key(name@),
    {
        proof {
            use_type_invariant(self);
        }
        match self.find(name) {
            Some(i) => {
                proof {
                    lemma_listing_entry(self.entries(), i as int);
                }
                Some(&self.entries[i].1)
            },
            None => None,
        }
    }

    /// The names, in iteration order.
    pub fn keys(&self) -> (r: Vec<String>)
        ensures
            r@.len() == self.entries().len(),
            forall|i: int| 0 <= i < r@.len() ==> #[trigger] r@[i]@ == self.entries()[i].0,
    {
        let mut r: Vec<String> = Vec::new();
        let mut i: usize = 0;
        while i < self.entries.len()
            invariant
                i <= self.entries().len(),
                r@.len() == i,
                forall|j: int| 0 <= j < i ==> #[trigger] r@[j]@ == self.entries()[j].0,
            decreases self.entries.len() - i,
        {
            r.push(self.entries[i].0.clone());
            i += 1;
        }
        r
    }

    /// Inserts `value` under `key`, replacing any value already stored there.
    pub fn insert(&mut self, key: String, value: V)
        ensures
            final(self).wf(),
            final(self)@ == old(self)@.insert(key@, value),
            (forall|i: int| 0 <= i < old(self).entries().len()
                ==> name_lt(#[trigger] old(self).entries()[i].0, key@))
                ==> final(self).entries() == old(self).entries().push((key@, value)),
    {
        proof {
            use_type_invariant(&*self);
        }
        let ghost old_entries = self.entries();
        let (i, found) = self.locate(key.as_str());
        let ghost k = key@;
        let mut entries: Vec<(String, V)> = Vec::new();
        std::mem::swap(&mut entries, &mut self.entries);
        assert(entries@.map_values(|e: (String, V)| (e.0@, e.1)) == old_entries);
        if found {
            entries.set(i, (key, value));
            proof {
                let s = entries@.map_values(|e: (String, V)| (e.0@, e.1));
                assert(s =~= old_entries.update(i as int, (k, value)));
                Self::lemma_after_update(s, old_entries, i as int, k, value);
                if forall|j: int| 0 <= j < old_entries.len() ==> name_lt(#[trigger] old_entries[j].0, k) {
                    assert(name_lt(old_entries[i as int].0, k));
                    lemma_bytes_lt_irreflexive(name_bytes(k));
                }
            }
        } else {
            entries.insert(i, (key, value));
            proof {
                let s = entries@.map_values(|e: (String, V)| (e.0@, e.1));
                assert(s =~= old_entries.insert(i as int, (k, value)));
                Self::lemma_after_insert(s, old_entries, i as int, k, value);
            }
        }
        self.entries = entries;
    }

    proof fn lemma_after_update(s: Seq<(Seq<char>, V)>, old_entries: Seq<(Seq<char>, V)>, i: int, k: Seq<char>, v: V)
        requires
            sorted_by_name(old_entries),
            0 <= i < old_entries.len(),
            old_entries[i].0 == k,
            s == old_entries.update(i, (k, v)),
        ensures
            sorted_by_name(s),
            listing_to_map(s) == listing_to_map(old_entries).insert(k, v),
    {
        assert(s =~= old_entries.update(i, (k, v)));
        assert(sorted_by_name(s)) by {
            assert forall|a: int, b: int| 0 <= a < b < s.len() implies name_lt(#[trigger] s[a].0, #[trigger] s[b].0) by {
                assert(name_lt(old_entries[a].0, old_entries[b].0));
            }
        }
        let m = listing_to_map(old_entries).insert(k, v);
        assert forall|key: Seq<char>| #[trigger] listing_to_map(s).contains_key(key) <==> m.contains_key(key) by {
            if m.contains_key(key) {
                if key == k {
                    assert(s[i].0 == key);
                } else {
                    let j = listing_index(old_entries, key);
                    assert(s[j].0 == key);
                }
            }
            if listing_to_map(s).contains_key(key) {
                let j = listing_index(s, key);
                if j != i {
                    assert(old_entries[j].0 == key);
                }
            }
        }
        assert forall|key: Seq<char>| #[trigger] listing_to_map(s).contains_key(key) implies listing_to_map(s)[key] == m[key] by {
            let j = listing_index(s, key);
            lemma_listing_entry(s, j);
            if j != i {
                if key == k {
                    lemma_listing_unique(s, i, j);
                }
                lemma_listing_entry(old_entries, j);
            }
        }
        assert(listing_to_map(s) =~= m);
    }

    proof fn lemma_after_insert(s: Seq<(Seq<char>, V)>, old_entries: Seq<(Seq<char>, V)>, i: int, k: Seq<char>, v: V)
        requires
            sorted_by_name(old_entries),
            0 <= i <= old_entries.len(),
            forall|j: int| 0 <= j < i ==> name_lt(#[trigger] old_entries[j].0, k),
            i < old_entries.len() ==> name_lt(k, old_entries[i].0),
            s == old_entries.insert(i, (k, v)),
        ensures
            sorted_by_name(s),
            listing_to_map(s) == listing_to_map(old_entries).insert(k, v),
            (forall|j: int| 0 <= j < old_entries.len() ==> name_lt(#[trigger] old_entries[j].0, k))
                ==> s == old_entries.push((k, v)),
    {
        assert(sorted_by_name(s)) by {
            assert forall|a: int, b: int| 0 <= a < b < s.len() implies name_lt(#[trigger] s[a].0, #[trigger] s[b].0) by {
                if b < i {
                    assert(name_lt(old_entries[a].0, old_entries[b].0));
                } else if b == i {
                    assert(name_lt(old_entries[a].0, k));
                } else if a == i {
                    if b - 1 > i {
                        assert(name_lt(old_entries[i].0, old_entries[b - 1].0));
                        lemma_bytes_lt_transitive(name_bytes(k), name_bytes(old_entries[i].0), name_bytes(old_entries[b - 1].0));
                    }
                } else if a < i {
                    assert(name_lt(old_entries[a].0, old_entries[b - 1].0));
                } else {
                    assert(name_lt(old_entries[a - 1].0, old_entries[b - 1].0));
                }
            }
        }
        let m = listing_to_map(old_entries).insert(k, v);
        assert forall|key: Seq<char>| #[trigger] listing_to_map(s).contains_key(key) <==> m.contains_key(key) by {
            if m.contains_key(key) {
                if key == k {
                    assert(s[i].0 == key);
                } else {
                    let j = listing_index(old_entries, key);
                    if j < i {
                        assert(s[j].0 == key);
                    } else {
                        assert(s[j + 1].0 == key);
                    }
                }
            }
            if listing_to_map(s).contains_key(key) {
                let j = listing_index(s, key);
                if j < i {
                    assert(old_entries[j].0 == key);
                } else if j > i {
                    assert(old_entries[j - 1].0 == key);
                }
            }
        }
        assert forall|key: Seq<char>| #[trigger] listing_to_map(s).contains_key(key) implies listing_to_map(s)[key] == m[key] by {
            let j = listing_index(s, key);
            lemma_listing_entry(s, j);
            if j != i {
                if key == k {
                    lemma_listing_unique(s, j, i);
                }
                if j < i {
                    lemma_listing_entry(old_entries, j);
                } else {
                    lemma_listing_entry(old_entries, j - 1);
                }
            }
        }
        assert(listing_to_map(s) =~= m);
        if forall|j: int| 0 <= j < old_entries.len() ==> name_lt(#[trigger] old_entries[j].0, k) {
            if i < old_entries.len() {
                assert(name_lt(old_entries[i].0, k));
                lemma_bytes_lt_asymmetric(name_bytes(old_entries[i].0), name_bytes(k));
            }
            assert(s =~= old_entries.push((k, v)));
        }
    }
}

impl Clone for NameMap<String> {
    fn clone(&self) -> (r: Self)
        ensures
            r.entries() == self.entries(),
    {
        let mut entries: Vec<(String, String)> = Vec::new();
        let mut i: usize = 0;
        while i < self.entries.len()
            invariant
                i <= self.entries@.len(),
                entries@.len() == i,
                forall|j: int| 0 <= j < i ==> #[trigger] entries@[j] == self.entries@[j],
            decreases self.entries.len() - i,
        {
            let e = &self.entries[i];
            entries.push((e.0.clone(), e.1.clone()));
            i += 1;
        }
        proof {
            use_type_invariant(self);
            assert(entries@.map_values(|e: (String, String)| (e.0@, e.1)) =~= self.entries());
        }
        let r = NameMap { entries };
        r
    }
}

impl Clone for NameMap<crate::tensor::TensorMetadata> {
    fn clone(&self) -> (r: Self)
        ensures
            r.entries().len() == self.entries().len(),
            forall|i: int| 0 <= i < r.entries().len() ==> #[trigger] r.entries()[i].0 == self.entries()[i].0
                && r.entries()[i].1.same_as(self.entries()[i].1),
    {
        let mut entries: Vec<(String, crate::tensor::TensorMetadata)> = Vec::new();
        let mut i: usize = 0;
        while i < self.entries.len()
            invariant
                i <= self.entries@.len(),
                entries@.len() == i,
                forall|j: int| 0 <= j < i ==> #[trigger] entries@[j].0 == self.entries@[j].0
                    && entries@[j].1.same_as(self.entries@[j].1),
            decreases self.entries.len() - i,
        {
            let e = &self.entries[i];
            entries.push((e.0.clone(), e.1.clone()));
            i += 1;
        }
        proof {
            use_type_invariant(self);
            let s = entries@.map_values(|e: (String, crate::tensor::TensorMetadata)| (e.0@, e.1));
            assert forall|a: int, b: int| 0 <= a < b < s.len() implies name_lt(#[trigger] s[a].0, #[trigger] s[b].0) by {
                assert(s[a].0 == self.entries()[a].0);
                assert(s[b].0 == self.entries()[b].0);
            }
        }
        let r = NameMap { entries };
        r
    }
}

} // verus!
