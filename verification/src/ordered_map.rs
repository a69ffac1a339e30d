//! A map and a set whose entries are kept in ascending order of their keys.

use vstd::prelude::*;

use crate::value::Value;

verus! {

/// How one key relates to another.
#[derive(Clone, Copy, Debug, PartialEq, Eq, Structural)]
pub enum KeyOrder {
    Before,
    Same,
    After,
}

/// A key with a strict total order on its views.
pub trait OrderedKey: Value {
    spec fn before(a: Self::V, b: Self::V) -> bool;

    proof fn before_irreflexive(a: Self::V)
        ensures
            !Self::before(a, a),
    ;

    proof fn before_transitive(a: Self::V, b: Self::V, c: Self::V)
        requires
            Self::before(a, b),
            Self::before(b, c),
        ensures
            Self::before(a, c),
    ;

    proof fn before_total(a: Self::V, b: Self::V)
        ensures
            a == b || Self::before(a, b) || Self::before(b, a),
    ;

    /// Tells where this key stands relative to the other one.
    fn compare(&self, other: &Self) -> (r: KeyOrder)
        ensures
            match r {
                KeyOrder::Before => Self::before(self@, other@),
                KeyOrder::Same => self@ == other@,
                KeyOrder::After => Self::before(other@, self@),
            },
    ;
}

/// The two sequences agree before `i`, where the first one ends or has the smaller number.
pub open spec fn lexicographic_at(a: Seq<int>, b: Seq<int>, i: int) -> bool {
    &&& 0 <= i <= a.len()
    &&& i < b.len()
    &&& forall|j: int| 0 <= j < i ==> a[j] == b[j]
    &&& i < a.len() ==> a[i] < b[i]
}

/// Lexicographic order: a proper prefix comes first, else the first difference decides.
pub open spec fn lexicographic(a: Seq<int>, b: Seq<int>) -> bool {
    exists|i: int| #[trigger] lexicographic_at(a, b, i)
}

pub proof fn lemma_lexicographic_irreflexive(a: Seq<int>)
    ensures
        !lexicographic(a, a),
{
}

pub proof fn lemma_lexicographic_transitive(a: Seq<int>, b: Seq<int>, c: Seq<int>)
    requires
        lexicographic(a, b),
        lexicographic(b, c),
    ensures
        lexicographic(a, c),
{
    let i = choose|i: int| #[trigger] lexicographic_at(a, b, i);
    let j = choose|j: int| #[trigger] lexicographic_at(b, c, j);
    assert(lexicographic_at(a, c, if i < j { i } else { j }));
}

pub proof fn lemma_lexicographic_total(a: Seq<int>, b: Seq<int>)
    ensures
        a == b || lexicographic(a, b) || lexicographic(b, a),
{
    lemma_lexicographic_total_from(a, b, 0);
}

proof fn lemma_lexicographic_total_from(a: Seq<int>, b: Seq<int>, i: int)
    requires
        0 <= i <= a.len(),
        i <= b.len(),
        forall|j: int| 0 <= j < i ==> a[j] == b[j],
    ensures
        a == b || lexicographic(a, b) || lexicographic(b, a),
    decreases a.len() - i,
{
    if i < a.len() && i < b.len() && a[i] == b[i] {
        lemma_lexicographic_total_from(a, b, i + 1);
    } else if i == a.len() && i == b.len() {
        assert(a =~= b);
    } else if i < b.len() && (i == a.len() || a[i] < b[i]) {
        assert(lexicographic_at(a, b, i));
    } else {
        assert(lexicographic_at(b, a, i));
    }
}

/// The list holds exactly the entries of the map, in ascending order of the keys.
pub open spec fn is_listing<K: OrderedKey, V>(list: Seq<(K::V, V)>, m: Map<K::V, V>) -> bool {
    &&& forall|i: int, j: int|
        0 <= i < j < list.len() ==> K::before(#[trigger] list[i].0, #[trigger] list[j].0)
    &&& forall|i: int| 0 <= i < list.len() ==> #[trigger] m.contains_pair(list[i].0, list[i].1)
    &&& forall|k: K::V| #[trigger]
        m.contains_key(k) ==> exists|i: int| 0 <= i < list.len() && #[trigger] list[i].0 == k
}

/// The entries of a finite map in ascending order of the keys.
pub open spec fn listing<K: OrderedKey, V>(m: Map<K::V, V>) -> Seq<(K::V, V)> {
    choose|list: Seq<(K::V, V)>| is_listing::<K, V>(list, m)
}

/// The map that a list of entries describes: of several entries with one key the last one counts.
pub open spec fn map_of<K, V>(list: Seq<(K, V)>) -> Map<K, V>
    decreases list.len(),
{
    if list.len() == 0 {
        Map::empty()
    } else {
        map_of(list.drop_last()).insert(list.last().0, list.last().1)
    }
}

/// A map has one listing only.
pub proof fn lemma_listing_unique<K: OrderedKey, V>(
    a: Seq<(K::V, V)>,
    b: Seq<(K::V, V)>,
    m: Map<K::V, V>,
)
    requires
        is_listing::<K, V>(a, m),
        is_listing::<K, V>(b, m),
    ensures
        a == b,
    decreases a.len(),
{
    if a.len() == 0 {
        if b.len() > 0 {
            assert(m.contains_pair(b[0].0, b[0].1));
            assert(m.contains_key(b[0].0));
        }
        assert(a =~= b);
    } else {
        let ka = a.last().0;
        assert(m.contains_pair(a[a.len() - 1].0, a[a.len() - 1].1));
        assert(m.contains_key(ka));
        let ib = choose|i: int| 0 <= i < b.len() && #[trigger] b[i].0 == ka;
        let kb = b.last().0;
        assert(m.contains_pair(b[b.len() - 1].0, b[b.len() - 1].1));
        assert(m.contains_key(kb));
        let ia = choose|i: int| 0 <= i < a.len() && #[trigger] a[i].0 == kb;
        if ka != kb {
            assert(K::before(b[ib].0, b[b.len() - 1].0));
            assert(K::before(a[ia].0, a[a.len() - 1].0));
            K::before_transitive(ka, kb, ka);
            K::before_irreflexive(ka);
        }
        let m1 = m.remove(ka);
        lemma_listing_drop_last::<K, V>(a, m);
        lemma_listing_drop_last::<K, V>(b, m);
        lemma_listing_unique::<K, V>(a.drop_last(), b.drop_last(), m1);
        assert(a =~= a.drop_last().push(a.last()));
        assert(b =~= b.drop_last().push(b.last()));
    }
}

proof fn lemma_listing_drop_last<K: OrderedKey, V>(a: Seq<(K::V, V)>, m: Map<K::V, V>)
    requires
        is_listing::<K, V>(a, m),
        a.len() > 0,
    ensures
        is_listing::<K, V>(a.drop_last(), m.remove(a.last().0)),
{
    let d = a.drop_last();
    let m1 = m.remove(a.last().0);
    assert forall|i: int| 0 <= i < d.len() implies #[trigger] m1.contains_pair(d[i].0, d[i].1) by {
        assert(m.contains_pair(a[i].0, a[i].1));
        assert(K::before(a[i].0, a[a.len() - 1].0));
        K::before_irreflexive(a[i].0);
    }
    assert forall|k: K::V| #[trigger] m1.contains_key(k) implies exists|i: int|
        0 <= i < d.len() && #[trigger] d[i].0 == k by {
        assert(m.contains_key(k));
        let i = choose|i: int| 0 <= i < a.len() && #[trigger] a[i].0 == k;
        assert(d[i].0 == k);
    }
}

/// A listing describes the map that it lists.
pub proof fn lemma_map_of_listing<K: OrderedKey, V>(list: Seq<(K::V, V)>, m: Map<K::V, V>)
    requires
        is_listing::<K, V>(list, m),
    ensures
        map_of(list) == m,
        m.dom().finite(),
        m.dom().len() == list.len(),
    decreases list.len(),
{
    if list.len() == 0 {
        assert(m =~= Map::<K::V, V>::empty());
        assert(m.dom() =~= Set::<K::V>::empty());
    } else {
        lemma_listing_drop_last::<K, V>(list, m);
        let k = list.last().0;
        lemma_map_of_listing::<K, V>(list.drop_last(), m.remove(k));
        assert(m.contains_pair(list[list.len() - 1].0, list[list.len() - 1].1));
        assert(m =~= m.remove(k).insert(k, list.last().1));
        assert(m.dom() =~= m.remove(k).dom().insert(k));
    }
}

/// Every finite map has a listing, and it describes the map.
pub proof fn lemma_listing<K: OrderedKey, V>(m: Map<K::V, V>)
    requires
        m.dom().finite(),
    ensures
        is_listing::<K, V>(listing::<K, V>(m), m),
        map_of(listing::<K, V>(m)) == m,
{
    lemma_listing_exists::<K, V>(m);
    lemma_map_of_listing::<K, V>(listing::<K, V>(m), m);
}

proof fn lemma_listing_exists<K: OrderedKey, V>(m: Map<K::V, V>)
    requires
        m.dom().finite(),
    ensures
        exists|list: Seq<(K::V, V)>| is_listing::<K, V>(list, m),
    decreases m.dom().len(),
{
    if m.dom().len() == 0 {
        assert(m.dom() =~= Set::<K::V>::empty());
        assert(is_listing::<K, V>(Seq::<(K::V, V)>::empty(), m));
    } else {
        let k = lemma_greatest_key::<K, V>(m);
        let m1 = m.remove(k);
        assert(m1.dom() =~= m.dom().remove(k));
        lemma_listing_exists::<K, V>(m1);
        let l1 = choose|list: Seq<(K::V, V)>| is_listing::<K, V>(list, m1);
        let l = l1.push((k, m[k]));
        assert forall|i: int, j: int| 0 <= i < j < l.len() implies K::before(
            #[trigger] l[i].0,
            #[trigger] l[j].0,
        ) by {
            assert(m1.contains_pair(l1[i].0, l1[i].1));
            if j < l1.len() {
                assert(K::before(l1[i].0, l1[j].0));
            } else {
                assert(m.contains_key(l1[i].0));
            }
        }
        assert forall|i: int| 0 <= i < l.len() implies #[trigger] m.contains_pair(
            l[i].0,
            l[i].1,
        ) by {
            if i < l1.len() {
                assert(m1.contains_pair(l1[i].0, l1[i].1));
            }
        }
        assert forall|x: K::V| #[trigger] m.contains_key(x) implies exists|i: int|
            0 <= i < l.len() && #[trigger] l[i].0 == x by {
            if x == k {
                assert(l[l1.len() as int].0 == x);
            } else {
                assert(m1.contains_key(x));
                let i = choose|i: int| 0 <= i < l1.len() && #[trigger] l1[i].0 == x;
                assert(l[i].0 == x);
            }
        }
        assert(is_listing::<K, V>(l, m));
    }
}

proof fn lemma_greatest_key<K: OrderedKey, V>(m: Map<K::V, V>) -> (k: K::V)
    requires
        m.dom().finite(),
        m.dom().len() > 0,
    ensures
        m.contains_key(k),
        forall|x: K::V| #[trigger] m.contains_key(x) ==> x == k || K::before(x, k),
    decreases m.dom().len(),
{
    let c = m.dom().choose();
    if m.dom().len() == 1 {
        assert(m.dom().remove(c).len() == 0);
        assert(m.dom().remove(c) =~= Set::<K::V>::empty());
        assert forall|x: K::V| #[trigger] m.contains_key(x) implies x == c by {
            if x != c {
                assert(m.dom().remove(c).contains(x));
            }
        }
        c
    } else {
        let m1 = m.remove(c);
        assert(m1.dom() =~= m.dom().remove(c));
        let k1 = lemma_greatest_key::<K, V>(m1);
        K::before_total(c, k1);
        let k = if K::before(k1, c) { c } else { k1 };
        assert forall|x: K::V| #[trigger] m.contains_key(x) implies x == k || K::before(
            x,
            k,
        ) by {
            if x != c {
                assert(m1.contains_key(x));
                if x != k1 && K::before(k1, c) {
                    K::before_transitive(x, k1, c);
                }
            }
        }
        k
    }
}

/// A list with strictly ascending keys is the listing of the map that it describes.
proof fn lemma_ascending_is_listing<K: OrderedKey, V>(list: Seq<(K::V, V)>)
    requires
        forall|i: int, j: int|
            0 <= i < j < list.len() ==> K::before(#[trigger] list[i].0, #[trigger] list[j].0),
    ensures
        is_listing::<K, V>(list, map_of(list)),
        listing::<K, V>(map_of(list)) == list,
    decreases list.len(),
{
    let m = map_of(list);
    if list.len() > 0 {
        let d = list.drop_last();
        lemma_ascending_is_listing::<K, V>(d);
        let m1 = map_of(d);
        assert forall|i: int| 0 <= i < list.len() implies #[trigger] m.contains_pair(
            list[i].0,
            list[i].1,
        ) by {
            if i < d.len() {
                assert(m1.contains_pair(d[i].0, d[i].1));
                assert(K::before(list[i].0, list[list.len() - 1].0));
                K::before_irreflexive(list[i].0);
            }
        }
        assert forall|k: K::V| #[trigger] m.contains_key(k) implies exists|i: int|
            0 <= i < list.len() && #[trigger] list[i].0 == k by {
            if m1.contains_key(k) {
                let i = choose|i: int| 0 <= i < d.len() && #[trigger] d[i].0 == k;
                assert(list[i].0 == k);
            } else {
                assert(list[list.len() - 1].0 == k);
            }
        }
    }
    assert(is_listing::<K, V>(list, m));
    lemma_listing_unique::<K, V>(listing::<K, V>(m), list, m);
}

/// A map from ordered keys to values. Its view is the mathematical map; its entries are kept in
/// ascending order of the keys.
pub struct OrderedMap<K: OrderedKey, V: Value> {
    entries: Vec<(K, V)>,
}

impl<K: OrderedKey, V: Value> View for OrderedMap<K, V> {
    type V = Map<K::V, V::V>;

    closed spec fn view(&self) -> Map<K::V, V::V> {
        map_of(self.list())
    }
}

impl<K: OrderedKey, V: Value> OrderedMap<K, V> {
    spec fn list(&self) -> Seq<(K::V, V::V)> {
        Seq::new(self.entries@.len(), |i: int| (self.entries@[i].0@, self.entries@[i].1@))
    }

    #[verifier::type_invariant]
    spec fn ascending(self) -> bool {
        forall|i: int, j: int|
            0 <= i < j < self.entries@.len() ==> K::before(
                #[trigger] self.entries@[i].0@,
                #[trigger] self.entries@[j].0@,
            )
    }

    proof fn lemma_list(self)
        requires
            self.ascending(),
        ensures
            is_listing::<K, V::V>(self.list(), self@),
            listing::<K, V::V>(self@) == self.list(),
            self@.dom().finite(),
            self@.dom().len() == self.entries@.len(),
    {
        let list = self.list();
        assert forall|i: int, j: int| 0 <= i < j < list.len() implies K::before(
            #[trigger] list[i].0,
            #[trigger] list[j].0,
        ) by {
            assert(K::before(self.entries@[i].0@, self.entries@[j].0@));
        }
        lemma_ascending_is_listing::<K, V::V>(list);
        lemma_map_of_listing::<K, V::V>(list, self@);
    }

    /// An empty map.
    pub fn new() -> (r: Self)
        ensures
            r@ == Map::<K::V, V::V>::empty(),
    {
        OrderedMap { entries: Vec::new() }
    }

    /// The number of entries.
    pub fn len(&self) -> (r: usize)
        ensures
            self@.dom().finite(),
            r == self@.dom().len(),
            r == listing::<K, V::V>(self@).len(),
    {
        proof {
            use_type_invariant(self);
            self.lemma_list();
        }
        self.entries.len()
    }

    /// Whether there is no entry.
    pub fn is_empty(&self) -> (r: bool)
        ensures
            r == (self@ == Map::<K::V, V::V>::empty()),
    {
        proof {
            use_type_invariant(self);
            self.lemma_list();
            if self@ == Map::<K::V, V::V>::empty() {
                assert(self@.dom() =~= Set::<K::V>::empty());
            } else if self@.dom().len() == 0 {
                assert(self@.dom() =~= Set::<K::V>::empty());
                assert(self@ =~= Map::<K::V, V::V>::empty());
            }
        }
        self.entries.len() == 0
    }

    /// The entry at the given position in the order of the keys.
    pub fn entry_at(&self, i: usize) -> (r: (&K, &V))
        requires
            i < listing::<K, V::V>(self@).len(),
        ensures
            (r.0@, r.1@) == listing::<K, V::V>(self@)[i as int],
            self@.contains_pair(r.0@, r.1@),
    {
        proof {
            use_type_invariant(self);
            self.lemma_list();
            assert(self@.contains_pair(self.list()[i as int].0, self.list()[i as int].1));
        }
        let e = &self.entries[i];
        (&e.0, &e.1)
    }

    /// The first position whose key does not come before `key`.
    fn position(&self, key: &K) -> (r: usize)
        requires
            self.ascending(),
        ensures
            r <= self.entries@.len(),
            forall|i: int| 0 <= i < r ==> K::before(#[trigger] self.entries@[i].0@, key@),
            forall|i: int|
                r <= i < self.entries@.len() ==> !K::before(#[trigger] self.entries@[i].0@, key@),
    {
        let mut lo: usize = 0;
        let mut hi: usize = self.entries.len();
        while lo < hi
            invariant
                self.ascending(),
                lo <= hi <= self.entries@.len(),
                forall|i: int| 0 <= i < lo ==> K::before(#[trigger] self.entries@[i].0@, key@),
                forall|i: int|
                    hi <= i < self.entries@.len() ==> !K::before(
                        #[trigger] self.entries@[i].0@,
                        key@,
                    ),
            decreases hi - lo,
        {
            let mid: usize = lo + (hi - lo) / 2;
            let ghost k = self.entries@[mid as int].0@;
            match self.entries[mid].0.compare(key) {
                KeyOrder::Before => {
                    assert forall|i: int| 0 <= i <= mid implies K::before(
                        #[trigger] self.entries@[i].0@,
                        key@,
                    ) by {
                        if i < mid {
                            assert(K::before(self.entries@[i].0@, self.entries@[mid as int].0@));
                            K::before_transitive(self.entries@[i].0@, k, key@);
                        }
                    }
                    lo = mid + 1;
                },
                _ => {
                    assert forall|i: int| mid <= i < self.entries@.len() implies !K::before(
                        #[trigger] self.entries@[i].0@,
                        key@,
                    ) by {
                        K::before_irreflexive(key@);
                        if K::before(self.entries@[i].0@, key@) {
                            if mid < i {
                                assert(K::before(
                                    self.entries@[mid as int].0@,
                                    self.entries@[i].0@,
                                ));
                                K::before_transitive(k, self.entries@[i].0@, key@);
                            }
                            if k != key@ {
                                K::before_transitive(key@, k, key@);
                            }
                        }
                    }
                    hi = mid;
                },
            }
        }
        lo
    }

    /// The position of `key`, if it has an entry.
    fn find(&self, key: &K) -> (r: Option<usize>)
        requires
            self.ascending(),
        ensures
            match r {
                Some(i) => i < self.entries@.len() && self.entries@[i as int].0@ == key@
                    && self@.contains_pair(key@, self.entries@[i as int].1@),
                None => !self@.contains_key(key@),
            },
    {
        proof {
            self.lemma_list();
        }
        let i = self.position(key);
        if i < self.entries.len() && self.entries[i].0.same(key) {
            assert(self@.contains_pair(self.list()[i as int].0, self.list()[i as int].1));
            Some(i)
        } else {
            proof {
                if self@.contains_key(key@) {
                    let j = choose|j: int|
                        0 <= j < self.list().len() && #[trigger] self.list()[j].0 == key@;
                    assert(self.entries@[j].0@ == key@);
                    K::before_irreflexive(key@);
                    assert(i < j);
                    assert(K::before(self.entries@[i as int].0@, self.entries@[j].0@));
                }
            }
            None
        }
    }

    /// The value stored for `key`.
    pub fn get(&self, key: &K) -> (r: Option<&V>)
        ensures
            match r {
                Some(v) => self@.contains_pair(key@, v@),
                None => !self@.contains_key(key@),
            },
    {
        proof {
            use_type_invariant(self);
        }
        match self.find(key) {
            Some(i) => Some(&self.entries[i].1),
            None => None,
        }
    }

    /// Whether `key` has an entry.
    pub fn contains_key(&self, key: &K) -> (r: bool)
        ensures
            r == self@.contains_key(key@),
    {
        proof {
            use_type_invariant(self);
        }
        match self.find(key) {
            Some(_) => true,
            None => false,
        }
    }

    /// Stores `value` for `key`, in place of any earlier value.
    pub fn insert(&mut self, key: K, value: V)
        ensures
            final(self)@ == old(self)@.insert(key@, value@),
    {
        proof {
            use_type_invariant(&*self);
            self.lemma_list();
        }
        let ghost before = *self;
        let ghost kv = key@;
        let ghost vv = value@;
        let i = self.position(&key);
        let found = i < self.entries.len() && self.entries[i].0.same(&key);
        let mut entries: Vec<(K, V)> = Vec::new();
        std::mem::swap(&mut entries, &mut self.entries);
        if found {
            let _ = entries.remove(i);
        }
        let ghost kept = entries@;
        proof {
            assert forall|j: int| i <= j < kept.len() implies K::before(
                kv,
                #[trigger] kept[j].0@,
            ) by {
                if found {
                    assert(kept[j] == before.entries@[j + 1]);
                    assert(K::before(before.entries@[i as int].0@, before.entries@[j + 1].0@));
                } else {
                    K::before_total(kv, kept[j].0@);
                    if kept[j].0@ == kv {
                        if i < j {
                            K::before_total(kv, kept[i as int].0@);
                            assert(K::before(
                                before.entries@[i as int].0@,
                                before.entries@[j].0@,
                            ));
                        }
                    }
                }
            }
        }
        entries.insert(i, (key, value));
        proof {
            assert forall|a: int, b: int| 0 <= a < b < entries@.len() implies K::before(
                #[trigger] entries@[a].0@,
                #[trigger] entries@[b].0@,
            ) by {
                if b == i {
                    assert(K::before(before.entries@[a].0@, kv));
                } else if a == i {
                    assert(entries@[b] == kept[b - 1]);
                } else {
                    let a1 = if a < i || found { a } else { a - 1 };
                    let b1 = if b < i || found { b } else { b - 1 };
                    assert(K::before(before.entries@[a1].0@, before.entries@[b1].0@));
                }
            }
        }
        self.entries = entries;
        proof {
            let m = before@.insert(kv, vv);
            let l = self.list();
            assert forall|a: int, b: int| 0 <= a < b < l.len() implies K::before(
                #[trigger] l[a].0,
                #[trigger] l[b].0,
            ) by {
                assert(K::before(self.entries@[a].0@, self.entries@[b].0@));
            }
            assert forall|a: int| 0 <= a < l.len() implies #[trigger] m.contains_pair(
                l[a].0,
                l[a].1,
            ) by {
                if a != i {
                    let a1 = if a < i || found { a } else { a - 1 };
                    assert(l[a] == before.list()[a1]);
                    assert(before@.contains_pair(before.list()[a1].0, before.list()[a1].1));
                    K::before_irreflexive(kv);
                    if a < i {
                        assert(K::before(self.entries@[a].0@, self.entries@[i as int].0@));
                    } else {
                        assert(K::before(self.entries@[i as int].0@, self.entries@[a].0@));
                    }
                }
            }
            assert forall|k: K::V| #[trigger] m.contains_key(k) implies exists|a: int|
                0 <= a < l.len() && #[trigger] l[a].0 == k by {
                if k == kv {
                    assert(l[i as int].0 == k);
                } else {
                    assert(before@.contains_key(k));
                    let a = choose|a: int|
                        0 <= a < before.list().len() && #[trigger] before.list()[a].0 == k;
                    let a1 = if a < i || found { a } else { a + 1 };
                    assert(l[a1].0 == k);
                }
            }
            lemma_map_of_listing::<K, V::V>(l, m);
        }
    }

    /// Removes the entry of `key` and returns its value.
    pub fn remove(&mut self, key: &K) -> (r: Option<V>)
        ensures
            final(self)@ == old(self)@.remove(key@),
            match r {
                Some(v) => old(self)@.contains_pair(key@, v@),
                None => !old(self)@.contains_key(key@),
            },
    {
        proof {
            use_type_invariant(&*self);
            self.lemma_list();
        }
        let ghost before = *self;
        match self.find(key) {
            None => {
                assert(self@.remove(key@) =~= self@);
                None
            },
            Some(i) => {
                let mut entries: Vec<(K, V)> = Vec::new();
                std::mem::swap(&mut entries, &mut self.entries);
                let (_k, v) = entries.remove(i);
                proof {
                    assert forall|a: int, b: int| 0 <= a < b < entries@.len() implies K::before(
                        #[trigger] entries@[a].0@,
                        #[trigger] entries@[b].0@,
                    ) by {
                        let a1 = if a < i { a } else { a + 1 };
                        let b1 = if b < i { b } else { b + 1 };
                        assert(K::before(before.entries@[a1].0@, before.entries@[b1].0@));
                    }
                }
                self.entries = entries;
                proof {
                    let m = before@.remove(key@);
                    let l = self.list();
                    assert forall|a: int, b: int| 0 <= a < b < l.len() implies K::before(
                        #[trigger] l[a].0,
                        #[trigger] l[b].0,
                    ) by {
                        assert(K::before(self.entries@[a].0@, self.entries@[b].0@));
                    }
                    assert forall|a: int| 0 <= a < l.len() implies #[trigger] m.contains_pair(
                        l[a].0,
                        l[a].1,
                    ) by {
                        let a1 = if a < i { a } else { a + 1 };
                        assert(l[a] == before.list()[a1]);
                        assert(before@.contains_pair(before.list()[a1].0, before.list()[a1].1));
                        K::before_irreflexive(key@);
                        if a < i {
                            assert(K::before(before.entries@[a1].0@, before.entries@[i as int].0@));
                        } else {
                            assert(K::before(before.entries@[i as int].0@, before.entries@[a1].0@));
                        }
                    }
                    assert forall|k: K::V| #[trigger] m.contains_key(k) implies exists|a: int|
                        0 <= a < l.len() && #[trigger] l[a].0 == k by {
                        assert(before@.contains_key(k));
                        let a = choose|a: int|
                            0 <= a < before.list().len() && #[trigger] before.list()[a].0 == k;
                        let a1 = if a < i { a } else { a - 1 };
                        assert(l[a1].0 == k);
                    }
                    lemma_map_of_listing::<K, V::V>(l, m);
                }
                Some(v)
            },
        }
    }
}

impl<K: OrderedKey, V: Value> OrderedMap<K, V> {
    /// Whether every entry of this map is an entry of the other one.
    fn is_part_of(&self, other: &Self) -> (r: bool)
        ensures
            r == self@.submap_of(other@),
    {
        proof {
            use_type_invariant(self);
            self.lemma_list();
        }
        let len = self.len();
        let ghost list = listing::<K, V::V>(self@);
        for i in 0..len
            invariant
                list == listing::<K, V::V>(self@),
                is_listing::<K, V::V>(list, self@),
                len == list.len(),
                forall|j: int|
                    0 <= j < i ==> other@.contains_pair((#[trigger] list[j]).0, list[j].1),
        {
            let (k, v) = self.entry_at(i);
            let present = match other.get(k) {
                Some(w) => w.same(v),
                None => false,
            };
            if !present {
                assert(self@.contains_key(k@));
                return false;
            }
        }
        proof {
            assert forall|k: K::V| #[trigger] self@.contains_key(k) implies other@.contains_pair(
                k,
                self@[k],
            ) by {
                let j = choose|j: int| 0 <= j < list.len() && #[trigger] list[j].0 == k;
                assert(self@.contains_pair(list[j].0, list[j].1));
            }
        }
        true
    }
}

impl<K: OrderedKey, V: Value> Value for OrderedMap<K, V> {
    fn same(&self, other: &Self) -> (r: bool) {
        let r = self.is_part_of(other) && other.is_part_of(self);
        proof {
            if r {
                assert(self@.dom() =~= other@.dom());
                assert(self@ =~= other@);
            }
        }
        r
    }

    fn duplicate(&self) -> (r: Self) {
        proof {
            use_type_invariant(self);
        }
        let mut entries: Vec<(K, V)> = Vec::new();
        for i in 0..self.entries.len()
            invariant
                entries@.len() == i,
                forall|j: int|
                    0 <= j < i ==> (#[trigger] entries@[j]).0@ == self.entries@[j].0@
                        && entries@[j].1@ == self.entries@[j].1@,
        {
            entries.push((self.entries[i].0.duplicate(), self.entries[i].1.duplicate()));
        }
        proof {
            assert forall|i: int, j: int| 0 <= i < j < entries@.len() implies K::before(
                #[trigger] entries@[i].0@,
                #[trigger] entries@[j].0@,
            ) by {
                assert(K::before(self.entries@[i].0@, self.entries@[j].0@));
            }
        }
        let r = OrderedMap { entries };
        assert(r.list() =~= self.list());
        r
    }
}

/// The map that sends every member of the set to the unit value.
pub open spec fn set_as_map<T>(s: Set<T>) -> Map<T, ()> {
    Map::new(|k: T| s.contains(k), |k: T| ())
}

/// The members of a finite set in ascending order.
pub open spec fn set_listing<K: OrderedKey>(s: Set<K::V>) -> Seq<K::V> {
    let list = listing::<K, ()>(set_as_map(s));
    Seq::new(list.len(), |i: int| list[i].0)
}

/// The listing of a finite set has the set's members and no others.
pub proof fn lemma_set_listing<K: OrderedKey>(s: Set<K::V>)
    requires
        s.finite(),
    ensures
        set_listing::<K>(s).to_set() == s,
        set_listing::<K>(s).len() == s.len(),
        forall|i: int, j: int|
            0 <= i < j < set_listing::<K>(s).len() ==> K::before(
                #[trigger] set_listing::<K>(s)[i],
                #[trigger] set_listing::<K>(s)[j],
            ),
{
    let m = set_as_map(s);
    assert(m.dom() =~= s);
    lemma_listing::<K, ()>(m);
    let list = listing::<K, ()>(m);
    let members = set_listing::<K>(s);
    lemma_map_of_listing::<K, ()>(list, m);
    assert forall|k: K::V| s.contains(k) <==> #[trigger] members.to_set().contains(k) by {
        if s.contains(k) {
            assert(m.contains_key(k));
            let i = choose|i: int| 0 <= i < list.len() && #[trigger] list[i].0 == k;
            assert(members[i] == k);
        }
        if members.contains(k) {
            let i = choose|i: int| 0 <= i < members.len() && members[i] == k;
            assert(m.contains_pair(list[i].0, list[i].1));
        }
    }
    assert(members.to_set() =~= s);
    assert forall|i: int, j: int| 0 <= i < j < members.len() implies K::before(
        #[trigger] members[i],
        #[trigger] members[j],
    ) by {
        assert(K::before(list[i].0, list[j].0));
    }
}

/// A set of ordered keys.
pub struct OrderedSet<K: OrderedKey> {
    members: OrderedMap<K, ()>,
}

impl<K: OrderedKey> View for OrderedSet<K> {
    type V = Set<K::V>;

    closed spec fn view(&self) -> Set<K::V> {
        self.members@.dom()
    }
}

impl<K: OrderedKey> OrderedSet<K> {
    proof fn lemma_members(&self)
        ensures
            set_as_map(self@) == self.members@,
    {
        assert(set_as_map(self@) =~= self.members@);
    }

    /// An empty set.
    pub fn new() -> (r: Self)
        ensures
            r@ == Set::<K::V>::empty(),
    {
        let r = OrderedSet { members: OrderedMap::new() };
        assert(r@ =~= Set::<K::V>::empty());
        r
    }

    /// The number of members.
    pub fn len(&self) -> (r: usize)
        ensures
            self@.finite(),
            r == self@.len(),
            r == set_listing::<K>(self@).len(),
    {
        proof {
            self.lemma_members();
        }
        self.members.len()
    }

    /// The member at the given position in ascending order.
    pub fn member_at(&self, i: usize) -> (r: &K)
        requires
            i < set_listing::<K>(self@).len(),
        ensures
            r@ == set_listing::<K>(self@)[i as int],
            self@.contains(r@),
    {
        proof {
            self.lemma_members();
        }
        self.members.entry_at(i).0
    }

    /// Whether `key` is a member.
    pub fn contains(&self, key: &K) -> (r: bool)
        ensures
            r == self@.contains(key@),
    {
        self.members.contains_key(key)
    }

    /// Adds `key`.
    pub fn insert(&mut self, key: K)
        ensures
            final(self)@ == old(self)@.insert(key@),
    {
        self.members.insert(key, ());
        assert(self@ =~= old(self)@.insert(key@));
    }

    /// Removes `key`, and tells whether it was a member.
    pub fn remove(&mut self, key: &K) -> (r: bool)
        ensures
            final(self)@ == old(self)@.remove(key@),
            r == old(self)@.contains(key@),
    {
        let removed = self.members.remove(key);
        assert(self@ =~= old(self)@.remove(key@));
        removed.is_some()
    }
}

impl<K: OrderedKey> Value for OrderedSet<K> {
    fn same(&self, other: &Self) -> (r: bool) {
        proof {
            self.lemma_members();
            other.lemma_members();
        }
        self.members.same(&other.members)
    }

    fn duplicate(&self) -> (r: Self) {
        OrderedSet { members: self.members.duplicate() }
    }
}

/// Of several entries of a list with one key, the map that the list describes has the last one.
pub proof fn law_last_entry_counts<K, V>(list: Seq<(K, V)>, i: int)
    requires
        0 <= i < list.len(),
        forall|j: int| i < j < list.len() ==> (#[trigger] list[j]).0 != list[i].0,
    ensures
        map_of(list).contains_pair(list[i].0, list[i].1),
    decreases list.len(),
{
    if i < list.len() - 1 {
        law_last_entry_counts(list.drop_last(), i);
        assert(list[list.len() - 1].0 != list[i].0);
    }
}

/// The map that a list describes has no other keys than those of the list.
pub proof fn law_map_has_keys_of_list<K, V>(list: Seq<(K, V)>, k: K)
    requires
        map_of(list).contains_key(k),
    ensures
        exists|i: int| 0 <= i < list.len() && #[trigger] list[i].0 == k,
    decreases list.len(),
{
    if list.len() > 0 {
        if list.last().0 == k {
            assert(list[list.len() - 1].0 == k);
        } else {
            law_map_has_keys_of_list(list.drop_last(), k);
            let i = choose|i: int|
                0 <= i < list.drop_last().len() && #[trigger] list.drop_last()[i].0 == k;
            assert(list[i].0 == k);
        }
    }
}

/// The listing of a finite map has every entry of the map once and nothing else, in ascending order
/// of the keys.
pub proof fn law_listing_has_every_entry_once<K: OrderedKey, V>(m: Map<K::V, V>)
    requires
        m.dom().finite(),
    ensures
        listing::<K, V>(m).len() == m.dom().len(),
        forall|i: int|
            0 <= i < listing::<K, V>(m).len() ==> m.contains_key(
                (#[trigger] listing::<K, V>(m)[i]).0,
            ) && listing::<K, V>(m)[i].1 == m[listing::<K, V>(m)[i].0],
        forall|k: K::V| #[trigger]
            m.contains_key(k) ==> exists|i: int|
                0 <= i < listing::<K, V>(m).len() && #[trigger] listing::<K, V>(m)[i].0 == k,
        forall|i: int, j: int|
            0 <= i < j < listing::<K, V>(m).len() ==> K::before(
                #[trigger] listing::<K, V>(m)[i].0,
                #[trigger] listing::<K, V>(m)[j].0,
            ),
{
    lemma_listing::<K, V>(m);
    lemma_map_of_listing::<K, V>(listing::<K, V>(m), m);
    assert forall|i: int| 0 <= i < listing::<K, V>(m).len() implies m.contains_key(
        (#[trigger] listing::<K, V>(m)[i]).0,
    ) && listing::<K, V>(m)[i].1 == m[listing::<K, V>(m)[i].0] by {
        assert(m.contains_pair(listing::<K, V>(m)[i].0, listing::<K, V>(m)[i].1));
    }
}

} // verus!
