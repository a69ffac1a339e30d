//! Maps from section prefixes to what is known of the sections, kept up to date across splits.

use vstd::prelude::*;

use crate::ordered_map::{self, OrderedKey, OrderedMap};
use crate::prefix::{self, Prefix};
use crate::value::Value;

verus! {

/// `k` is the first key, in the order of the prefixes, that is compatible with `p`.
pub open spec fn is_first_compatible<V>(m: Map<Seq<bool>, V>, p: Seq<bool>, k: Seq<bool>) -> bool {
    &&& m.contains_key(k)
    &&& prefix::compatible(k, p)
    &&& forall|other: Seq<bool>| #[trigger]
        m.contains_key(other) && prefix::compatible(other, p) ==> other == k
            || Prefix::before(k, other)
}

/// Some key is compatible with `p`.
pub open spec fn has_compatible<V>(m: Map<Seq<bool>, V>, p: Seq<bool>) -> bool {
    exists|k: Seq<bool>| #[trigger] m.contains_key(k) && prefix::compatible(k, p)
}

/// The first key, in the order of the prefixes, that is compatible with `p`, if there is one.
pub open spec fn first_compatible<V>(m: Map<Seq<bool>, V>, p: Seq<bool>) -> Option<Seq<bool>> {
    if has_compatible(m, p) {
        Some(choose|k: Seq<bool>| is_first_compatible(m, p, k))
    } else {
        None
    }
}

/// None of the siblings of `p` and of its beginnings down to `n` bits has an entry.
pub open spec fn siblings_free<V>(m: Map<Seq<bool>, V>, p: Seq<bool>, n: int) -> bool {
    forall|i: int|
        n <= i <= p.len() ==> !m.contains_key(#[trigger] prefix::sibling(p.take(i)))
}

/// `k` is the sibling of a beginning of `p` that is longer than `old_pfx`, and no sibling from `p`
/// down to it had an entry: a part of the space of `old_pfx` that the section `p` leaves over.
pub open spec fn left_over<V>(
    m: Map<Seq<bool>, V>,
    old_pfx: Seq<bool>,
    p: Seq<bool>,
    k: Seq<bool>,
) -> bool {
    &&& old_pfx.len() < k.len() <= p.len()
    &&& k == prefix::sibling(p.take(k.len() as int))
    &&& siblings_free(m, p, k.len() as int)
}

/// The map after the section `old_pfx` was found to be replaced by the section `p`: `p` has the new
/// value, what `p` leaves over of the space of `old_pfx` keeps the old value, and the entry of
/// `old_pfx` is gone.
pub open spec fn replaced<V>(
    m: Map<Seq<bool>, V>,
    old_pfx: Seq<bool>,
    p: Seq<bool>,
    v: V,
) -> Map<Seq<bool>, V> {
    Map::new(
        |k: Seq<bool>|
            k == p || m.remove(old_pfx).contains_key(k) || left_over(
                m.remove(old_pfx),
                old_pfx,
                p,
                k,
            ),
        |k: Seq<bool>|
            if k == p {
                v
            } else if m.remove(old_pfx).contains_key(k) {
                m[k]
            } else {
                m[old_pfx]
            },
    )
}

/// The first compatible entry, as far as there is one, is unique.
pub proof fn lemma_first_compatible<V>(m: Map<Seq<bool>, V>, p: Seq<bool>, k: Seq<bool>)
    requires
        is_first_compatible(m, p, k),
    ensures
        first_compatible(m, p) == Some(k),
{
    let c = choose|c: Seq<bool>| is_first_compatible(m, p, c);
    assert(has_compatible(m, p));
    assert(is_first_compatible(m, p, c));
    if c != k {
        Prefix::before_transitive(c, k, c);
        Prefix::before_irreflexive(c);
    }
}

/// Finds the first entry whose prefix is compatible with `p`.
pub fn find_compatible<V: Value>(map: &OrderedMap<Prefix, V>, p: &Prefix) -> (r: Option<
    (Prefix, V),
>)
    ensures
        match r {
            Some(e) => first_compatible(map@, p@) == Some(e.0@) && map@.contains_pair(e.0@, e.1@)
                && prefix::compatible(e.0@, p@),
            None => first_compatible(map@, p@) is None,
        },
{
    let len = map.len();
    let ghost list = ordered_map::listing::<Prefix, V::V>(map@);
    proof {
        ordered_map::lemma_listing::<Prefix, V::V>(map@);
    }
    for i in 0..len
        invariant
            list == ordered_map::listing::<Prefix, V::V>(map@),
            ordered_map::is_listing::<Prefix, V::V>(list, map@),
            len == list.len(),
            forall|j: int| 0 <= j < i ==> !prefix::compatible((#[trigger] list[j]).0, p@),
    {
        let (k, v) = map.entry_at(i);
        if k.is_compatible(p) {
            proof {
                assert forall|other: Seq<bool>| #[trigger]
                    map@.contains_key(other) && prefix::compatible(other, p@) implies other == k@
                    || Prefix::before(k@, other) by {
                    let j = choose|j: int| 0 <= j < list.len() && #[trigger] list[j].0 == other;
                    if i < j {
                        assert(Prefix::before(list[i as int].0, list[j].0));
                    }
                }
                assert(is_first_compatible(map@, p@, k@));
                lemma_first_compatible(map@, p@, k@);
            }
            return Some((k.duplicate(), v.duplicate()));
        }
    }
    proof {
        if has_compatible(map@, p@) {
            let k = choose|k: Seq<bool>| #[trigger]
                map@.contains_key(k) && prefix::compatible(k, p@);
            let j = choose|j: int| 0 <= j < list.len() && #[trigger] list[j].0 == k;
            assert(!prefix::compatible(list[j].0, p@));
        }
    }
    None
}

/// Replaces the entry of `old_pfx`, which `p` starts with, by one for `p` and entries with the old
/// value for the parts of the space of `old_pfx` that `p` leaves over.
pub fn replace_and_split<V: Value>(
    map: &mut OrderedMap<Prefix, V>,
    old_pfx: &Prefix,
    old_value: &V,
    p: &Prefix,
    value: V,
)
    requires
        old(map)@.contains_pair(old_pfx@, old_value@),
        old_pfx@.is_prefix_of(p@),
    ensures
        final(map)@ == replaced(old(map)@, old_pfx@, p@, value@),
{
    let ghost m0 = map@;
    let ghost m = m0.remove(old_pfx@);
    let ghost ps = p@;
    let _ = map.remove(old_pfx);
    let old_sibling = old_pfx.sibling();
    let mut current = p.sibling();
    let ghost mut n: int = ps.len() as int;
    proof {
        assert(ps.take(n) =~= ps);
    }
    while !map.contains_key(&current) && !current.same(&old_sibling)
        invariant
            ps == p@,
            old_pfx@.is_prefix_of(ps),
            m == m0.remove(old_pfx@),
            m0.contains_pair(old_pfx@, old_value@),
            old_pfx@.len() <= n <= ps.len(),
            current@ == prefix::sibling(ps.take(n)),
            old_sibling@ == prefix::sibling(old_pfx@),
            siblings_free(m, ps, n + 1),
            forall|k: Seq<bool>| #[trigger]
                map@.contains_key(k) <==> m.contains_key(k) || (n < k.len() <= ps.len() && k
                    == prefix::sibling(ps.take(k.len() as int))),
            forall|k: Seq<bool>| #[trigger]
                map@.contains_key(k) ==> map@[k] == (if m.contains_key(k) {
                    m0[k]
                } else {
                    m0[old_pfx@]
                }),
        decreases n,
    {
        proof {
            if n == old_pfx@.len() {
                assert(ps.take(n) =~= old_pfx@);
            }
            assert(current@.len() == n);
            assert(prefix::popped(current@) =~= ps.take(n - 1));
        }
        map.insert(current.duplicate(), old_value.duplicate());
        current = current.popped().sibling();
        proof {
            n = n - 1;
        }
    }
    proof {
        assert(current@.len() == n);
        if old_sibling@ == current@ {
            assert(n == old_pfx@.len());
        } else {
            assert(map@.contains_key(current@));
            assert(m.contains_key(prefix::sibling(ps.take(n))));
            if n == old_pfx@.len() {
                assert(ps.take(n) =~= old_pfx@);
            }
        }
        assert forall|k: Seq<bool>| (n < k.len() <= ps.len() && k == #[trigger] prefix::sibling(
            ps.take(k.len() as int),
        )) <==> left_over(m, old_pfx@, ps, k) by {
            if left_over(m, old_pfx@, ps, k) && k.len() <= n {
                assert(!m.contains_key(prefix::sibling(ps.take(n))));
            }
        }
    }
    map.insert(p.duplicate(), value);
    proof {
        assert(map@ =~= replaced(m0, old_pfx@, ps, value@));
    }
}

/// Whether news of the section `p` are taken over: not if the first compatible entry is at least as
/// recent, as `stale` tells of the value stored there, or belongs to a part of `p`.
pub open spec fn takes_over<V>(
    m: Map<Seq<bool>, V>,
    p: Seq<bool>,
    stale: spec_fn(V) -> bool,
) -> bool {
    match first_compatible(m, p) {
        Some(old_pfx) => !stale(m[old_pfx]) && !prefix::extends(old_pfx, p),
        None => true,
    }
}

/// The map after news of the section `p` with the value `v`.
pub open spec fn updated<V>(
    m: Map<Seq<bool>, V>,
    p: Seq<bool>,
    v: V,
    stale: spec_fn(V) -> bool,
) -> Map<Seq<bool>, V> {
    if !takes_over(m, p, stale) {
        m
    } else {
        match first_compatible(m, p) {
            Some(old_pfx) => replaced(m, old_pfx, p, v),
            None => m.insert(p, v),
        }
    }
}

/// No two keys are compatible: the sections do not overlap.
pub open spec fn disjoint_sections<V>(m: Map<Seq<bool>, V>) -> bool {
    forall|a: Seq<bool>, b: Seq<bool>| #[trigger]
        m.contains_key(a) && #[trigger] m.contains_key(b) && a != b ==> !prefix::compatible(a, b)
}

/// `k` is the key of a section that holds the address.
pub open spec fn holds<V>(m: Map<Seq<bool>, V>, address: Seq<bool>, k: Seq<bool>) -> bool {
    m.contains_key(k) && k.is_prefix_of(address)
}

/// What is known of the section that holds the address, if there is such a section.
pub open spec fn value_at<V>(m: Map<Seq<bool>, V>, address: Seq<bool>) -> Option<V> {
    if exists|k: Seq<bool>| holds(m, address, k) {
        Some(m[choose|k: Seq<bool>| holds(m, address, k)])
    } else {
        None
    }
}

/// Where the sections do not overlap, the section that holds an address is the only one.
proof fn lemma_value_at<V>(m: Map<Seq<bool>, V>, address: Seq<bool>, k: Seq<bool>)
    requires
        disjoint_sections(m),
        holds(m, address, k),
    ensures
        value_at(m, address) == Some(m[k]),
{
    let c = choose|c: Seq<bool>| holds(m, address, c);
    assert(holds(m, address, c));
    prefix::lemma_prefixes_of_one(c, k, address);
}

/// Every address has at most one section.
proof fn lemma_replaced_disjoint<V>(
    m: Map<Seq<bool>, V>,
    old_pfx: Seq<bool>,
    p: Seq<bool>,
    v: V,
)
    requires
        disjoint_sections(m),
        m.contains_key(old_pfx),
        old_pfx.is_prefix_of(p),
    ensures
        disjoint_sections(replaced(m, old_pfx, p, v)),
{
    let r = replaced(m, old_pfx, p, v);
    let m1 = m.remove(old_pfx);
    assert forall|a: Seq<bool>, b: Seq<bool>| #[trigger]
        r.contains_key(a) && #[trigger] r.contains_key(b) && a != b implies !prefix::compatible(
        a,
        b,
    ) by {
        if m1.contains_key(a) && m1.contains_key(b) {
            assert(m.contains_key(a) && m.contains_key(b));
        } else if m1.contains_key(a) {
            lemma_replacement_inside(m1, old_pfx, p, b);
            prefix::lemma_extension_of_incompatible(a, old_pfx, b);
        } else if m1.contains_key(b) {
            lemma_replacement_inside(m1, old_pfx, p, a);
            prefix::lemma_extension_of_incompatible(b, old_pfx, a);
        } else if a == p {
            prefix::lemma_differ_incompatible(a, b, b.len() - 1);
        } else if b == p {
            prefix::lemma_differ_incompatible(a, b, a.len() - 1);
        } else {
            let i = if a.len() < b.len() { a.len() - 1 } else { b.len() - 1 };
            if a.len() == b.len() {
                assert(a == b);
            }
            prefix::lemma_differ_incompatible(a, b, i);
        }
    }
}

/// The new section and what it leaves over lie inside the old one.
proof fn lemma_replacement_inside<V>(
    m: Map<Seq<bool>, V>,
    old_pfx: Seq<bool>,
    p: Seq<bool>,
    k: Seq<bool>,
)
    requires
        old_pfx.is_prefix_of(p),
        k == p || left_over(m, old_pfx, p, k),
    ensures
        old_pfx.is_prefix_of(k),
{
    if k != p {
        assert forall|i: int| 0 <= i < old_pfx.len() implies old_pfx[i] == k[i] by {
            assert(old_pfx[i] == p.subrange(0, old_pfx.len() as int)[i]);
        }
        assert(old_pfx =~= k.subrange(0, old_pfx.len() as int));
    }
}

/// Updating keeps the sections from overlapping.
pub proof fn lemma_updated_disjoint<V>(
    m: Map<Seq<bool>, V>,
    p: Seq<bool>,
    v: V,
    stale: spec_fn(V) -> bool,
)
    requires
        disjoint_sections(m),
        m.dom().finite(),
    ensures
        disjoint_sections(updated(m, p, v, stale)),
{
    if takes_over(m, p, stale) {
        lemma_first_compatible_exists(m, p);
        match first_compatible(m, p) {
            Some(old_pfx) => {
                lemma_replaced_disjoint(m, old_pfx, p, v);
            },
            None => {
                let r = m.insert(p, v);
                assert forall|a: Seq<bool>, b: Seq<bool>| #[trigger]
                    r.contains_key(a) && #[trigger] r.contains_key(b) && a
                        != b implies !prefix::compatible(a, b) by {
                    if a != p {
                        assert(m.contains_key(a));
                    }
                    if b != p {
                        assert(m.contains_key(b));
                    }
                }
            },
        }
    }
}

/// A finite map with a compatible key has a first one.
proof fn lemma_first_compatible_exists<V>(m: Map<Seq<bool>, V>, p: Seq<bool>)
    requires
        m.dom().finite(),
    ensures
        first_compatible(m, p) matches Some(k) ==> is_first_compatible(m, p, k),
{
    if has_compatible(m, p) {
        let list = ordered_map::listing::<Prefix, V>(m);
        ordered_map::lemma_listing::<Prefix, V>(m);
        let k = choose|k: Seq<bool>| #[trigger] m.contains_key(k) && prefix::compatible(k, p);
        let j = choose|j: int| 0 <= j < list.len() && #[trigger] list[j].0 == k;
        lemma_first_in_list(m, p, list, j);
    }
}

proof fn lemma_first_in_list<V>(
    m: Map<Seq<bool>, V>,
    p: Seq<bool>,
    list: Seq<(Seq<bool>, V)>,
    j: int,
)
    requires
        ordered_map::is_listing::<Prefix, V>(list, m),
        0 <= j < list.len(),
        prefix::compatible(list[j].0, p),
    ensures
        exists|k: Seq<bool>| is_first_compatible(m, p, k),
    decreases j,
{
    if exists|i: int| 0 <= i < j && prefix::compatible((#[trigger] list[i]).0, p) {
        let i = choose|i: int| 0 <= i < j && prefix::compatible((#[trigger] list[i]).0, p);
        lemma_first_in_list(m, p, list, i);
    } else {
        let k = list[j].0;
        assert(m.contains_pair(list[j].0, list[j].1));
        assert forall|other: Seq<bool>| #[trigger]
            m.contains_key(other) && prefix::compatible(other, p) implies other == k
            || Prefix::before(k, other) by {
            let i = choose|i: int| 0 <= i < list.len() && #[trigger] list[i].0 == other;
            if j < i {
                assert(Prefix::before(list[j].0, list[i].0));
            }
        }
        assert(is_first_compatible(m, p, k));
    }
}

/// After an update that is taken over, the addresses of the section `p` have the new value; all
/// other addresses, and after an update that is not taken over all addresses, have the value that
/// they had before.
pub proof fn lemma_updated_value_at<V>(
    m: Map<Seq<bool>, V>,
    p: Seq<bool>,
    v: V,
    stale: spec_fn(V) -> bool,
    address: Seq<bool>,
)
    requires
        disjoint_sections(m),
        m.dom().finite(),
        p.len() <= address.len(),
    ensures
        value_at(updated(m, p, v, stale), address) == if takes_over(m, p, stale)
            && p.is_prefix_of(address) {
            Some(v)
        } else {
            value_at(m, address)
        },
{
    let r = updated(m, p, v, stale);
    lemma_updated_disjoint(m, p, v, stale);
    lemma_first_compatible_exists(m, p);
    if takes_over(m, p, stale) {
        if p.is_prefix_of(address) {
            assert(holds(r, address, p));
            lemma_value_at(r, address, p);
        } else if exists|k: Seq<bool>| holds(m, address, k) {
            let k = choose|k: Seq<bool>| holds(m, address, k);
            lemma_value_at(m, address, k);
            if r.contains_key(k) && r[k] == m[k] {
                assert(holds(r, address, k));
                lemma_value_at(r, address, k);
            } else {
                let old_pfx = first_compatible(m, p)->0;
                assert(k == old_pfx);
                assert forall|j: int| 0 <= j < old_pfx.len() implies p[j] == address[j] by {
                    assert(old_pfx[j] == p.subrange(0, old_pfx.len() as int)[j]);
                    assert(old_pfx[j] == address.subrange(0, old_pfx.len() as int)[j]);
                }
                let i = prefix::lemma_first_difference(p, address, old_pfx.len() as int);
                let l = prefix::sibling(p.take(i + 1));
                assert(l =~= address.subrange(0, i + 1));
                assert forall|n: int| i + 1 <= n <= p.len() implies !m.remove(
                    old_pfx,
                ).contains_key(#[trigger] prefix::sibling(p.take(n))) by {
                    let s = prefix::sibling(p.take(n));
                    if m.contains_key(s) {
                        lemma_sibling_inside(old_pfx, p, n);
                    }
                }
                assert(left_over(m.remove(old_pfx), old_pfx, p, l));
                assert(holds(r, address, l));
                lemma_value_at(r, address, l);
            }
        } else {
            if exists|k: Seq<bool>| holds(r, address, k) {
                let k = choose|k: Seq<bool>| holds(r, address, k);
                if m.contains_key(k) {
                    assert(holds(m, address, k));
                } else {
                    let old_pfx = first_compatible(m, p)->0;
                    lemma_replacement_inside(m.remove(old_pfx), old_pfx, p, k);
                    prefix::lemma_prefix_of_prefix(old_pfx, k, address);
                    assert(holds(m, address, old_pfx));
                }
            }
        }
    }
}

/// The siblings of the beginnings of `p` beyond `old_pfx` lie inside `old_pfx`.
proof fn lemma_sibling_inside(old_pfx: Seq<bool>, p: Seq<bool>, n: int)
    requires
        old_pfx.is_prefix_of(p),
        old_pfx.len() < n <= p.len(),
    ensures
        old_pfx.is_prefix_of(prefix::sibling(p.take(n))),
{
    let s = prefix::sibling(p.take(n));
    assert forall|i: int| 0 <= i < old_pfx.len() implies old_pfx[i] == s[i] by {
        assert(old_pfx[i] == p.subrange(0, old_pfx.len() as int)[i]);
    }
    assert(old_pfx =~= s.subrange(0, old_pfx.len() as int));
}

/// The map stays finite.
pub proof fn lemma_updated_finite<V>(
    m: Map<Seq<bool>, V>,
    p: Seq<bool>,
    v: V,
    stale: spec_fn(V) -> bool,
)
    requires
        m.dom().finite(),
    ensures
        updated(m, p, v, stale).dom().finite(),
{
    let r = updated(m, p, v, stale);
    let siblings = Seq::new(p.len() + 1, |i: int| prefix::sibling(p.take(i)));
    vstd::seq_lib::seq_to_set_is_finite(siblings);
    let bound = m.dom().insert(p).union(siblings.to_set());
    assert forall|k: Seq<bool>| r.dom().contains(k) implies #[trigger] bound.contains(k) by {
        if !m.contains_key(k) && k != p {
            assert(siblings[k.len() as int] == k);
        }
    }
    vstd::set_lib::lemma_set_subset_finite(bound, r.dom());
}

/// The key whose value the entry of `k` had before the update, unless it is the new one.
pub open spec fn source_of<V>(m: Map<Seq<bool>, V>, p: Seq<bool>, k: Seq<bool>) -> Seq<bool> {
    match first_compatible(m, p) {
        Some(old_pfx) => if m.remove(old_pfx).contains_key(k) {
            k
        } else {
            old_pfx
        },
        None => k,
    }
}

/// Every entry is the new one or has the value of an entry for the same or a larger section.
pub proof fn lemma_updated_entry<V>(
    m: Map<Seq<bool>, V>,
    p: Seq<bool>,
    v: V,
    stale: spec_fn(V) -> bool,
    k: Seq<bool>,
)
    requires
        m.dom().finite(),
        updated(m, p, v, stale).contains_key(k),
    ensures
        (k == p && updated(m, p, v, stale)[k] == v) || ({
            &&& m.contains_key(source_of(m, p, k))
            &&& source_of(m, p, k).is_prefix_of(k)
            &&& updated(m, p, v, stale)[k] == m[source_of(m, p, k)]
        }),
{
    lemma_first_compatible_exists(m, p);
    assert(k =~= k.subrange(0, k.len() as int));
    match first_compatible(m, p) {
        Some(old_pfx) => {
            if takes_over(m, p, stale) && k != p && !m.remove(old_pfx).contains_key(k) {
                lemma_replacement_inside(m.remove(old_pfx), old_pfx, p, k);
            }
        },
        None => {},
    }
}

/// Where news are taken over, what was known of an address of the section is what the first
/// compatible entry tells, and that was stale.
pub proof fn lemma_taken_over_was_first<V>(
    m: Map<Seq<bool>, V>,
    p: Seq<bool>,
    stale: spec_fn(V) -> bool,
    address: Seq<bool>,
)
    requires
        disjoint_sections(m),
        m.dom().finite(),
        takes_over(m, p, stale),
        p.is_prefix_of(address),
        value_at(m, address) is Some,
    ensures
        first_compatible(m, p) is Some,
        value_at(m, address) == Some(m[first_compatible(m, p)->0]),
        !stale(value_at(m, address)->0),
{
    let k = choose|k: Seq<bool>| holds(m, address, k);
    assert(holds(m, address, k));
    prefix::lemma_prefixes_of_one(k, p, address);
    lemma_first_compatible_exists(m, p);
    assert(has_compatible(m, p));
    let old_pfx = first_compatible(m, p)->0;
    if old_pfx.is_prefix_of(p) {
        prefix::lemma_prefix_of_prefix(old_pfx, p, address);
        prefix::lemma_prefixes_of_one(old_pfx, k, address);
    } else {
        assert(prefix::extends(old_pfx, p)) by {
            if p.len() == old_pfx.len() {
                assert(p =~= old_pfx);
            }
        }
    }
}

/// After news of the section `p`, further news of it that are stale whenever the first ones or
/// something that made those stale are known, change nothing.
pub proof fn lemma_updated_settles<V>(
    m: Map<Seq<bool>, V>,
    p: Seq<bool>,
    v: V,
    stale: spec_fn(V) -> bool,
    late_stale: spec_fn(V) -> bool,
)
    requires
        disjoint_sections(m),
        m.dom().finite(),
        late_stale(v),
        forall|w: V| #[trigger] stale(w) ==> late_stale(w),
    ensures
        !takes_over(updated(m, p, v, stale), p, late_stale),
{
    let r = updated(m, p, v, stale);
    lemma_first_compatible_exists(m, p);
    if takes_over(m, p, stale) {
        lemma_updated_disjoint(m, p, v, stale);
        lemma_updated_finite(m, p, v, stale);
        lemma_first_compatible_exists(r, p);
        assert(r.contains_key(p));
        assert(p =~= p.subrange(0, p.len() as int));
        assert(has_compatible(r, p));
        let k = first_compatible(r, p)->0;
        assert(k == p);
    } else {
        let k = first_compatible(m, p)->0;
        if stale(m[k]) {
            assert(late_stale(m[k]));
        }
    }
}

/// No section lies inside another one, as the bits of the prefixes show.
pub open spec fn none_inside_another<V>(m: Map<Seq<bool>, V>) -> bool {
    forall|a: Seq<bool>, b: Seq<bool>| #[trigger]
        m.contains_key(a) && #[trigger] m.contains_key(b) && a != b ==> !a.is_prefix_of(b)
}

proof fn lemma_none_inside_another<V>(m: Map<Seq<bool>, V>)
    requires
        none_inside_another(m),
    ensures
        disjoint_sections(m),
{
}

/// Where the sections do not overlap, an entry whose prefix `p` starts with is the first compatible
/// one.
proof fn lemma_only_compatible<V>(m: Map<Seq<bool>, V>, p: Seq<bool>, old_pfx: Seq<bool>)
    requires
        disjoint_sections(m),
        m.contains_key(old_pfx),
        old_pfx.is_prefix_of(p),
    ensures
        is_first_compatible(m, p, old_pfx),
        first_compatible(m, p) == Some(old_pfx),
{
    assert forall|other: Seq<bool>| #[trigger]
        m.contains_key(other) && prefix::compatible(other, p) implies other == old_pfx by {
        if other.is_prefix_of(p) {
            prefix::lemma_prefixes_of_one(other, old_pfx, p);
        } else {
            prefix::lemma_prefix_of_prefix(old_pfx, p, other);
        }
    }
    assert(is_first_compatible(m, p, old_pfx));
    lemma_first_compatible(m, p, old_pfx);
}

/// News of a section that are newer than what is known of it, or of a larger section that it was
/// part of. The section gets the new value. All sections that do not overlap with it stay. What it
/// leaves over of the larger section stays with the old value, in the largest sections that do not
/// overlap with it: without its last bit, the prefix of such a section is a beginning of the prefix
/// of the news. The larger section itself is gone.
pub proof fn law_newer_news_replace<V>(
    m: Map<Seq<bool>, V>,
    p: Seq<bool>,
    v: V,
    stale: spec_fn(V) -> bool,
    old_pfx: Seq<bool>,
)
    requires
        m.dom().finite(),
        none_inside_another(m),
        m.contains_key(old_pfx),
        old_pfx.is_prefix_of(p),
        !stale(m[old_pfx]),
    ensures
        ({
            let r = updated(m, p, v, stale);
            &&& r.contains_pair(p, v)
            &&& old_pfx != p ==> !r.contains_key(old_pfx)
            &&& forall|k: Seq<bool>| #[trigger]
                m.contains_key(k) && k != old_pfx ==> r.contains_pair(k, m[k])
            &&& forall|k: Seq<bool>| #[trigger]
                r.contains_key(k) && k != p && !m.contains_key(k) ==> {
                    &&& r[k] == m[old_pfx]
                    &&& old_pfx.is_prefix_of(k)
                    &&& old_pfx.len() < k.len()
                    &&& k.drop_last().is_prefix_of(p)
                    &&& !k.is_prefix_of(p)
                }
            &&& none_inside_another(r)
        }),
{
    let r = updated(m, p, v, stale);
    lemma_none_inside_another(m);
    lemma_only_compatible(m, p, old_pfx);
    assert(!prefix::extends(old_pfx, p));
    assert(r == replaced(m, old_pfx, p, v));
    let m1 = m.remove(old_pfx);
    assert forall|k: Seq<bool>| #[trigger] m.contains_key(k) && k != old_pfx implies
        r.contains_pair(k, m[k]) by {
        assert(m1.contains_key(k));
        if k == p {
            assert(m.contains_key(old_pfx) && m.contains_key(k));
        }
    }
    if old_pfx != p && r.contains_key(old_pfx) {
        assert(left_over(m1, old_pfx, p, old_pfx));
    }
    assert forall|k: Seq<bool>| #[trigger] r.contains_key(k) && k != p && !m.contains_key(
        k,
    ) implies r[k] == m[old_pfx] && old_pfx.is_prefix_of(k) && old_pfx.len() < k.len()
        && k.drop_last().is_prefix_of(p) && !k.is_prefix_of(p) by {
        assert(left_over(m1, old_pfx, p, k));
        lemma_replacement_inside(m1, old_pfx, p, k);
        let n = k.len() as int;
        assert(k.drop_last() =~= p.subrange(0, n - 1));
        prefix::lemma_differ_incompatible(k, p, n - 1);
    }
    lemma_updated_disjoint(m, p, v, stale);
    assert forall|a: Seq<bool>, b: Seq<bool>| #[trigger]
        r.contains_key(a) && #[trigger] r.contains_key(b) && a != b implies !a.is_prefix_of(b) by {
        assert(!prefix::compatible(a, b));
    }
}

/// There is an entry whose prefix the address starts with, and every such entry has that value.
pub open spec fn known_at<V>(m: Map<Seq<bool>, V>, address: Seq<bool>, v: V) -> bool {
    &&& exists|k: Seq<bool>| #[trigger] m.contains_key(k) && k.is_prefix_of(address) && m[k] == v
    &&& forall|k: Seq<bool>| #[trigger]
        m.contains_key(k) && k.is_prefix_of(address) ==> m[k] == v
}

/// Such news replace the first compatible entry.
pub proof fn lemma_replaced_entry_is_first<V>(
    m: Map<Seq<bool>, V>,
    p: Seq<bool>,
    stale: spec_fn(V) -> bool,
    old_pfx: Seq<bool>,
)
    requires
        none_inside_another(m),
        m.contains_key(old_pfx),
        old_pfx.is_prefix_of(p),
        !stale(m[old_pfx]),
    ensures
        first_compatible(m, p) == Some(old_pfx),
        takes_over(m, p, stale),
{
    lemma_none_inside_another(m);
    lemma_only_compatible(m, p, old_pfx);
}

/// Such news lose no address: every address of the larger section, if it is long enough to tell
/// whether it is one of the section of the news, is one of exactly one section afterwards, with the
/// new value if it is one of the section of the news and with the old value if it is not.
pub proof fn law_newer_news_lose_no_address<V>(
    m: Map<Seq<bool>, V>,
    p: Seq<bool>,
    v: V,
    stale: spec_fn(V) -> bool,
    old_pfx: Seq<bool>,
    address: Seq<bool>,
)
    requires
        m.dom().finite(),
        none_inside_another(m),
        m.contains_key(old_pfx),
        old_pfx.is_prefix_of(p),
        !stale(m[old_pfx]),
        old_pfx.is_prefix_of(address),
        p.len() <= address.len(),
    ensures
        ({
            let r = updated(m, p, v, stale);
            let expected = if p.is_prefix_of(address) {
                v
            } else {
                m[old_pfx]
            };
            known_at(r, address, expected)
        }),
{
    let r = updated(m, p, v, stale);
    law_newer_news_replace(m, p, v, stale, old_pfx);
    lemma_none_inside_another(m);
    lemma_only_compatible(m, p, old_pfx);
    assert(!prefix::extends(old_pfx, p));
    lemma_updated_value_at(m, p, v, stale, address);
    assert(holds(m, address, old_pfx));
    lemma_value_at(m, address, old_pfx);
    lemma_none_inside_another(r);
    let k = choose|k: Seq<bool>| holds(r, address, k);
    assert(holds(r, address, k));
    lemma_value_at(r, address, k);
    assert(r.contains_key(k) && k.is_prefix_of(address));
    assert forall|other: Seq<bool>| #[trigger]
        r.contains_key(other) && other.is_prefix_of(address) implies other == k by {
        prefix::lemma_prefixes_of_one(other, k, address);
    }
}

/// News of a section of which nothing is known add it and change nothing else.
pub proof fn law_news_of_unknown_section_add_it<V>(
    m: Map<Seq<bool>, V>,
    p: Seq<bool>,
    v: V,
    stale: spec_fn(V) -> bool,
)
    requires
        forall|k: Seq<bool>| #[trigger]
            m.contains_key(k) ==> !k.is_prefix_of(p) && !p.is_prefix_of(k),
    ensures
        first_compatible(m, p) is None,
        updated(m, p, v, stale) == m.insert(p, v),
{
    assert(!has_compatible(m, p));
}

/// News that are not newer than what is known of the section or of a larger one, and news of a
/// section of which a part is known, change nothing.
pub proof fn law_outdated_news_change_nothing<V>(
    m: Map<Seq<bool>, V>,
    p: Seq<bool>,
    v: V,
    stale: spec_fn(V) -> bool,
    k: Seq<bool>,
)
    requires
        m.dom().finite(),
        none_inside_another(m),
        m.contains_key(k),
        (k.is_prefix_of(p) && stale(m[k])) || (p.is_prefix_of(k) && p.len() < k.len()),
    ensures
        !takes_over(m, p, stale),
        updated(m, p, v, stale) == m,
{
    lemma_none_inside_another(m);
    if k.is_prefix_of(p) && stale(m[k]) {
        lemma_only_compatible(m, p, k);
    } else {
        lemma_first_compatible_exists(m, p);
        assert(prefix::compatible(k, p));
        assert(has_compatible(m, p));
        let first = first_compatible(m, p)->0;
        if first.is_prefix_of(p) {
            lemma_only_compatible(m, p, first);
            prefix::lemma_prefix_of_prefix(first, p, k);
            assert(first == k);
        } else if first.len() == p.len() {
            assert(first =~= p);
        }
    }
}

/// The first `i` bits of `p` with the last one of them flipped: the section that parts from `p` at
/// that bit.
pub open spec fn parting_at(p: Seq<bool>, i: int) -> Seq<bool> {
    p.take(i - 1).push(!p[i - 1])
}

/// What newer news do to the sections between the larger one and the one of the news, also if other
/// sections overlap with them. From the last bit of the news on, the sections that part from it get
/// the old value, up to one that is known already: from there on nothing is added. All that is
/// known already stays.
pub proof fn law_parting_sections_get_the_old_value<V>(
    m: Map<Seq<bool>, V>,
    p: Seq<bool>,
    v: V,
    stale: spec_fn(V) -> bool,
    old_pfx: Seq<bool>,
    i: int,
    k: Seq<bool>,
)
    requires
        m.contains_key(old_pfx),
        old_pfx.is_prefix_of(p),
        !stale(m[old_pfx]),
        forall|other: Seq<bool>| #[trigger]
            m.contains_key(other) && (other.is_prefix_of(p) || p.is_prefix_of(other)) ==> other
                == old_pfx || Prefix::before(old_pfx, other),
        old_pfx.len() < i <= p.len(),
    ensures
        ({
            let r = updated(m, p, v, stale);
            let s = parting_at(p, i);
            &&& r.contains_pair(p, v)
            &&& !r.contains_key(old_pfx)
            &&& m.contains_key(k) && k != old_pfx && k != p ==> r.contains_pair(k, m[k])
            &&& (forall|j: int|
                i <= j <= p.len() ==> !m.contains_key(#[trigger] parting_at(p, j)))
                ==> r.contains_pair(s, m[old_pfx])
            &&& !m.contains_key(s) && (exists|j: int|
                i <= j <= p.len() && m.contains_key(#[trigger] parting_at(p, j)))
                ==> !r.contains_key(s)
            &&& !m.contains_key(k) && k != p && (forall|j: int|
                old_pfx.len() < j <= p.len() ==> k != #[trigger] parting_at(p, j))
                ==> !r.contains_key(k)
        }),
{
    let r = updated(m, p, v, stale);
    let m1 = m.remove(old_pfx);
    let s = parting_at(p, i);
    assert(is_first_compatible(m, p, old_pfx));
    lemma_first_compatible(m, p, old_pfx);
    assert(r == replaced(m, old_pfx, p, v));
    assert forall|j: int| 0 < j <= p.len() implies #[trigger] prefix::sibling(p.take(j))
        == parting_at(p, j) by {
        assert(p.take(j).drop_last() =~= p.take(j - 1));
    }
    assert(s.len() == i);
    assert(s != p) by {
        assert(s[i - 1] != p[i - 1]);
    }
    assert(s == prefix::sibling(p.take(i)));
    if forall|j: int| i <= j <= p.len() ==> !m.contains_key(#[trigger] parting_at(p, j)) {
        assert forall|j: int| i <= j <= p.len() implies !m1.contains_key(
            #[trigger] prefix::sibling(p.take(j)),
        ) by {
            assert(!m.contains_key(parting_at(p, j)));
        }
        assert(left_over(m1, old_pfx, p, s));
        assert(!m.contains_key(parting_at(p, i)));
    }
    if exists|j: int| i <= j <= p.len() && m.contains_key(#[trigger] parting_at(p, j)) {
        let j = choose|j: int|
            i <= j <= p.len() && m.contains_key(#[trigger] parting_at(p, j));
        assert(parting_at(p, j).len() == j);
        assert(m1.contains_key(prefix::sibling(p.take(j))));
        assert(!left_over(m1, old_pfx, p, s));
    }
    if left_over(m1, old_pfx, p, k) {
        assert(k == parting_at(p, k.len() as int));
    }
    assert(!left_over(m1, old_pfx, p, old_pfx));
}

} // verus!
