//! Which names are closest to a given one.

use vstd::prelude::*;

use crate::ordered_map::{self, OrderedKey, OrderedSet};
use crate::value;
use crate::xor_name::{self, XorName};

verus! {

/// `list` holds exactly the given names, each once, the closest to `target` first.
pub open spec fn closest_first(
    list: Seq<Seq<u8>>,
    names: Set<Seq<u8>>,
    target: Seq<u8>,
) -> bool {
    &&& list.to_set() == names
    &&& forall|i: int, j: int|
        0 <= i < j < list.len() ==> xor_name::bytes_before(
            xor_name::distance(#[trigger] list[i], target),
            xor_name::distance(#[trigger] list[j], target),
        )
}

/// `closest` is the first `count` names, as far as there are so many, the closest first.
pub open spec fn are_closest(
    closest: Seq<Seq<u8>>,
    names: Set<Seq<u8>>,
    target: Seq<u8>,
    count: int,
) -> bool {
    exists|list: Seq<Seq<u8>>| #[trigger]
        closest_first(list, names, target) && closest == list.take(
            if count < list.len() {
                count
            } else {
                list.len() as int
            },
        )
}

/// The distances of the first `n` names.
spec fn distances_of(names: Seq<Seq<u8>>, target: Seq<u8>, n: int) -> Set<Seq<u8>> {
    Set::new(
        |d: Seq<u8>|
            exists|i: int|
                0 <= i < n && d == xor_name::distance(#[trigger] names[i], target),
    )
}

/// The `count` names that are closest to `target`, the closest first.
pub fn closest_names(names: &Vec<XorName>, target: &XorName, count: usize) -> (r: Vec<XorName>)
    ensures
        are_closest(value::views(r@), value::views(names@).to_set(), target@, count as int),
{
    let ghost all = value::views(names@);
    let mut distances: OrderedSet<XorName> = OrderedSet::new();
    assert(distances@ =~= distances_of(all, target@, 0));
    for i in 0..names.len()
        invariant
            all == value::views(names@),
            distances@ == distances_of(all, target@, i as int),
    {
        let ghost d = xor_name::distance(all[i as int], target@);
        distances.insert(names[i].distance(target));
        assert(distances@ =~= distances_of(all, target@, i + 1)) by {
            assert forall|x: Seq<u8>| distances_of(all, target@, i + 1).contains(x) implies x == d
                || distances_of(all, target@, i as int).contains(x) by {
                let j = choose|j: int|
                    0 <= j < i + 1 && x == xor_name::distance(#[trigger] all[j], target@);
                if j < i {
                    assert(distances_of(all, target@, i as int).contains(x));
                }
            }
            assert(d == xor_name::distance(all[i as int], target@));
        }
    }
    let len = distances.len();
    let ghost listed = ordered_map::set_listing::<XorName>(distances@);
    let ghost list = Seq::new(listed.len(), |i: int| xor_name::distance(listed[i], target@));
    proof {
        lemma_list_is_closest_first(all, target@, listed);
    }
    let mut r: Vec<XorName> = Vec::new();
    let n: usize = if count < len {
        count
    } else {
        len
    };
    for i in 0..n
        invariant
            n <= len,
            len == listed.len(),
            listed == ordered_map::set_listing::<XorName>(distances@),
            list == Seq::new(listed.len(), |i: int| xor_name::distance(listed[i], target@)),
            r@.len() == i,
            forall|j: int| 0 <= j < i ==> (#[trigger] r@[j])@ == list[j],
    {
        r.push(distances.member_at(i).distance(target));
    }
    assert(value::views(r@) =~= list.take(n as int));
    r
}

proof fn lemma_list_is_closest_first(
    names: Seq<Seq<u8>>,
    target: Seq<u8>,
    listed: Seq<Seq<u8>>,
)
    requires
        target.len() == 32,
        forall|i: int| 0 <= i < names.len() ==> (#[trigger] names[i]).len() == 32,
        distances_of(names, target, names.len() as int).finite(),
        listed == ordered_map::set_listing::<XorName>(
            distances_of(names, target, names.len() as int),
        ),
    ensures
        closest_first(
            Seq::new(listed.len(), |i: int| xor_name::distance(listed[i], target)),
            names.to_set(),
            target,
        ),
{
    let distances = distances_of(names, target, names.len() as int);
    ordered_map::lemma_set_listing::<XorName>(distances);
    let list = Seq::new(listed.len(), |i: int| xor_name::distance(listed[i], target));
    assert forall|i: int| 0 <= i < listed.len() implies names.to_set().contains(
        #[trigger] list[i],
    ) && xor_name::distance(list[i], target) == listed[i] by {
        assert(listed.to_set().contains(listed[i]));
        let j = choose|j: int|
            0 <= j < names.len() && listed[i] == xor_name::distance(#[trigger] names[j], target);
        xor_name::lemma_distance_undone(names[j], target);
    }
    assert forall|x: Seq<u8>| names.to_set().contains(x) implies list.to_set().contains(x) by {
        let j = choose|j: int| 0 <= j < names.len() && #[trigger] names[j] == x;
        let d = xor_name::distance(names[j], target);
        assert(distances.contains(d));
        assert(listed.to_set().contains(d));
        let i = choose|i: int| 0 <= i < listed.len() && #[trigger] listed[i] == d;
        xor_name::lemma_distance_undone(names[j], target);
        assert(list[i] == x);
    }
    assert(list.to_set() =~= names.to_set());
    assert forall|i: int, j: int| 0 <= i < j < list.len() implies xor_name::bytes_before(
        xor_name::distance(#[trigger] list[i], target),
        xor_name::distance(#[trigger] list[j], target),
    ) by {
        assert(XorName::before(listed[i], listed[j]));
    }
}

/// No more names are closest than were asked for, and every name that is left out is farther away
/// than all of them.
pub proof fn law_left_out_names_are_farther(
    closest: Seq<Seq<u8>>,
    names: Set<Seq<u8>>,
    target: Seq<u8>,
    count: int,
    name: Seq<u8>,
)
    requires
        0 <= count,
        are_closest(closest, names, target, count),
    ensures
        closest.len() <= count,
        names.contains(name) && !closest.contains(name) ==> {
            &&& closest.len() == count
            &&& forall|i: int|
                0 <= i < closest.len() ==> xor_name::bytes_before(
                    xor_name::distance(#[trigger] closest[i], target),
                    xor_name::distance(name, target),
                )
        },
{
    let list = choose|list: Seq<Seq<u8>>| #[trigger]
        closest_first(list, names, target) && closest == list.take(
            if count < list.len() {
                count
            } else {
                list.len() as int
            },
        );
    if names.contains(name) && !closest.contains(name) {
        assert(list.to_set().contains(name));
        let j = choose|j: int| 0 <= j < list.len() && #[trigger] list[j] == name;
        if j < closest.len() {
            assert(closest[j] == name);
        }
        assert forall|i: int| 0 <= i < closest.len() implies xor_name::bytes_before(
            xor_name::distance(#[trigger] closest[i], target),
            xor_name::distance(name, target),
        ) by {
            assert(closest[i] == list[i]);
        }
    }
}

/// The closest names are as many as were asked for, or all if there are fewer, each once and from
/// the given ones, and a name that is closer comes first.
pub proof fn law_closest_names_in_order(
    closest: Seq<Seq<u8>>,
    names: Set<Seq<u8>>,
    target: Seq<u8>,
    count: int,
    i: int,
    j: int,
)
    requires
        0 <= count,
        names.finite(),
        are_closest(closest, names, target, count),
    ensures
        closest.len() == if count < names.len() {
            count
        } else {
            names.len() as int
        },
        0 <= i < closest.len() ==> names.contains(closest[i]),
        0 <= i < j < closest.len() ==> closest[i] != closest[j] && xor_name::bytes_before(
            xor_name::distance(closest[i], target),
            xor_name::distance(closest[j], target),
        ),
{
    let list = choose|list: Seq<Seq<u8>>| #[trigger]
        closest_first(list, names, target) && closest == list.take(
            if count < list.len() {
                count
            } else {
                list.len() as int
            },
        );
    assert forall|a: int, b: int| 0 <= a < list.len() && 0 <= b < list.len() && a != b implies
        list[a] != list[b] by {
        let (x, y) = if a < b {
            (a, b)
        } else {
            (b, a)
        };
        assert(xor_name::bytes_before(
            xor_name::distance(list[x], target),
            xor_name::distance(list[y], target),
        ));
        xor_name::lemma_bytes_before_irreflexive(xor_name::distance(list[x], target));
    }
    list.unique_seq_to_set();
    if 0 <= i < closest.len() {
        assert(closest[i] == list[i]);
        assert(list.to_set().contains(list[i]));
        if i < j < closest.len() {
            assert(closest[j] == list[j]);
        }
    }
}

/// A name that is asked for and is one of the given ones is the closest to itself.
pub proof fn law_name_is_closest_to_itself(
    closest: Seq<Seq<u8>>,
    names: Set<Seq<u8>>,
    target: Seq<u8>,
    count: int,
)
    requires
        0 < count,
        names.contains(target),
        forall|name: Seq<u8>| #[trigger] names.contains(name) ==> name.len() == target.len(),
        are_closest(closest, names, target, count),
    ensures
        closest.len() > 0,
        closest[0] == target,
{
    let list = choose|list: Seq<Seq<u8>>| #[trigger]
        closest_first(list, names, target) && closest == list.take(
            if count < list.len() {
                count
            } else {
                list.len() as int
            },
        );
    assert(list.to_set().contains(target));
    let k = choose|k: int| 0 <= k < list.len() && #[trigger] list[k] == target;
    if k > 0 {
        assert(list.to_set().contains(list[0]));
        let d = xor_name::distance(list[0], target);
        let z = xor_name::distance(target, target);
        assert(xor_name::bytes_before(d, xor_name::distance(list[k], target)));
        xor_name::law_distance_is_symmetric_and_zero_on_equal(target, target);
        xor_name::lemma_nothing_before_zero(d, z);
    }
    assert(closest[0] == list[0]);
}

} // verus!
