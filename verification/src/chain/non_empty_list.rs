//! A list that is never empty.

use vstd::prelude::*;
use vstd::std_specs::cmp::PartialEqSpec;
use vstd::string::*;

use crate::text;
use crate::value::{self, same_list, Value};

verus! {

/// Vec-like container that is guaranteed to contain at least one element.
pub struct NonEmptyList<T> {
    head: Vec<T>,
    tail: T,
}

impl<T> View for NonEmptyList<T> {
    type V = Seq<T>;

    closed spec fn view(&self) -> Seq<T> {
        self.head@.push(self.tail)
    }
}

impl<T> NonEmptyList<T> {
    /// The list with one item.
    pub fn new(first: T) -> (r: Self)
        ensures
            r@ == seq![first],
    {
        let r = NonEmptyList { head: Vec::new(), tail: first };
        assert(r@ =~= seq![first]);
        r
    }

    /// The list made of the items of `head` followed by `tail`.
    pub fn from_parts(head: Vec<T>, tail: T) -> (r: Self)
        ensures
            r@ == head@.push(tail),
    {
        NonEmptyList { head, tail }
    }

    /// Appends an item.
    pub fn push(&mut self, item: T)
        ensures
            final(self)@ == old(self)@.push(item),
    {
        let mut previous = item;
        std::mem::swap(&mut previous, &mut self.tail);
        self.head.push(previous);
    }

    /// The number of items.
    pub fn len(&self) -> (r: usize)
        requires
            self@.len() <= usize::MAX,
        ensures
            r == self@.len(),
            r > 0,
    {
        self.head.len() + 1
    }

    /// The items in order.
    pub fn iter(&self) -> (r: Vec<&T>)
        ensures
            r@.len() == self@.len(),
            forall|i: int| 0 <= i < r@.len() ==> *#[trigger] r@[i] == self@[i],
    {
        let mut r: Vec<&T> = Vec::new();
        for i in 0..self.head.len()
            invariant
                r@.len() == i,
                forall|j: int| 0 <= j < i ==> *#[trigger] r@[j] == self.head@[j],
        {
            r.push(&self.head[i]);
        }
        r.push(&self.tail);
        r
    }

    /// The items before the last one.
    pub fn head(&self) -> (r: &Vec<T>)
        ensures
            r@ == self@.drop_last(),
            self@.len() > 0,
    {
        assert(self@.drop_last() =~= self.head@);
        &self.head
    }

    /// The last item.
    pub fn last(&self) -> (r: &T)
        ensures
            *r == self@.last(),
            self@.len() > 0,
    {
        &self.tail
    }
}

impl<T: Value> NonEmptyList<T> {
    /// Whether both lists hold the same values in the same order.
    pub fn same(&self, other: &Self) -> (r: bool)
        ensures
            r == (value::views(self@) == value::views(other@)),
    {
        let ghost a = value::views(self@);
        let ghost b = value::views(other@);
        assert(a =~= value::views(self.head@).push(self.tail@));
        assert(b =~= value::views(other.head@).push(other.tail@));
        assert(a.drop_last() =~= value::views(self.head@));
        assert(b.drop_last() =~= value::views(other.head@));
        assert(a.last() == self.tail@ && b.last() == other.tail@);
        same_list(&self.head, &other.head) && self.tail.same(&other.tail)
    }
}

impl<T: Value> PartialEq for NonEmptyList<T> {
    fn eq(&self, other: &Self) -> (r: bool) {
        self.same(other)
    }
}

impl<T: Value> vstd::std_specs::cmp::PartialEqSpecImpl for NonEmptyList<T> {
    open spec fn obeys_eq_spec() -> bool {
        true
    }

    open spec fn eq_spec(&self, other: &Self) -> bool {
        value::views(self@) == value::views(other@)
    }
}

impl<T: Value> Eq for NonEmptyList<T> {

}

impl NonEmptyList<String> {
    /// The text of a list whose items have these texts: the items in brackets, with commas between.
    pub fn fmt(&self) -> (r: String)
        ensures
            r@ == "["@ + text::joined(value::views(self@), ", "@) + "]"@,
    {
        let mut texts: Vec<String> = Vec::new();
        for i in 0..self.head.len()
            invariant
                texts@.len() == i,
                forall|j: int| 0 <= j < i ==> #[trigger] texts@[j] == self.head@[j],
        {
            texts.push(self.head[i].clone());
        }
        texts.push(self.tail.clone());
        assert(texts@ =~= self@);
        String::from_str("[").concat(text::join(&texts, ", ").as_str()).concat("]")
    }
}

/// There is always an item.
pub proof fn law_never_empty<T>(list: NonEmptyList<T>)
    ensures
        list@.len() > 0,
{
}

/// Two lists are equal exactly if they have as many items and the same ones at the same places.
pub proof fn law_equal_lists<T: Value>(a: NonEmptyList<T>, b: NonEmptyList<T>)
    ensures
        NonEmptyList::<T>::obeys_eq_spec(),
        a.eq_spec(&b) <==> a@.len() == b@.len()
            && forall|i: int| 0 <= i < a@.len() ==> (#[trigger] a@[i])@ == b@[i]@,
{
    let (x, y) = (value::views(a@), value::views(b@));
    if x == y {
        assert(x.len() == y.len());
        assert forall|i: int| 0 <= i < a@.len() implies (#[trigger] a@[i])@ == b@[i]@ by {
            assert(x[i] == y[i]);
        }
    }
    if a@.len() == b@.len() && forall|i: int|
        0 <= i < a@.len() ==> (#[trigger] a@[i])@ == b@[i]@ {
        assert(x =~= y);
    }
}

} // verus!
