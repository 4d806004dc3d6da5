//! A persistent list: the one collection the checker keeps in its state.
//!
//! Control-flow analysis takes a snapshot of its state at every branch and
//! puts it back later. With a list whose tail is shared, a snapshot costs one
//! reference count, and two lists are equal exactly when their elements are.

use std::rc::Rc;
use vstd::prelude::*;

verus! {

/// Executable equality that decides equality of values.
pub trait Same: Sized {
    fn same(&self, other: &Self) -> (equal: bool)
        ensures
            equal == (*self == *other),
    ;
}

/// A copy that is equal to the value it was made from.
pub trait Duplicate: Sized {
    fn duplicate(&self) -> (copy: Self)
        ensures
            copy == *self,
    ;
}

/// The last element of a non-empty list, and the list before it.
pub struct Link<T> {
    pub rest: Chain<T>,
    pub item: T,
}

/// A list that grows at its end and shares its front.
pub enum Chain<T> {
    Empty,
    Link(Rc<Link<T>>),
}

impl<T> Chain<T> {
    /// The elements, first to last.
    pub open spec fn seq(self) -> Seq<T>
        decreases self,
    {
        match self {
            Chain::Empty => Seq::empty(),
            Chain::Link(link) => link.rest.seq().push(link.item),
        }
    }

    /// The list with `item` behind its last element.
    pub open spec fn pushed(self, item: T) -> Chain<T> {
        Chain::Link(Rc::new(Link { rest: self, item }))
    }

    /// How many elements the list has.
    pub open spec fn spec_len(self) -> nat
        decreases self,
    {
        match self {
            Chain::Empty => 0,
            Chain::Link(link) => link.rest.spec_len() + 1,
        }
    }

    /// The elements of `self`, then those of `other`.
    pub open spec fn joined(self, other: Chain<T>) -> Chain<T>
        decreases other,
    {
        match other {
            Chain::Empty => self,
            Chain::Link(link) => self.joined(link.rest).pushed(link.item),
        }
    }

    pub fn new() -> (chain: Self)
        ensures
            chain == Chain::<T>::Empty,
            chain.seq() == Seq::<T>::empty(),
    {
        Chain::Empty
    }

    pub fn is_empty(&self) -> (empty: bool)
        ensures
            empty == (self is Empty),
            empty == (self.seq().len() == 0),
    {
        match self {
            Chain::Empty => true,
            Chain::Link(_) => false,
        }
    }

    pub fn push(&mut self, item: T)
        ensures
            *final(self) == old(self).pushed(item),
            final(self).seq() == old(self).seq().push(item),
    {
        let rest = self.clone();
        *self = Chain::Link(Rc::new(Link { rest, item }));
    }

    /// `push` that hands the longer list back.
    pub fn with(self, item: T) -> (chain: Self)
        ensures
            chain == self.pushed(item),
            chain.seq() == self.seq().push(item),
    {
        Chain::Link(Rc::new(Link { rest: self, item }))
    }

    /// The list without its last element.
    pub open spec fn without_last(self) -> Chain<T> {
        match self {
            Chain::Empty => self,
            Chain::Link(link) => link.rest,
        }
    }

    /// Drops the last element, if there is one.
    pub fn drop_last(&mut self)
        ensures
            *final(self) == old(self).without_last(),
    {
        let rest = match &self {
            Chain::Empty => Chain::Empty,
            Chain::Link(link) => link.rest.clone(),
        };
        *self = rest;
    }

    pub fn last(&self) -> (item: Option<&T>)
        ensures
            match self {
                Chain::Empty => item is None,
                Chain::Link(link) => item == Some(&link.item),
            },
    {
        match &self {
            Chain::Empty => None,
            Chain::Link(link) => Some(&link.item),
        }
    }

    /// The list of the elements of `items`, in order.
    pub fn from_vec(items: Vec<T>) -> (chain: Self)
        ensures
            chain.seq() == items@,
    {
        let mut source: Vec<T> = items;
        let mut reversed: Vec<T> = Vec::new();
        while source.len() > 0
            invariant
                source@ + reversed@.reverse() == items@,
            decreases source@.len(),
        {
            let ghost before = source@;
            let ghost done = reversed@;
            match source.pop() {
                Some(item) => {
                    reversed.push(item);
                    assert(done.push(item).reverse() =~= seq![item] + done.reverse());
                    assert(before =~= source@.push(item));
                    assert(source@ + (seq![item] + done.reverse()) =~= before + done.reverse());
                },
                None => {},
            }
        }
        assert(reversed@.reverse() =~= items@);
        let mut chain: Chain<T> = Chain::Empty;
        while reversed.len() > 0
            invariant
                chain.seq() + reversed@.reverse() == items@,
            decreases reversed@.len(),
        {
            let ghost before = reversed@;
            let ghost done = chain.seq();
            match reversed.pop() {
                Some(item) => {
                    chain = chain.with(item);
                    assert(before.reverse() =~= seq![item] + reversed@.reverse());
                    assert(done.push(item) + reversed@.reverse() =~= done + before.reverse());
                },
                None => {},
            }
        }
        assert(chain.seq() =~= items@);
        chain
    }

    /// The number of elements, or the largest `usize` for a longer list.
    pub open spec fn count(self) -> usize {
        if self.spec_len() <= usize::MAX {
            self.spec_len() as usize
        } else {
            usize::MAX
        }
    }

    pub fn len(&self) -> (length: usize)
        ensures
            length == self.count(),
        decreases self,
    {
        match &self {
            Chain::Empty => 0,
            Chain::Link(link) => {
                let length: usize = link.rest.len();
                if length < usize::MAX {
                    length + 1
                } else {
                    length
                }
            },
        }
    }
}

impl<T: Duplicate> Chain<T> {
    /// The elements as a vector.
    pub fn to_vec(&self) -> (items: Vec<T>)
        ensures
            items@ == self.seq(),
        decreases self,
    {
        match &self {
            Chain::Empty => Vec::new(),
            Chain::Link(link) => {
                let mut items: Vec<T> = link.rest.to_vec();
                items.push(link.item.duplicate());
                items
            },
        }
    }

    /// The elements of `self`, then those of `other`.
    pub fn join(&self, other: &Self) -> (chain: Self)
        ensures
            chain == self.joined(*other),
        decreases other,
    {
        match &other {
            Chain::Empty => self.clone(),
            Chain::Link(link) => self.join(&link.rest).with(link.item.duplicate()),
        }
    }
}

/// Whether two lists have the same number of elements.
pub fn same_length<A, B>(left: &Chain<A>, right: &Chain<B>) -> (same: bool)
    ensures
        same == (left.spec_len() == right.spec_len()),
    decreases left,
{
    match (&left, &right) {
        (Chain::Empty, Chain::Empty) => true,
        (Chain::Link(a), Chain::Link(b)) => same_length(&a.rest, &b.rest),
        _ => false,
    }
}

impl<T> Clone for Chain<T> {
    fn clone(&self) -> (copy: Self)
        ensures
            copy == *self,
    {
        match &self {
            Chain::Empty => Chain::Empty,
            Chain::Link(link) => Chain::Link(link.clone()),
        }
    }
}

impl<T: Same> Same for Chain<T> {
    fn same(&self, other: &Self) -> (equal: bool)
        decreases self,
    {
        match (&self, &other) {
            (Chain::Empty, Chain::Empty) => true,
            (Chain::Link(left), Chain::Link(right)) => {
                left.item.same(&right.item) && left.rest.same(&right.rest)
            },
            _ => false,
        }
    }
}

/// A list has as many elements as links.
pub proof fn lemma_len<T>(chain: Chain<T>)
    ensures
        chain.seq().len() == chain.spec_len(),
    decreases chain,
{
    if chain is Link {
        lemma_len(chain.without_last());
    }
}

/// Joining lists joins their elements.
pub proof fn law_joined_concatenates<T>(left: Chain<T>, right: Chain<T>)
    ensures
        left.joined(right).seq() == left.seq() + right.seq(),
    decreases right,
{
    if right is Link {
        law_joined_concatenates(left, right.without_last());
        assert(left.seq() + right.seq() =~= (left.seq() + right.without_last().seq()).push(
            right->0.item,
        ));
    } else {
        assert(left.seq() + right.seq() =~= left.seq());
    }
}

/// Lists with the same elements in the same order are equal.
pub proof fn law_equal_elements_equal_lists<T>(left: Chain<T>, right: Chain<T>)
    requires
        left.seq() == right.seq(),
    ensures
        left == right,
    decreases left,
{
    if left is Link && right is Link {
        assert(left.seq().drop_last() =~= left.without_last().seq());
        assert(right.seq().drop_last() =~= right.without_last().seq());
        assert(left.seq().last() == left->0.item);
        assert(right.seq().last() == right->0.item);
        law_equal_elements_equal_lists(left.without_last(), right.without_last());
    } else if left is Link {
        assert(left.seq().len() > 0);
    } else if right is Link {
        assert(right.seq().len() > 0);
    }
}

} // verus!
