//! A persistent stack: an immutable singly-linked list of reference-counted
//! nodes with a cached length. Pushing and popping never mutate the receiver;
//! the tail of the new stack is shared by structural reference with the old
//! one, which makes snapshots cheap.

use std::sync::Arc;
use vstd::prelude::*;

verus! {

struct Node<T> {
    element: T,
    next: Option<Arc<Node<T>>>,
}

/// Persistent stack. The abstract value (the view) is the sequence of
/// elements, newest first.
pub struct Stack<T> {
    head: Option<Arc<Node<T>>>,
    len: usize,
}

/// A cursor over a stack, yielding references to the elements newest first.
/// Its view is the sequence of elements not yet yielded.
pub struct Iter<'a, T> {
    next: Option<&'a Node<T>>,
}

/// The sequence of elements reachable from a link, newest first.
spec fn link_seq<T>(link: Option<Arc<Node<T>>>) -> Seq<T>
    decreases link,
{
    match link {
        None => Seq::empty(),
        Some(node) => seq![node.element] + link_seq(node.next),
    }
}

/// Relies on Arc::clone of std: the clone points at the same allocation as
/// the original, so both hold the same value.
#[verifier::external_body]
fn arc_clone<T>(a: &Arc<T>) -> (r: Arc<T>)
    ensures
        r == *a,
{
    Arc::clone(a)
}

impl<T> View for Stack<T> {
    type V = Seq<T>;

    closed spec fn view(&self) -> Seq<T> {
        link_seq(self.head)
    }
}

impl<T> Stack<T> {
    #[verifier::type_invariant]
    spec fn wf(self) -> bool {
        self.len == link_seq(self.head).len()
    }

    /// Creates a new, empty stack.
    pub fn new() -> (r: Self)
        ensures
            r@ == Seq::<T>::empty(),
    {
        Stack { head: None, len: 0 }
    }

    /// Returns a new stack whose head is a fresh node holding `elem` and
    /// pointing at the previous head. The receiver is unchanged.
    pub fn append(&self, elem: T) -> (r: Self)
        requires
            self@.len() < usize::MAX,
        ensures
            r@ == seq![elem] + self@,
    {
        proof {
            use_type_invariant(self);
        }
        let next: Option<Arc<Node<T>>> = match &self.head {
            None => None,
            Some(a) => Some(arc_clone(a)),
        };
        Stack { head: Some(Arc::new(Node { element: elem, next })), len: self.len + 1 }
    }

    /// Returns a reference to the newest element, if any.
    pub fn head(&self) -> (r: Option<&T>)
        ensures
            self@.len() == 0 ==> r is None,
            self@.len() > 0 ==> (r matches Some(e) && *e == self@[0]),
    {
        match &self.head {
            None => None,
            Some(node) => Some(&node.element),
        }
    }

    /// Returns the newest element (if any) together with the stack of the
    /// remaining elements. On an empty stack, returns the empty stack again.
    pub fn tail(&self) -> (r: (Option<&T>, Self))
        ensures
            self@.len() == 0 ==> r.0 is None && r.1@ == self@,
            self@.len() > 0 ==> (r.0 matches Some(e) && *e == self@[0]) && r.1@ == self@.skip(1),
    {
        proof {
            use_type_invariant(self);
        }
        match &self.head {
            None => (None, Stack { head: None, len: 0 }),
            Some(node) => {
                let next: Option<Arc<Node<T>>> = match &node.next {
                    None => None,
                    Some(a) => Some(arc_clone(a)),
                };
                (Some(&node.element), Stack { head: next, len: self.len - 1 })
            },
        }
    }

    /// Returns the number of elements in constant time.
    pub fn len(&self) -> (r: usize)
        ensures
            r == self@.len(),
    {
        proof {
            use_type_invariant(self);
        }
        self.len
    }

    /// Returns a cursor positioned at the newest element.
    pub fn iter(&self) -> (r: Iter<'_, T>)
        ensures
            r@ == self@,
    {
        Iter {
            next: match &self.head {
                None => None,
                Some(a) => Some(&**a),
            },
        }
    }
}

/// The value a stack's `tail` leaves behind: the stack without its newest
/// element, or the empty stack unchanged.
pub open spec fn tail_seq<T>(s: Seq<T>) -> Seq<T> {
    if s.len() == 0 {
        s
    } else {
        s.skip(1)
    }
}

/// Pushing an element and then taking the tail yields the original stack:
/// for every stack value `s` and element `e`, the stack part of
/// `append(e).tail()` equals `s`.
pub proof fn lemma_append_then_tail<T>(s: Seq<T>, e: T)
    ensures
        tail_seq(seq![e] + s) == s,
{
    assert((seq![e] + s).skip(1) =~= s);
}

/// Taking the tail never lengthens a stack: for every stack value `s`,
/// `len(s)` is at least the length of `tail()`'s stack part.
pub proof fn lemma_tail_len<T>(s: Seq<T>)
    ensures
        s.len() >= tail_seq(s).len(),
{
}

/// Pushing grows the length by exactly one: for every stack value `s` and
/// element `e`, the stack `append(e)` has length `len(s) + 1`.
pub proof fn lemma_append_len<T>(s: Seq<T>, e: T)
    ensures
        (seq![e] + s).len() == s.len() + 1,
{
}

impl<T> Clone for Stack<T> {
    /// The clone shares the original's nodes and has the same abstract value.
    fn clone(&self) -> (r: Self)
        ensures
            r@ == self@,
    {
        proof {
            use_type_invariant(self);
        }
        let head: Option<Arc<Node<T>>> = match &self.head {
            None => None,
            Some(a) => Some(arc_clone(a)),
        };
        Stack { head, len: self.len }
    }
}

impl<'a, T> View for Iter<'a, T> {
    type V = Seq<T>;

    closed spec fn view(&self) -> Seq<T> {
        match self.next {
            None => Seq::empty(),
            Some(node) => seq![node.element] + link_seq(node.next),
        }
    }
}

impl<'a, T> Iter<'a, T> {
    /// Yields a reference to the next element, newest first, or `None` once
    /// every element has been yielded.
    pub fn next(&mut self) -> (r: Option<&'a T>)
        ensures
            old(self)@.len() == 0 ==> r is None && final(self)@ == old(self)@,
            old(self)@.len() > 0 ==> (r matches Some(e) && *e == old(self)@[0]) && final(self)@
                == old(self)@.skip(1),
    {
        match self.next {
            None => None,
            Some(node) => {
                self.next = match &node.next {
                    None => None,
                    Some(a) => Some(&**a),
                };
                Some(&node.element)
            },
        }
    }
}

} // verus!
