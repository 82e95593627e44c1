//! A singly-linked, last-in-first-out stack.
//!
//! Each node owns its successor, so the chain is finite and acyclic by
//! construction. The abstract value of a stack is the sequence of its
//! items from head to tail: index 0 is the most recently pushed item.

use vstd::prelude::*;

verus! {

/// One storage cell: an item and exclusive ownership of the rest of the chain.
/// The type is public only so that contracts can speak of the cursor of
/// `IterMut`; it offers nothing callable and its fields stay private.
pub struct Node<T> {
    item: T,
    next: Link<T>,
}

/// Exclusive ownership of the following node, or the end of the chain.
type Link<T> = Option<Box<Node<T>>>;

/// A last-in-first-out stack of `T`, stored as a chain of heap nodes.
pub struct Stack<T> {
    head: Link<T>,
}

/// The items stored in a node and everything below it, head first.
pub closed spec fn node_view<T>(node: Node<T>) -> Seq<T>
    decreases node,
{
    seq![node.item] + link_view(node.next)
}

/// The items held by a chain, head first.
spec fn link_view<T>(link: Link<T>) -> Seq<T>
    decreases link,
{
    match link {
        None => Seq::empty(),
        Some(node) => node_view(*node),
    }
}

impl<T> View for Stack<T> {
    type V = Seq<T>;

    /// The items of the stack, most recently pushed first.
    closed spec fn view(&self) -> Seq<T> {
        link_view(self.head)
    }
}

impl<T> Stack<T> {
    /// Returns an empty stack.
    pub fn new() -> (s: Self)
        ensures
            s@ == Seq::<T>::empty(),
    {
        Stack { head: None }
    }

    /// Pushes `item` on top of the stack.
    pub fn push(&mut self, item: T)
        ensures
            final(self)@ == seq![item] + old(self)@,
    {
        let next = self.head.take();
        self.head = Some(Box::new(Node { item, next }));
    }

    /// Removes and returns the top item, or `None` when the stack is empty.
    pub fn pop(&mut self) -> (r: Option<T>)
        ensures
            old(self)@.len() == 0 ==> r is None && final(self)@ == old(self)@,
            old(self)@.len() != 0 ==> r == Some(old(self)@[0]) && final(self)@ == old(self)@.drop_first(),
    {
        match self.head.take() {
            None => None,
            Some(node) => {
                let node = *node;
                self.head = node.next;
                proof {
                    assert(final(self)@ =~= old(self)@.drop_first());
                }
                Some(node.item)
            },
        }
    }

    /// Returns an exclusive reference to the top item, or `None` when the
    /// stack is empty. Writes through the reference land in the head slot.
    pub fn peek_mut(&mut self) -> (r: Option<&mut T>)
        ensures
            old(self)@.len() == 0 ==> r is None && final(self)@ == old(self)@,
            old(self)@.len() != 0 ==> r is Some && *r.unwrap() == old(self)@[0]
                && final(self)@ =~= old(self)@.update(0, *final(r.unwrap())),
    {
        match &mut self.head {
            None => None,
            Some(node) => Some(&mut node.item),
        }
    }

    /// Returns a reference to the top item, or `None` when the stack is empty.
    pub fn peek(&self) -> (r: Option<&T>)
        ensures
            self@.len() == 0 ==> r is None,
            self@.len() != 0 ==> r is Some && *r.unwrap() == self@[0],
    {
        match &self.head {
            None => None,
            Some(node) => Some(&node.item),
        }
    }

    /// Returns a read-only producer over the items, head first.
    /// The stack itself is left untouched.
    pub fn iter(&self) -> (it: Iter<'_, T>)
        ensures
            it@ == self@,
    {
        Iter {
            next: match &self.head {
                None => None,
                Some(node) => Some(&**node),
            },
        }
    }

    /// Removes every item, releasing the nodes one at a time: each step
    /// detaches the head's successor before the head's shell is discarded,
    /// so no release recurses into the next node.
    fn clear(&mut self)
        ensures
            final(self)@ == Seq::<T>::empty(),
        opens_invariants none
        no_unwind
    {
        let mut curr: Link<T> = None;
        core::mem::swap(&mut curr, &mut self.head);
        loop
            decreases link_view(curr).len(),
        {
            match curr {
                None => {
                    break;
                },
                Some(node) => {
                    let node = *node;
                    curr = node.next;
                },
            }
        }
    }

    /// Returns a producer of exclusive references to the items, head first.
    /// While the producer or any reference it has handed out is alive, the
    /// stack itself cannot be touched; the items the stack holds once the
    /// borrow ends are whatever was written through those references.
    pub fn iter_mut(&mut self) -> (it: IterMut<'_, T>)
        ensures
            it.remaining() == old(self)@,
            final(self)@ == (match it.cursor() {
                None => Seq::<T>::empty(),
                Some(c) => node_view(*final(c)),
            }),
    {
        IterMut {
            next: match &mut self.head {
                None => None,
                Some(node) => Some(&mut **node),
            },
        }
    }

    /// Consumes the stack and returns a producer of its items, head first.
    pub fn into_iter(self) -> (it: IntoIter<T>)
        ensures
            it@ == self@,
    {
        IntoIter(self)
    }
}

impl<T> Drop for Stack<T> {
    /// Walks the chain iteratively. The default teardown would recurse once
    /// per node and could exhaust the call stack on a long chain; this does
    /// the same work in constant stack space, and must leave the stack empty
    /// so that the automatic drop of the fields finds nothing to recurse into.
    fn drop(&mut self)
        ensures
            final(self)@ == Seq::<T>::empty(),
        opens_invariants none
        no_unwind
    {
        self.clear();
    }
}

/// A producer that drains a stack it owns; each step pops the current head.
pub struct IntoIter<T>(Stack<T>);

impl<T> View for IntoIter<T> {
    type V = Seq<T>;

    /// The items not yet produced, in the order they will come out.
    closed spec fn view(&self) -> Seq<T> {
        self.0@
    }
}

impl<T> IntoIter<T> {
    /// Removes and returns the next item, or `None` once the stack is drained.
    pub fn next(&mut self) -> (r: Option<T>)
        ensures
            old(self)@.len() == 0 ==> r is None && final(self)@ == old(self)@,
            old(self)@.len() != 0 ==> r == Some(old(self)@[0]) && final(self)@ == old(self)@.drop_first(),
    {
        self.0.pop()
    }
}

/// A producer of read-only references to a stack's items, head to tail.
/// It borrows the stack and leaves it unchanged.
pub struct Iter<'a, T> {
    next: Option<&'a Node<T>>,
}

impl<'a, T> View for Iter<'a, T> {
    type V = Seq<T>;

    /// The items not yet produced, in the order they will come out.
    closed spec fn view(&self) -> Seq<T> {
        match self.next {
            None => Seq::empty(),
            Some(node) => node_view(*node),
        }
    }
}

impl<'a, T> Iter<'a, T> {
    /// Returns a reference to the next item, or `None` once every item has
    /// been produced. An exhausted producer stays exhausted.
    pub fn next(&mut self) -> (r: Option<&'a T>)
        ensures
            old(self)@.len() == 0 ==> r is None && final(self)@ == old(self)@,
            old(self)@.len() != 0 ==> r is Some && *r.unwrap() == old(self)@[0]
                && final(self)@ =~= old(self)@.drop_first(),
    {
        match self.next {
            None => None,
            Some(node) => {
                self.next = match &node.next {
                    None => None,
                    Some(n) => Some(&**n),
                };
                Some(&node.item)
            },
        }
    }
}

/// A producer of exclusive references to a stack's items, head to tail.
/// The references it hands out cover disjoint nodes, so no two of them
/// alias; the borrowed stack keeps whatever is written through them.
pub struct IterMut<'a, T> {
    next: Option<&'a mut Node<T>>,
}

impl<'a, T> IterMut<'a, T> {
    /// The items not yet produced, as they stand now, in the order they
    /// will come out.
    pub closed spec fn remaining(&self) -> Seq<T> {
        match self.next {
            None => Seq::empty(),
            Some(node) => node_view(*node),
        }
    }

    /// The node not yet produced that the producer stands on, if any.
    /// `node_view` of the value this node settles to, once every borrow has
    /// ended, is what the borrowed part of the stack will hold afterwards.
    pub closed spec fn cursor(&self) -> Option<&'a mut Node<T>> {
        self.next
    }

    /// Returns an exclusive reference to the next item, or `None` once every
    /// item has been produced. An exhausted producer stays exhausted.
    pub fn next(&mut self) -> (r: Option<&'a mut T>)
        ensures
            old(self).remaining().len() == 0 ==> r is None
                && final(self).remaining() == old(self).remaining()
                && old(self).cursor() is None && final(self).cursor() is None,
            old(self).remaining().len() != 0 ==> r is Some
                && *r.unwrap() == old(self).remaining()[0]
                && final(self).remaining() =~= old(self).remaining().drop_first()
                && (match old(self).cursor() {
                    None => false,
                    Some(c) => node_view(*final(c)) =~= seq![*final(r.unwrap())]
                        + (match final(self).cursor() {
                            None => Seq::<T>::empty(),
                            Some(m) => node_view(*final(m)),
                        }),
                }),
    {
        match self.next.take() {
            None => None,
            Some(node) => {
                self.next = match &mut node.next {
                    None => None,
                    Some(n) => Some(&mut **n),
                };
                Some(&mut node.item)
            },
        }
    }
}

/// The items a stack holds after the items of `xs` are pushed onto it in
/// order, left to right, when it held `v` before. Each step is exactly what
/// `push` promises: the new item is prepended to the view.
pub open spec fn pushed_all<T>(v: Seq<T>, xs: Seq<T>) -> Seq<T>
    decreases xs.len(),
{
    if xs.len() == 0 {
        v
    } else {
        pushed_all(seq![xs[0]] + v, xs.drop_first())
    }
}

/// The items returned by `n` successive pops from a stack holding `v`,
/// in the order they come out. Each step is exactly what `pop` promises:
/// the head is returned and the view loses its first item.
pub open spec fn popped_seq<T>(v: Seq<T>, n: nat) -> Seq<T>
    decreases n,
{
    if n == 0 {
        Seq::empty()
    } else {
        seq![v[0]] + popped_seq(v.drop_first(), (n - 1) as nat)
    }
}

/// Pushing the items of `xs` in order prepends them reversed.
proof fn lemma_pushed_all_is_reverse<T>(v: Seq<T>, xs: Seq<T>)
    ensures
        pushed_all(v, xs) == xs.reverse() + v,
    decreases xs.len(),
{
    if xs.len() == 0 {
        assert(pushed_all(v, xs) =~= xs.reverse() + v);
    } else {
        lemma_pushed_all_is_reverse(seq![xs[0]] + v, xs.drop_first());
        assert(xs.drop_first().reverse() + (seq![xs[0]] + v) =~= xs.reverse() + v);
    }
}

/// `n` pops return the first `n` items of the view, in view order.
proof fn lemma_popped_seq_is_take<T>(v: Seq<T>, n: nat)
    requires
        n <= v.len(),
    ensures
        popped_seq(v, n) == v.take(n as int),
    decreases n,
{
    if n == 0 {
        assert(popped_seq(v, n) =~= v.take(n as int));
    } else {
        lemma_popped_seq_is_take(v.drop_first(), (n - 1) as nat);
        assert(seq![v[0]] + v.drop_first().take(n - 1) =~= v.take(n as int));
    }
}

/// Last in, first out: on a stack holding `v`, pushing the items of `xs` in
/// order and then popping as many times returns exactly the items of `xs` in
/// reverse order, and leaves the stack holding `v` again.
pub proof fn lemma_push_then_pop_lifo<T>(v: Seq<T>, xs: Seq<T>)
    ensures
        popped_seq(pushed_all(v, xs), xs.len()) == xs.reverse(),
        pushed_all(v, xs).skip(xs.len() as int) == v,
{
    lemma_pushed_all_is_reverse(v, xs);
    lemma_popped_seq_is_take(pushed_all(v, xs), xs.len());
    assert((xs.reverse() + v).take(xs.len() as int) =~= xs.reverse());
    assert((xs.reverse() + v).skip(xs.len() as int) =~= v);
}

} // verus!
