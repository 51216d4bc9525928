use vstd::prelude::*;
use vstd::string::to_string_from_display_ensures;

use crate::text::{bracketed, join_bracketed, texts};

verus! {

/// One cell of the chain: an element and exclusive ownership of the rest.
///
/// Its fields are public so that the contracts of [`ListIterMut`] can speak of
/// the node it points to; the type itself is not exported from the crate.
pub struct Node<T> {
    pub elem: T,
    pub next: Option<Box<Node<T>>>,
}

/// The elements held by a chain of nodes, front to back.
pub closed spec fn chain<T>(link: Option<Box<Node<T>>>) -> Seq<T>
    decreases link,
{
    match link {
        None => Seq::empty(),
        Some(node) => seq![node.elem].add(chain(node.next)),
    }
}

/// The elements from `node` to the end of its chain.
pub open spec fn elems_of<T>(node: Node<T>) -> Seq<T> {
    seq![node.elem].add(chain(node.next))
}

/// A singly linked list that owns its whole chain of nodes.
pub struct List<T> {
    head: Option<Box<Node<T>>>,
}

impl<T> View for List<T> {
    type V = Seq<T>;

    /// The elements of the list, front to back.
    closed spec fn view(&self) -> Seq<T> {
        chain(self.head)
    }
}

impl<T> List<T> {
    /// Creates an empty list.
    pub fn new() -> (r: Self)
        ensures
            r@ == Seq::<T>::empty(),
    {
        List { head: None }
    }

    /// Puts `elem` in front of the list.
    pub fn push(self, elem: T) -> (r: Self)
        ensures
            r@ == seq![elem].add(self@),
    {
        List { head: Some(Box::new(Node { elem, next: self.head })) }
    }

    /// Whether the list holds no element.
    pub fn is_empty(&self) -> (r: bool)
        ensures
            r == (self@.len() == 0),
    {
        self.head.is_none()
    }

    /// Detaches the first element, if any, and leaves the rest in the list.
    fn pop_front(&mut self) -> (r: Option<T>)
        ensures
            old(self)@.len() == 0 ==> r is None && final(self)@ == old(self)@,
            old(self)@.len() > 0 ==> r == Some(old(self)@[0]) && final(self)@ == old(
                self,
            )@.drop_first(),
    {
        match self.head.take() {
            None => None,
            Some(node) => {
                let Node { elem, next } = *node;
                self.head = next;
                proof {
                    assert(old(self)@.drop_first() =~= chain(next));
                }
                Some(elem)
            },
        }
    }

    /// The elements of `self` followed by those of `other`.
    ///
    /// Walks to the last node of `self` and hangs the chain of `other` there;
    /// an empty `self` gives back `other` itself.
    pub fn append(self, other: Self) -> (r: Self)
        ensures
            r@ == self@ + other@,
    {
        if self.head.is_none() {
            return other;
        }
        let ghost whole = self@;
        let ghost mut done: Seq<T> = Seq::empty();
        let mut head = self.head;
        let mut current = &mut head;
        loop
            invariant_except_break
                chain(*current).len() > 0,
                done + chain(*current) == whole,
                chain(after_borrow(head)) == done + chain(*final(current)),
            ensures
                chain(after_borrow(head)) == whole + other@,
            decreases chain(*current).len(),
        {
            match current {
                Some(node) => {
                    if node.next.is_none() {
                        proof {
                            assert(chain(node.next) =~= Seq::<T>::empty());
                            assert(whole =~= done + seq![node.elem]);
                        }
                        node.next = other.head;
                        proof {
                            assert(chain(Some(*node)) =~= seq![node.elem] + other@);
                            assert(chain(*final(current)) =~= seq![node.elem] + other@);
                        }
                        break;
                    }
                    proof {
                        done = done.push(node.elem);
                    }
                    current = &mut node.next;
                },
                None => {
                    break;
                },
            }
        }
        List { head }
    }

    /// Adds the elements of `items` at the end of the list, in their order.
    pub fn add(self, items: Vec<T>) -> (r: Self)
        ensures
            r@ == self@ + items@,
    {
        let ghost given = items@;
        let mut items = items;
        let mut tail = List::new();
        while items.len() > 0
            invariant
                items@ + tail@ == given,
            decreases items@.len(),
        {
            let ghost before = items@;
            match items.pop() {
                Some(elem) => {
                    proof {
                        assert(before =~= items@.push(elem));
                    }
                    tail = tail.push(elem);
                    proof {
                        assert(before + tail@.drop_first() =~= items@ + tail@);
                    }
                },
                None => {},
            }
        }
        self.append(tail)
    }

    /// The list with its elements in the opposite order.
    pub fn reverse(self) -> (r: Self)
        ensures
            r@ == self@.reverse(),
    {
        let mut rest = self;
        let mut reversed = List::new();
        while !rest.is_empty()
            invariant
                rest@.reverse() + reversed@ =~= self@.reverse(),
            decreases rest@.len(),
        {
            let ghost before = rest@;
            match rest.pop_front() {
                Some(elem) => {
                    proof {
                        assert(before.reverse() =~= rest@.reverse().push(elem));
                    }
                    reversed = reversed.push(elem);
                },
                None => {},
            }
        }
        reversed
    }

    /// The number of elements, counted by walking the chain.
    pub fn len(&self) -> (r: usize)
        requires
            self@.len() <= usize::MAX,
        ensures
            r == self@.len(),
    {
        let mut it = self.iter();
        let mut n: usize = 0;
        loop
            invariant_except_break
                self@.len() <= usize::MAX,
                n + it@.len() == self@.len(),
            ensures
                n == self@.len(),
            decreases it@.len(),
        {
            match it.next() {
                Some(_) => {
                    n = n + 1;
                },
                None => {
                    break;
                },
            }
        }
        n
    }

    /// A borrowing iterator over the elements, front to back.
    pub fn iter(&self) -> (r: ListIter<'_, T>)
        ensures
            r@ == self@,
    {
        ListIter { next: link_ref(&self.head) }
    }

    /// A mutable borrowing iterator over the elements, front to back.
    ///
    /// When the borrow of the list ends, the list holds, front to back, the
    /// values that its nodes hold at that time: whatever was written through
    /// the references the iterator handed out, and the other elements as they
    /// were.
    pub fn iter_mut(&mut self) -> (r: ListIterMut<'_, T>)
        ensures
            r@ == old(self)@,
            final(self)@ == match r.next {
                None => Seq::empty(),
                Some(node) => elems_of(*final(node)),
            },
    {
        ListIterMut { next: link_mut(&mut self.head) }
    }

    /// Turns the list into an iterator that hands out its elements, front to back.
    pub fn into_iter(self) -> (r: IntoListIter<T>)
        ensures
            r@ == self@,
    {
        IntoListIter { current: self.head }
    }
}

impl<T: Clone> Clone for List<T> {
    /// A list of clones of the elements, in the same order.
    fn clone(&self) -> (r: Self)
        ensures
            r@.len() == self@.len(),
            forall|i: int| 0 <= i < self@.len() ==> cloned::<T>(self@[i], #[trigger] r@[i]),
    {
        let mut backwards = List::new();
        let mut it = self.iter();
        loop
            invariant_except_break
                it@ == self@.skip(backwards@.len() as int),
                backwards@.len() <= self@.len(),
                forall|i: int|
                    0 <= i < backwards@.len() ==> cloned::<T>(
                        self@[i],
                        #[trigger] backwards@.reverse()[i],
                    ),
            ensures
                backwards@.len() == self@.len(),
                forall|i: int|
                    0 <= i < backwards@.len() ==> cloned::<T>(
                        self@[i],
                        #[trigger] backwards@.reverse()[i],
                    ),
            decreases it@.len(),
        {
            match it.next() {
                Some(elem) => {
                    let ghost before = backwards@;
                    backwards = backwards.push(elem.clone());
                    proof {
                        assert(backwards@.reverse() =~= before.reverse().push(backwards@[0]));
                    }
                },
                None => {
                    break;
                },
            }
        }
        backwards.reverse()
    }
}

impl<T: std::fmt::Display> List<T> {
    /// The list as text: `[e1, e2, ..., en]`, each element written by its
    /// `Display`, with `", "` between them; `[]` when the list is empty.
    pub fn to_string(&self) -> (r: String)
        ensures
            exists|parts: Seq<String>|
                {
                    &&& parts.len() == self@.len()
                    &&& forall|i: int|
                        0 <= i < parts.len() ==> to_string_from_display_ensures::<T>(
                            &self@[i],
                            #[trigger] parts[i],
                        )
                    &&& r@ == bracketed(texts(parts))
                },
    {
        let mut parts: Vec<String> = Vec::new();
        let mut it = self.iter();
        loop
            invariant_except_break
                it@ == self@.skip(parts@.len() as int),
                parts@.len() <= self@.len(),
                forall|i: int|
                    0 <= i < parts@.len() ==> to_string_from_display_ensures::<T>(
                        &self@[i],
                        #[trigger] parts@[i],
                    ),
            ensures
                parts@.len() == self@.len(),
                forall|i: int|
                    0 <= i < parts@.len() ==> to_string_from_display_ensures::<T>(
                        &self@[i],
                        #[trigger] parts@[i],
                    ),
            decreases it@.len(),
        {
            match it.next() {
                Some(elem) => {
                    parts.push(<T as std::string::ToString>::to_string(elem));
                },
                None => {
                    break;
                },
            }
        }
        join_bracketed(&parts)
    }
}

/// The node that a link points to, borrowed.
fn link_ref<T>(link: &Option<Box<Node<T>>>) -> (r: Option<&Node<T>>)
    ensures
        match r {
            None => link is None,
            Some(node) => link == Some(Box::new(*node)),
        },
{
    match link {
        None => None,
        Some(node) => Some(&**node),
    }
}

/// The node that a link points to, mutably borrowed.
fn link_mut<T>(link: &mut Option<Box<Node<T>>>) -> (r: Option<&mut Node<T>>)
    ensures
        match r {
            None => *old(link) is None && *final(link) is None,
            Some(node) => *old(link) == Some(Box::new(*node)) && *final(link) == Some(
                Box::new(*final(node)),
            ),
        },
{
    match link {
        None => None,
        Some(node) => Some(&mut **node),
    }
}

/// The elements from a borrowed node onward.
spec fn chain_from<T>(node: Option<&Node<T>>) -> Seq<T> {
    match node {
        None => Seq::empty(),
        Some(node) => seq![node.elem].add(chain(node.next)),
    }
}

/// A borrowing iterator over the elements of a [`List`].
pub struct ListIter<'a, T> {
    next: Option<&'a Node<T>>,
}

impl<'a, T> View for ListIter<'a, T> {
    type V = Seq<T>;

    /// The elements not yet handed out, front to back.
    closed spec fn view(&self) -> Seq<T> {
        chain_from(self.next)
    }
}

impl<'a, T> ListIter<'a, T> {
    /// The next element, or `None` once every element has been handed out.
    pub fn next(&mut self) -> (r: Option<&'a T>)
        ensures
            old(self)@.len() == 0 ==> r is None && final(self)@ == old(self)@,
            old(self)@.len() > 0 ==> r == Some(&old(self)@[0]) && final(self)@ == old(
                self,
            )@.drop_first(),
    {
        match self.next {
            None => None,
            Some(node) => {
                self.next = link_ref(&node.next);
                proof {
                    assert(chain_from(self.next) =~= chain(node.next));
                }
                Some(&node.elem)
            },
        }
    }
}

/// A mutable borrowing iterator over the elements of a [`List`].
pub struct ListIterMut<'a, T> {
    /// The node whose element comes next.
    pub next: Option<&'a mut Node<T>>,
}

impl<'a, T> View for ListIterMut<'a, T> {
    type V = Seq<T>;

    /// The elements not yet handed out, front to back, as they are now.
    open spec fn view(&self) -> Seq<T> {
        match self.next {
            None => Seq::empty(),
            Some(node) => elems_of(*node),
        }
    }
}

impl<'a, T> ListIterMut<'a, T> {
    /// A mutable reference to the next element, or `None` once every element
    /// has been handed out. What is written through it is what the list holds
    /// in that place afterwards.
    pub fn next(&mut self) -> (r: Option<&'a mut T>)
        ensures
            old(self)@.len() == 0 ==> {
                &&& r is None
                &&& final(self)@ == old(self)@
                &&& old(self).next is None
                &&& final(self).next is None
            },
            old(self)@.len() > 0 ==> {
                &&& r matches Some(e)
                &&& *e == old(self)@[0]
                &&& final(self)@ == old(self)@.drop_first()
                &&& old(self).next matches Some(node)
                &&& elems_of(*final(node)) == seq![*final(e)].add(
                    match final(self).next {
                        None => Seq::empty(),
                        Some(rest) => elems_of(*final(rest)),
                    },
                )
            },
    {
        match self.next.take() {
            None => None,
            Some(node) => {
                self.next = link_mut(&mut node.next);
                Some(&mut node.elem)
            },
        }
    }
}

/// An iterator that owns what is left of a [`List`] and hands out its elements.
pub struct IntoListIter<T> {
    current: Option<Box<Node<T>>>,
}

impl<T> View for IntoListIter<T> {
    type V = Seq<T>;

    /// The elements not yet handed out, front to back.
    closed spec fn view(&self) -> Seq<T> {
        chain(self.current)
    }
}

impl<T> IntoListIter<T> {
    /// The next element, or `None` once every element has been handed out.
    pub fn next(&mut self) -> (r: Option<T>)
        ensures
            old(self)@.len() == 0 ==> r is None && final(self)@ == old(self)@,
            old(self)@.len() > 0 ==> r == Some(old(self)@[0]) && final(self)@ == old(
                self,
            )@.drop_first(),
    {
        match self.current.take() {
            None => None,
            Some(node) => {
                let Node { elem, next } = *node;
                self.current = next;
                proof {
                    assert(old(self)@.drop_first() =~= chain(next));
                }
                Some(elem)
            },
        }
    }
}

} // verus!
