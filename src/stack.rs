use vstd::prelude::*;

verus! {

/// A stack whose nodes each own the next one.
pub struct List<T> {
    head: Option<Box<Node<T>>>,
}

/// One element of a stack, owning the rest of the chain below it.
pub struct Node<T> {
    elem: T,
    next: Option<Box<Node<T>>>,
}

/// The elements reachable from `link`, nearest first.
closed spec fn link_view<T>(link: Option<Box<Node<T>>>) -> Seq<T>
    decreases link,
{
    match link {
        None => Seq::empty(),
        Some(node) => seq![node.elem] + link_view(node.next),
    }
}

impl<T> View for Node<T> {
    type V = Seq<T>;

    /// This node's element and those below it.
    closed spec fn view(&self) -> Seq<T> {
        seq![self.elem] + link_view(self.next)
    }
}

impl<T> View for List<T> {
    type V = Seq<T>;

    /// The elements from the top of the stack down.
    closed spec fn view(&self) -> Seq<T> {
        link_view(self.head)
    }
}

impl<T> List<T> {
    /// Creates an empty stack.
    pub fn new() -> (r: Self)
        ensures
            r@ == Seq::<T>::empty(),
    {
        List { head: None }
    }

    /// Puts `elem` on top.
    pub fn push(&mut self, elem: T)
        ensures
            final(self)@ == seq![elem] + old(self)@,
    {
        let new_node = Box::new(Node { elem: elem, next: self.head.take() });
        self.head = Some(new_node);
    }

    /// Removes and returns the top element; `None` when empty.
    pub fn pop(&mut self) -> (r: Option<T>)
        ensures
            old(self)@.len() == 0 ==> r is None && final(self)@ == old(self)@,
            old(self)@.len() > 0 ==> r == Some(old(self)@[0]) && final(self)@ == old(self)@.drop_first(),
    {
        match self.head.take() {
            None => None,
            Some(node) => {
                let node = *node;
                self.head = node.next;
                Some(node.elem)
            },
        }
    }

    /// The top element, if any.
    pub fn peek(&self) -> (r: Option<&T>)
        ensures
            self@.len() == 0 ==> r is None,
            self@.len() > 0 ==> r == Some(&self@[0]),
    {
        match &self.head {
            None => None,
            Some(node) => Some(&node.elem),
        }
    }

    /// The top element, if any, for changing in place.
    pub fn peek_mut(&mut self) -> (r: Option<&mut T>)
        ensures
            old(self)@.len() == 0 ==> r is None && final(self)@ == old(self)@,
            old(self)@.len() > 0 ==> r is Some && *r.unwrap() == old(self)@[0] && final(self)@
                == old(self)@.update(0, *final(r.unwrap())),
    {
        match &mut self.head {
            None => None,
            Some(node) => Some(&mut node.elem),
        }
    }
}

impl<T> Drop for List<T> {
    /// Frees the nodes one at a time, so that a long stack does not
    /// unwind through nested drops.
    fn drop(&mut self)
        opens_invariants none
        no_unwind
    {
        let mut cur_link: Option<Box<Node<T>>> = None;
        std::mem::swap(&mut cur_link, &mut self.head);
        loop
            decreases link_view(cur_link).len(),
        {
            match cur_link {
                Some(boxed_node) => {
                    let mut node = *boxed_node;
                    cur_link = None;
                    std::mem::swap(&mut cur_link, &mut node.next);
                },
                None => {
                    break ;
                },
            }
        }
    }
}

/// Hands out the elements of a stack by value, top first.
pub struct IntoIter<T>(List<T>);

impl<T> View for IntoIter<T> {
    type V = Seq<T>;

    /// The elements still to come, in order.
    closed spec fn view(&self) -> Seq<T> {
        self.0@
    }
}

/// Hands out shared references to the elements of a stack, top first.
pub struct Iter<'a, T> {
    next: Option<&'a Node<T>>,
}

impl<'a, T> View for Iter<'a, T> {
    type V = Seq<T>;

    /// The elements still to come, in order.
    closed spec fn view(&self) -> Seq<T> {
        match self.next {
            None => Seq::empty(),
            Some(node) => seq![node.elem] + link_view(node.next),
        }
    }
}

/// Hands out exclusive references to the elements of a stack, top first.
pub struct IterMut<'a, T> {
    next: Option<&'a mut Node<T>>,
}

impl<'a, T> IterMut<'a, T> {
    /// The node that comes next, borrowed from the stack.
    pub closed spec fn cursor(&self) -> Option<&'a mut Node<T>> {
        self.next
    }
}

/// Once an iterator is done with, the node it would have handed out next
/// holds what it was left with.
pub broadcast proof fn lemma_iter_mut_resolved<'a, T>(it: IterMut<'a, T>)
    requires
        #[trigger] has_resolved(it),
    ensures
        it.cursor() is Some ==> *it.cursor().unwrap() == *final(it.cursor().unwrap()),
{
}

/// An iterator has a node to hand out exactly when elements remain.
pub broadcast proof fn lemma_iter_mut_cursor<'a, T>(it: IterMut<'a, T>)
    ensures
        #[trigger] it.cursor() is Some <==> it@.len() > 0,
{
}

impl<'a, T> View for IterMut<'a, T> {
    type V = Seq<T>;

    /// The current values of the elements still to come, in order.
    closed spec fn view(&self) -> Seq<T> {
        match &self.next {
            None => Seq::empty(),
            Some(node) => seq![node.elem] + link_view(node.next),
        }
    }
}

impl<T> List<T> {
    /// Turns the stack into an iterator that pops it.
    pub fn into_iter(self) -> (r: IntoIter<T>)
        ensures
            r@ == self@,
    {
        IntoIter(self)
    }

    /// Iterates over shared references, top first.
    pub fn iter(&self) -> (r: Iter<'_, T>)
        ensures
            r@ == self@,
    {
        Iter {
            next: match &self.head {
                None => None,
                Some(node) => Some(&**node),
            },
        }
    }

    /// Iterates over exclusive references, top first.
    pub fn iter_mut(&mut self) -> (r: IterMut<'_, T>)
        ensures
            r@ == old(self)@,
            r.cursor() is None ==> *final(self) == *old(self),
            r.cursor() is Some ==> final(self)@ == (*final(r.cursor().unwrap()))@,
    {
        IterMut {
            next: match &mut self.head {
                None => None,
                Some(node) => Some(&mut **node),
            },
        }
    }
}

impl<T> IntoIter<T> {
    /// The next element; `None` once all have been handed out, and ever after.
    pub fn next(&mut self) -> (r: Option<T>)
        ensures
            old(self)@.len() == 0 ==> r is None && final(self)@ == old(self)@,
            old(self)@.len() > 0 ==> r == Some(old(self)@[0]) && final(self)@ == old(self)@.drop_first(),
    {
        self.0.pop()
    }
}

impl<'a, T> Iter<'a, T> {
    /// The next element; `None` once all have been handed out, and ever after.
    pub fn next(&mut self) -> (r: Option<&'a T>)
        ensures
            old(self)@.len() == 0 ==> r is None && final(self)@ == old(self)@,
            old(self)@.len() > 0 ==> r == Some(&old(self)@[0]) && final(self)@ == old(self)@.drop_first(),
    {
        match self.next {
            None => None,
            Some(node) => {
                self.next = match &node.next {
                    None => None,
                    Some(n) => Some(&**n),
                };
                Some(&node.elem)
            },
        }
    }
}

impl<'a, T> IterMut<'a, T> {
    /// The next element; `None` once all have been handed out, and ever after.
    /// A change made through the returned reference is a change of the
    /// node it came from, which keeps the nodes after it.
    pub fn next(&mut self) -> (r: Option<&'a mut T>)
        ensures
            old(self)@.len() == 0 ==> r is None && final(self)@ == old(self)@ && final(self).cursor()
                is None,
            old(self)@.len() > 0 ==> r is Some && *r.unwrap() == old(self)@[0] && final(self)@
                == old(self)@.drop_first(),
            old(self).cursor() is Some ==> (*final(old(self).cursor().unwrap()))@ == seq![
                *final(r.unwrap()),
            ] + (if final(self).cursor() is Some {
                (*final(final(self).cursor().unwrap()))@
            } else {
                Seq::empty()
            }),
    {
        match self.next.take() {
            None => None,
            Some(node) => {
                self.next = match &mut node.next {
                    None => None,
                    Some(n) => Some(&mut **n),
                };
                Some(&mut node.elem)
            },
        }
    }
}

} // verus!
