use vstd::prelude::*;

verus! {

/// A stack whose nodes live in an arena and are linked by index. Node `i`
/// is `elems[i]` with its link `links[i]`; the arena alone owns the
/// elements, and the head and the links are plain indices.
pub struct List<T> {
    elems: Vec<T>,
    links: Vec<Option<usize>>,
    head: Option<usize>,
}

/// The link from the node at `i` to the one pushed before it.
pub open spec fn below(i: int) -> Option<usize> {
    if i == 0 {
        None
    } else {
        Some((i - 1) as usize)
    }
}

impl<T> List<T> {
    /// Each node links to the one pushed before it, and the head is the
    /// node pushed last.
    #[verifier::type_invariant]
    closed spec fn wf(&self) -> bool {
        &&& self.links@.len() == self.elems@.len() <= usize::MAX
        &&& self.head == below(self.elems@.len() as int)
        &&& forall|i: int| 0 <= i < self.links@.len() ==> #[trigger] self.links@[i] == below(i)
    }
}

/// Changing one element of the arena changes the matching place of the
/// stack's view.
proof fn lemma_reverse_update<T>(s: Seq<T>, i: int, e: T)
    requires
        0 <= i < s.len(),
    ensures
        s.update(i, e).reverse() == s.reverse().update(s.len() - 1 - i, e),
{
    assert(s.update(i, e).reverse() =~= s.reverse().update(s.len() - 1 - i, e));
}

impl<T> View for List<T> {
    type V = Seq<T>;

    /// The elements from the top of the stack down.
    closed spec fn view(&self) -> Seq<T> {
        self.elems@.reverse()
    }
}

impl<T> List<T> {
    /// Creates an empty stack.
    pub fn new() -> (r: Self)
        ensures
            r@ == Seq::<T>::empty(),
    {
        let r = List { elems: Vec::new(), links: Vec::new(), head: None };
        assert(r@ =~= Seq::<T>::empty());
        r
    }

    /// Puts `elem` on top: a new node that links to the old head.
    pub fn push(&mut self, elem: T)
        ensures
            final(self)@ == seq![elem] + old(self)@,
    {
        proof {
            use_type_invariant(&*self);
        }
        let mut taken = List::new();
        std::mem::swap(self, &mut taken);
        let List { mut elems, mut links, head } = taken;
        elems.push(elem);
        links.push(head);
        let h = elems.len() - 1;
        *self = List { elems, links, head: Some(h) };
        assert(final(self)@ =~= seq![elem] + old(self)@);
    }

    /// Removes and returns the top element; `None` when empty.
    pub fn pop(&mut self) -> (r: Option<T>)
        ensures
            old(self)@.len() == 0 ==> r is None && final(self)@ == old(self)@,
            old(self)@.len() > 0 ==> r == Some(old(self)@[0]) && final(self)@ == old(self)@.drop_first(),
    {
        proof {
            use_type_invariant(&*self);
        }
        if self.head.is_none() {
            return None;
        }
        let mut taken = List::new();
        std::mem::swap(self, &mut taken);
        let List { mut elems, mut links, head } = taken;
        let elem = elems.pop().unwrap();
        let next = links.pop().unwrap();
        *self = List { elems, links, head: next };
        assert(final(self)@ =~= old(self)@.drop_first());
        Some(elem)
    }

    /// The top element, if any.
    pub fn peek(&self) -> (r: Option<&T>)
        ensures
            self@.len() == 0 ==> r is None,
            self@.len() > 0 ==> r == Some(&self@[0]),
    {
        proof {
            use_type_invariant(self);
        }
        match self.head {
            None => None,
            Some(h) => {
                assert(self@[0] == self.elems@[h as int]);
                Some(&self.elems[h])
            },
        }
    }

    /// The top element, if any, for changing in place.
    pub fn peek_mut(&mut self) -> (r: Option<&mut T>)
        ensures
            old(self)@.len() == 0 ==> r is None && final(self)@ == old(self)@,
            old(self)@.len() > 0 ==> r is Some && *r.unwrap() == old(self)@[0] && final(self)@
                == old(self)@.update(0, *final(r.unwrap())),
    {
        proof {
            use_type_invariant(&*self);
        }
        match self.head {
            None => None,
            Some(h) => {
                proof {
                    assert forall|e: T| #[trigger] self.elems@.update(h as int, e).reverse()
                        == self@.update(0, e) by {
                        lemma_reverse_update(self.elems@, h as int, e);
                    }
                }
                Some(&mut self.elems[h])
            },
        }
    }
}

/// Hands out the elements of a stack by value, top first.
pub struct IntoIter<T>(List<T>);

impl<T> View for IntoIter<T> {
    type V = Seq<T>;

    /// The elements still to come, in order.
    closed spec fn view(&self) -> Seq<T> {
        self.0@
    }
}

/// Hands out shared references to the elements of a stack, top first,
/// following the links.
pub struct Iter<'a, T> {
    list: &'a List<T>,
    next: Option<usize>,
}

impl<'a, T> Iter<'a, T> {
    /// The cursor is absent or names a node of the arena.
    #[verifier::type_invariant]
    closed spec fn wf(&self) -> bool {
        match self.next {
            None => true,
            Some(i) => i < self.list.elems@.len(),
        }
    }
}

impl<'a, T> View for Iter<'a, T> {
    type V = Seq<T>;

    /// The elements still to come, in order.
    closed spec fn view(&self) -> Seq<T> {
        match self.next {
            None => Seq::empty(),
            Some(i) => self.list.elems@.subrange(0, i + 1).reverse(),
        }
    }
}

/// Hands out exclusive references to the elements of a stack, top first,
/// following the links; each one lives until the next call.
pub struct IterMut<'a, T> {
    list: &'a mut List<T>,
    next: Option<usize>,
}

impl<'a, T> IterMut<'a, T> {
    /// The cursor is absent or names a node of the arena.
    #[verifier::type_invariant]
    closed spec fn wf(&self) -> bool {
        match self.next {
            None => true,
            Some(i) => i < self.list.elems@.len(),
        }
    }
}

impl<'a, T> IterMut<'a, T> {
    /// The borrowed stack.
    pub closed spec fn target(&self) -> &'a mut List<T> {
        self.list
    }
}

/// Once an iterator is done with, its stack holds what it was left with.
pub broadcast proof fn lemma_iter_mut_resolved<'a, T>(it: IterMut<'a, T>)
    requires
        #[trigger] has_resolved(it),
    ensures
        *it.target() == *final(it.target()),
{
}

impl<'a, T> View for IterMut<'a, T> {
    type V = Seq<T>;

    /// The current values of the elements still to come, in order.
    closed spec fn view(&self) -> Seq<T> {
        match self.next {
            None => Seq::empty(),
            Some(i) => self.list.elems@.subrange(0, i + 1).reverse(),
        }
    }
}

impl<T> List<T> {
    /// Turns the stack into an iterator that pops it.
    pub fn into_iter(self) -> (r: IntoIter<T>)
        ensures
            r@ == self@,
    {
        IntoIter(self)
    }

    /// Iterates over shared references, top first.
    pub fn iter(&self) -> (r: Iter<'_, T>)
        ensures
            r@ == self@,
    {
        proof {
            use_type_invariant(self);
        }
        let r = Iter { list: self, next: self.head };
        assert(self.elems@.subrange(0, self.elems@.len() as int) =~= self.elems@);
        r
    }

    /// Iterates over exclusive references, top first.
    pub fn iter_mut(&mut self) -> (r: IterMut<'_, T>)
        ensures
            r@ == old(self)@,
            *r.target() == *old(self),
            *final(self) == *final(r.target()),
    {
        proof {
            use_type_invariant(&*self);
        }
        let next = self.head;
        assert(self.elems@.subrange(0, self.elems@.len() as int) =~= self.elems@);
        IterMut { list: self, next }
    }
}

impl<T> IntoIter<T> {
    /// The next element; `None` once all have been handed out, and ever after.
    pub fn next(&mut self) -> (r: Option<T>)
        ensures
            old(self)@.len() == 0 ==> r is None && final(self)@ == old(self)@,
            old(self)@.len() > 0 ==> r == Some(old(self)@[0]) && final(self)@ == old(self)@.drop_first(),
    {
        self.0.pop()
    }
}

impl<'a, T> Iter<'a, T> {
    /// The next element; `None` once all have been handed out, and ever after.
    pub fn next(&mut self) -> (r: Option<&'a T>)
        ensures
            old(self)@.len() == 0 ==> r is None && final(self)@ == old(self)@,
            old(self)@.len() > 0 ==> r == Some(&old(self)@[0]) && final(self)@ == old(self)@.drop_first(),
    {
        proof {
            use_type_invariant(&*self);
            use_type_invariant(self.list);
        }
        match self.next {
            None => None,
            Some(i) => {
                let list = self.list;
                let e = &list.elems[i];
                self.next = list.links[i];
                assert(old(self)@.drop_first() =~= final(self)@);
                Some(e)
            },
        }
    }
}

impl<'a, T> IterMut<'a, T> {
    /// The next element; `None` once all have been handed out, and ever after.
    /// A change made through the returned reference is a change of the
    /// borrowed stack at the same place.
    pub fn next(&mut self) -> (r: Option<&mut T>)
        ensures
            *final(final(self).target()) == *final(old(self).target()),
            old(self)@.len() == 0 ==> r is None && final(self)@ == old(self)@ && *final(self).target()
                == *old(self).target(),
            old(self)@.len() > 0 ==> r is Some && *r.unwrap() == old(self)@[0] && final(self)@
                == old(self)@.drop_first() && (*final(self).target())@ == (*old(self).target())@.update(
                old(self).target()@.len() - old(self)@.len(),
                *final(r.unwrap()),
            ),
    {
        proof {
            use_type_invariant(&*self);
            use_type_invariant(&*self.list);
        }
        match self.next {
            None => None,
            Some(i) => {
                self.next = self.list.links[i];
                assert(old(self)@.drop_first() =~= self@);
                proof {
                    let n = self.list.elems@.len() as int;
                    assert forall|e: T| #[trigger] self.list.elems@.update(i as int, e).reverse()
                        == self.list@.update(n - 1 - i, e) by {
                        lemma_reverse_update(self.list.elems@, i as int, e);
                    }
                }
                Some(&mut self.list.elems[i])
            },
        }
    }
}

} // verus!
