use vstd::prelude::*;

verus! {

/// A first-in first-out queue whose nodes live in an arena of slots and
/// are linked by index from head to tail. Only the arena owns a node;
/// `head`, `tail` and the links are plain indices. Slots freed by `pop`
/// are kept in `free` and reused by `push`.
pub struct List<T> {
    slots: Vec<Option<Node<T>>>,
    free: Vec<usize>,
    head: Option<usize>,
    tail: Option<usize>,
    /// The slots of the queue's nodes, from head to tail.
    chain: Ghost<Seq<usize>>,
}

struct Node<T> {
    elem: T,
    next: Option<usize>,
}

/// The link that the node at place `k` of `c` carries.
pub open spec fn link_after(c: Seq<usize>, k: int) -> Option<usize> {
    if k + 1 < c.len() {
        Some(c[k + 1])
    } else {
        None
    }
}

/// The first slot of `c`, if any.
pub open spec fn first_of(c: Seq<usize>) -> Option<usize> {
    if c.len() == 0 {
        None
    } else {
        Some(c[0])
    }
}

/// The last slot of `c`, if any.
pub open spec fn last_of(c: Seq<usize>) -> Option<usize> {
    if c.len() == 0 {
        None
    } else {
        Some(c.last())
    }
}

impl<T> List<T> {
    /// The chain runs from `head` to `tail` through distinct occupied slots;
    /// the free list names distinct empty slots; and every slot is on exactly
    /// one of the two, so no node is lost and none is owned twice.
    pub closed spec fn wf(&self) -> bool {
        let c = self.chain@;
        let s = self.slots@;
        let f = self.free@;
        &&& s.len() <= usize::MAX
        &&& forall|k: int|
            0 <= k < c.len() ==> {
                &&& #[trigger] c[k] < s.len()
                &&& s[c[k] as int] is Some
                &&& s[c[k] as int]->Some_0.next == link_after(c, k)
            }
        &&& forall|a: int, b: int| 0 <= a < b < c.len() ==> #[trigger] c[a] != #[trigger] c[b]
        &&& self.head == first_of(c)
        &&& self.tail == last_of(c)
        &&& forall|k: int| 0 <= k < f.len() ==> #[trigger] f[k] < s.len() && s[f[k] as int] is None
        &&& forall|a: int, b: int| 0 <= a < b < f.len() ==> #[trigger] f[a] != #[trigger] f[b]
        &&& f.len() + c.len() == s.len()
    }
}

impl<T> View for List<T> {
    type V = Seq<T>;

    /// The elements from head to tail.
    closed spec fn view(&self) -> Seq<T> {
        Seq::new(self.chain@.len(), |k: int| self.slots@[self.chain@[k] as int]->Some_0.elem)
    }
}

impl<T> List<T> {
    /// Creates an empty queue.
    pub fn new() -> (r: Self)
        ensures
            r.wf(),
            r@ == Seq::<T>::empty(),
    {
        let r = List {
            slots: Vec::new(),
            free: Vec::new(),
            head: None,
            tail: None,
            chain: Ghost(Seq::empty()),
        };
        assert(r@ =~= Seq::<T>::empty());
        r
    }

    /// Appends `elem` at the tail, in a reused slot if there is one.
    pub fn push(&mut self, elem: T)
        requires
            old(self).wf(),
        ensures
            final(self).wf(),
            final(self)@ == old(self)@.push(elem),
    {
        let ghost c = self.chain@;
        let node = Node { elem: elem, next: None };
        let idx: usize = match self.free.pop() {
            Some(i) => {
                assert(old(self).free@[old(self).free@.len() - 1] == i);
                self.slots[i] = Some(node);
                i
            },
            None => {
                self.slots.push(Some(node));
                self.slots.len() - 1
            },
        };
        assert(forall|k: int| 0 <= k < c.len() ==> c[k] != idx);
        match self.tail {
            Some(t) => {
                assert(c[c.len() - 1] == t);
                match &mut self.slots[t] {
                    Some(n) => {
                        n.next = Some(idx);
                    },
                    None => {},
                }
            },
            None => {
                self.head = Some(idx);
            },
        }
        self.tail = Some(idx);
        self.chain = Ghost(c.push(idx));
        assert(self@ =~= old(self)@.push(elem));
    }

    /// Removes and returns the element at the head, freeing its slot;
    /// `None` when empty.
    pub fn pop(&mut self) -> (r: Option<T>)
        requires
            old(self).wf(),
        ensures
            final(self).wf(),
            old(self)@.len() == 0 ==> r is None && final(self)@ == old(self)@,
            old(self)@.len() > 0 ==> r == Some(old(self)@[0]) && final(self)@ == old(self)@.drop_first(),
    {
        let ghost c = self.chain@;
        match self.head {
            None => {
                assert(self@ =~= Seq::<T>::empty());
                None
            },
            Some(h) => {
                assert(c[0] == h);
                let slot = self.slots[h].take();
                match slot {
                    Some(node) => {
                        self.head = node.next;
                        if node.next.is_none() {
                            self.tail = None;
                        }
                        self.free.push(h);
                        self.chain = Ghost(c.drop_first());
                        assert(forall|k: int| 1 <= k < c.len() ==> c[k] != h);
                        assert(self@ =~= old(self)@.drop_first());
                        Some(node.elem)
                    },
                    None => None,
                }
            },
        }
    }

    /// The element at the head, if any.
    pub fn peek(&self) -> (r: Option<&T>)
        requires
            self.wf(),
        ensures
            self@.len() == 0 ==> r is None,
            self@.len() > 0 ==> r == Some(&self@[0]),
    {
        match self.head {
            None => None,
            Some(h) => {
                assert(self.chain@[0] == h);
                match &self.slots[h] {
                    Some(node) => Some(&node.elem),
                    None => None,
                }
            },
        }
    }

    /// The element at the head, if any, for changing in place.
    pub fn peek_mut(&mut self) -> (r: Option<&mut T>)
        requires
            old(self).wf(),
        ensures
            final(self).wf(),
            old(self)@.len() == 0 ==> r is None && final(self)@ == old(self)@,
            old(self)@.len() > 0 ==> r is Some && *r.unwrap() == old(self)@[0] && final(self)@
                == old(self)@.update(0, *final(r.unwrap())),
    {
        let ghost c = self.chain@;
        match self.head {
            None => None,
            Some(h) => {
                assert(c[0] == h);
                assert(forall|k: int| 1 <= k < c.len() ==> c[k] != h);
                match &mut self.slots[h] {
                    Some(node) => Some(&mut node.elem),
                    None => None,
                }
            },
        }
    }
}

/// Hands out the elements of a queue by value, head first.
pub struct IntoIter<T>(List<T>);

impl<T> IntoIter<T> {
    /// The queue inside stays well formed.
    #[verifier::type_invariant]
    closed spec fn wf(&self) -> bool {
        self.0.wf()
    }
}

impl<T> View for IntoIter<T> {
    type V = Seq<T>;

    /// The elements still to come, in order.
    closed spec fn view(&self) -> Seq<T> {
        self.0@
    }
}

/// Hands out shared references to the elements of a queue, head first,
/// following the links.
pub struct Iter<'a, T> {
    list: &'a List<T>,
    next: Option<usize>,
    /// How many elements have been handed out.
    pos: Ghost<int>,
}

/// The cursor stands at place `pos` of the chain of a well-formed queue.
spec fn cursor_ok<T>(list: List<T>, next: Option<usize>, pos: int) -> bool {
    &&& list.wf()
    &&& 0 <= pos <= list.chain@.len()
    &&& next == (if pos < list.chain@.len() {
        Some(list.chain@[pos])
    } else {
        None
    })
}

impl<'a, T> Iter<'a, T> {
    #[verifier::type_invariant]
    closed spec fn wf(&self) -> bool {
        cursor_ok(*self.list, self.next, self.pos@)
    }
}

impl<'a, T> View for Iter<'a, T> {
    type V = Seq<T>;

    /// The elements still to come, in order.
    closed spec fn view(&self) -> Seq<T> {
        self.list@.subrange(self.pos@, self.list@.len() as int)
    }
}

/// Hands out exclusive references to the elements of a queue, head first,
/// following the links; each one lives until the next call.
pub struct IterMut<'a, T> {
    list: &'a mut List<T>,
    next: Option<usize>,
    /// How many elements have been handed out.
    pos: Ghost<int>,
}

impl<'a, T> IterMut<'a, T> {
    /// The cursor stands at its place in the chain of a well-formed queue.
    pub closed spec fn wf(&self) -> bool {
        cursor_ok(*self.list, self.next, self.pos@)
    }
}

impl<'a, T> IterMut<'a, T> {
    /// The borrowed queue.
    pub closed spec fn target(&self) -> &'a mut List<T> {
        self.list
    }
}

/// Once an iterator is done with, its queue holds what it was left with.
pub broadcast proof fn lemma_iter_mut_resolved<'a, T>(it: IterMut<'a, T>)
    requires
        #[trigger] has_resolved(it),
    ensures
        *it.target() == *final(it.target()),
{
}

impl<'a, T> View for IterMut<'a, T> {
    type V = Seq<T>;

    /// The current values of the elements still to come, in order.
    closed spec fn view(&self) -> Seq<T> {
        self.list@.subrange(self.pos@, self.list@.len() as int)
    }
}

impl<T> List<T> {
    /// Turns the queue into an iterator that pops it.
    pub fn into_iter(self) -> (r: IntoIter<T>)
        requires
            self.wf(),
        ensures
            r@ == self@,
    {
        IntoIter(self)
    }

    /// Iterates over shared references, head first.
    pub fn iter(&self) -> (r: Iter<'_, T>)
        requires
            self.wf(),
        ensures
            r@ == self@,
    {
        assert(self@.subrange(0, self@.len() as int) =~= self@);
        Iter { list: self, next: self.head, pos: Ghost(0) }
    }

    /// Iterates over exclusive references, head first.
    pub fn iter_mut(&mut self) -> (r: IterMut<'_, T>)
        requires
            old(self).wf(),
        ensures
            r.wf(),
            r@ == old(self)@,
            *r.target() == *old(self),
            r.target().wf(),
            *final(self) == *final(r.target()),
    {
        assert(self@.subrange(0, self@.len() as int) =~= self@);
        let next = self.head;
        IterMut { list: self, next, pos: Ghost(0) }
    }
}

impl<T> IntoIter<T> {
    /// The next element; `None` once all have been handed out, and ever after.
    pub fn next(&mut self) -> (r: Option<T>)
        ensures
            old(self)@.len() == 0 ==> r is None && final(self)@ == old(self)@,
            old(self)@.len() > 0 ==> r == Some(old(self)@[0]) && final(self)@ == old(self)@.drop_first(),
    {
        proof {
            use_type_invariant(&*self);
        }
        let mut taken = IntoIter(List::new());
        std::mem::swap(self, &mut taken);
        let IntoIter(mut list) = taken;
        let r = list.pop();
        *self = IntoIter(list);
        r
    }
}

impl<'a, T> Iter<'a, T> {
    /// The next element; `None` once all have been handed out, and ever after.
    pub fn next(&mut self) -> (r: Option<&'a T>)
        ensures
            old(self)@.len() == 0 ==> r is None && final(self)@ == old(self)@,
            old(self)@.len() > 0 ==> r == Some(&old(self)@[0]) && final(self)@ == old(self)@.drop_first(),
    {
        proof {
            use_type_invariant(&*self);
        }
        let list = self.list;
        match self.next {
            None => None,
            Some(i) => match &list.slots[i] {
                Some(node) => {
                    *self = Iter { list, next: node.next, pos: Ghost(self.pos@ + 1) };
                    assert(old(self)@.drop_first() =~= final(self)@);
                    Some(&node.elem)
                },
                None => None,
            },
        }
    }
}

impl<'a, T> IterMut<'a, T> {
    /// The next element; `None` once all have been handed out, and ever after.
    /// A change made through the returned reference is a change of the
    /// borrowed queue at the same place.
    pub fn next(&mut self) -> (r: Option<&mut T>)
        requires
            old(self).wf(),
        ensures
            final(self).wf(),
            final(self).target().wf(),
            *final(final(self).target()) == *final(old(self).target()),
            old(self)@.len() == 0 ==> r is None && final(self)@ == old(self)@ && *final(self).target()
                == *old(self).target(),
            old(self)@.len() > 0 ==> r is Some && *r.unwrap() == old(self)@[0] && final(self)@
                == old(self)@.drop_first() && (*final(self).target())@ == (*old(self).target())@.update(
                old(self).target()@.len() - old(self)@.len(),
                *final(r.unwrap()),
            ),
    {
        match self.next {
            None => None,
            Some(i) => {
                let ghost c = self.list.chain@;
                let ghost p = self.pos@;
                assert(forall|k: int| 0 <= k < c.len() && k != p ==> c[k] != i);
                let next = match &self.list.slots[i] {
                    Some(node) => node.next,
                    None => None,
                };
                self.next = next;
                self.pos = Ghost(p + 1);
                assert(old(self)@.drop_first() =~= self@);
                match &mut self.list.slots[i] {
                    Some(node) => Some(&mut node.elem),
                    None => None,
                }
            },
        }
    }
}

} // verus!
