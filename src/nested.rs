use vstd::prelude::*;

verus! {

/// A list in which each non-empty level holds one element and owns the
/// rest of the list: cheap at the front, linear at the back.
pub struct LinkedList<T>(Option<(T, Box<LinkedList<T>>)>);

impl<T> LinkedList<T> {
    /// The elements from front to back.
    pub closed spec fn elems(&self) -> Seq<T>
        decreases self,
    {
        match &self.0 {
            None => Seq::empty(),
            Some(level) => seq![level.0] + level.1.elems(),
        }
    }
}

impl<T> View for LinkedList<T> {
    type V = Seq<T>;

    open spec fn view(&self) -> Seq<T> {
        self.elems()
    }
}

impl<T> LinkedList<T> {
    /// Creates an empty list.
    pub fn new() -> (r: Self)
        ensures
            r@ == Seq::<T>::empty(),
    {
        LinkedList(None)
    }

    /// Adds `data` at the front.
    pub fn push_front(&mut self, data: T)
        ensures
            final(self)@ == seq![data] + old(self)@,
    {
        let t = self.0.take();
        self.0 = Some((data, Box::new(LinkedList(t))));
    }

    /// Adds `data` at the back, walking down every level.
    pub fn push_back(&mut self, data: T)
        ensures
            final(self)@ == old(self)@.push(data),
        decreases old(self)@.len(),
    {
        match &mut self.0 {
            None => {
                self.0 = Some((data, Box::new(LinkedList(None))));
            },
            Some(level) => {
                level.1.push_back(data);
            },
        }
    }

    /// Removes and returns the front element; `None` when empty.
    pub fn pop_front(&mut self) -> (r: Option<T>)
        ensures
            old(self)@.len() == 0 ==> r is None && final(self)@ == old(self)@,
            old(self)@.len() > 0 ==> r == Some(old(self)@[0]) && final(self)@ == old(self)@.drop_first(),
    {
        match self.0.take() {
            None => None,
            Some((data, tail)) => {
                self.0 = tail.0;
                Some(data)
            },
        }
    }

    /// Removes and returns the back element; `None` when empty.
    pub fn pop_back(&mut self) -> (r: Option<T>)
        ensures
            old(self)@.len() == 0 ==> r is None && final(self)@ == old(self)@,
            old(self)@.len() > 0 ==> r == Some(old(self)@.last()) && final(self)@ == old(self)@.drop_last(),
        decreases old(self)@.len(),
    {
        match self.0.take() {
            None => None,
            Some((data, mut tail)) => {
                if tail.0.is_none() {
                    assert(tail@ =~= Seq::<T>::empty());
                    assert(old(self)@ =~= seq![data] + tail@);
                    assert(old(self)@.drop_last() =~= Seq::<T>::empty());
                    Some(data)
                } else {
                    let ghost rest = tail@;
                    let result = tail.pop_back();
                    self.0 = Some((data, tail));
                    proof {
                        assert(old(self)@ =~= seq![data] + rest);
                        assert(final(self)@ =~= old(self)@.drop_last());
                    }
                    result
                }
            },
        }
    }
}

} // verus!
