use vstd::prelude::*;

verus! {

/// A stack of `i32` whose nodes each own the next one.
pub struct List {
    head: Link,
}

enum Link {
    Empty,
    More(Box<Node>),
}

struct Node {
    elem: i32,
    next: Link,
}

/// The elements reachable from `link`, nearest first.
closed spec fn link_view(link: Link) -> Seq<i32>
    decreases link,
{
    match link {
        Link::Empty => Seq::empty(),
        Link::More(node) => seq![node.elem] + link_view(node.next),
    }
}

/// Moves the chain out of `link`, leaving it empty.
fn take_link(link: &mut Link) -> (r: Link)
    ensures
        r == *old(link),
        *final(link) == Link::Empty,
{
    let mut r = Link::Empty;
    std::mem::swap(&mut r, link);
    r
}

impl View for List {
    type V = Seq<i32>;

    /// The elements from the top of the stack down.
    closed spec fn view(&self) -> Seq<i32> {
        link_view(self.head)
    }
}

impl List {
    /// Creates an empty stack.
    pub fn new() -> (r: Self)
        ensures
            r@ == Seq::<i32>::empty(),
    {
        List { head: Link::Empty }
    }

    /// Puts `elem` on top.
    pub fn push(&mut self, elem: i32)
        ensures
            final(self)@ == seq![elem] + old(self)@,
    {
        let new_node = Box::new(
            Node { elem: elem, next: take_link(&mut self.head) },
        );
        self.head = Link::More(new_node);
    }

    /// Removes and returns the top element; `None` when empty.
    pub fn pop(&mut self) -> (r: Option<i32>)
        ensures
            old(self)@.len() == 0 ==> r is None && final(self)@ == old(self)@,
            old(self)@.len() > 0 ==> r == Some(old(self)@[0]) && final(self)@ == old(self)@.drop_first(),
    {
        match take_link(&mut self.head) {
            Link::Empty => None,
            Link::More(node) => {
                let node = *node;
                self.head = node.next;
                Some(node.elem)
            },
        }
    }
}

impl Drop for List {
    /// Frees the nodes one at a time, so that a long stack does not
    /// unwind through nested drops.
    fn drop(&mut self)
        opens_invariants none
        no_unwind
    {
        let mut cur_link = Link::Empty;
        std::mem::swap(&mut cur_link, &mut self.head);
        loop
            decreases link_view(cur_link).len(),
        {
            match cur_link {
                Link::More(boxed_node) => {
                    let mut node = *boxed_node;
                    cur_link = Link::Empty;
                    std::mem::swap(&mut cur_link, &mut node.next);
                },
                Link::Empty => {
                    break ;
                },
            }
        }
    }
}

} // verus!
