//! A last-in-first-out stack: a singly linked list whose nodes live in an
//! arena and link to each other by index.
use vstd::prelude::*;

use crate::lockfree::LockFree;

verus! {

/// A list node; on the stack every node carries its value.
struct Node<T> {
    data: Option<T>,
    next: Option<usize>,
}

/// A LIFO stack.
///
/// `head` is the most recently pushed node, or `None` when the stack is empty.
/// Each node links to the one pushed before it. A popped node leaves the
/// arena at once, so the arena holds exactly the pending nodes.
pub struct Stack<T> {
    nodes: Vec<Node<T>>,
    head: Option<usize>,
}

impl<T> Stack<T> {
    pub closed spec fn well_formed(&self) -> bool {
        &&& self.nodes@.len() == 0 ==> self.head is None
        &&& self.nodes@.len() > 0 ==> self.head == Some((self.nodes@.len() - 1) as usize)
        &&& forall|i: int|
            0 <= i < self.nodes@.len() ==> (#[trigger] self.nodes@[i]).data is Some
                && self.nodes@[i].next == (if i == 0 {
                None
            } else {
                Some((i - 1) as usize)
            })
    }

    /// The pending values, most recent first.
    pub closed spec fn view_items(&self) -> Seq<T> {
        Seq::new(
            self.nodes@.len(),
            |k: int| self.nodes@[self.nodes@.len() - 1 - k].data->0,
        )
    }

    /// An empty stack.
    pub fn new() -> (r: Stack<T>)
        ensures
            r.wf(),
            r.items() == Seq::<T>::empty(),
    {
        Stack { nodes: Vec::new(), head: None }
    }
}

impl<T> LockFree<T> for Stack<T> {
    open spec fn wf(&self) -> bool {
        self.well_formed()
    }

    open spec fn items(&self) -> Seq<T> {
        self.view_items()
    }

    open spec fn fifo(&self) -> bool {
        false
    }

    /// Links a new node holding the value to the current head and makes it
    /// the head.
    fn push(&mut self, item: T) {
        let new_head = self.nodes.len();
        let node = Node { data: Some(item), next: self.head };
        self.nodes.push(node);
        self.head = Some(new_head);
        assert(self.view_items() =~= seq![item] + old(self).view_items());
    }

    /// Unlinks the head node and takes its value; its successor becomes the
    /// head.
    fn pop(&mut self) -> (r: Option<T>) {
        match self.head {
            None => None,
            Some(_) => {
                let node = self.nodes.pop().unwrap();
                self.head = node.next;
                assert(self.view_items() =~= old(self).view_items().drop_first());
                node.data
            },
        }
    }

    /// Walks from `head` along the links to the end of the list.
    fn len(&self) -> (n: usize) {
        let total = self.nodes.len();
        let mut cur = self.head;
        let mut count: usize = 0;
        loop
            invariant
                self.well_formed(),
                total == self.nodes@.len(),
                count <= self.nodes@.len(),
                cur is None ==> count == self.nodes@.len(),
                cur is Some ==> cur->0 + count + 1 == total,
            decreases self.nodes@.len() - count,
        {
            match cur {
                Some(i) => {
                    cur = self.nodes[i].next;
                    count = count + 1;
                },
                None => {
                    return count;
                },
            }
        }
    }
}

} // verus!
