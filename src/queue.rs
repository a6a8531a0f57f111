//! A first-in-first-out queue: a singly linked list whose nodes live in an
//! arena and link to each other by index.
//!
//! A push writes its value into the placeholder node at the tail and links a
//! fresh placeholder behind it, so a pop sees "no data" exactly when the head
//! node has no successor. A node belongs to the queue alone until a pop
//! unlinks it; the pop then owns its value. Indices are never reused while a
//! node is reachable: the arena is only reset when the queue is empty.
use vstd::prelude::*;

use crate::lockfree::LockFree;

verus! {

/// A list node. A node without data is the placeholder at the tail, the node
/// that receives the next pushed value.
struct Node<T> {
    data: Option<T>,
    next: Option<usize>,
}

impl<T> Node<T> {
    fn new(data: Option<T>) -> (r: Node<T>)
        ensures
            r.data == data,
            r.next is None,
    {
        Node { data, next: None }
    }
}

/// A FIFO queue.
///
/// The list always holds at least one node. `head` is the oldest node still
/// carrying a value (or the placeholder when the queue is empty), `tail` is
/// the placeholder, and nodes before `head` have been reclaimed.
pub struct Queue<T> {
    nodes: Vec<Node<T>>,
    head: usize,
    tail: usize,
}

impl<T> Queue<T> {
    /// The nodes from `head` up to the placeholder carry the pending values in
    /// order, each linked to the next.
    pub closed spec fn well_formed(&self) -> bool {
        &&& 0 < self.nodes@.len()
        &&& self.tail == self.nodes@.len() - 1
        &&& self.head <= self.tail
        &&& forall|i: int|
            self.head <= i < self.tail ==> (#[trigger] self.nodes@[i]).data is Some
                && self.nodes@[i].next == Some((i + 1) as usize)
        &&& self.nodes@[self.tail as int].data is None
        &&& self.nodes@[self.tail as int].next is None
    }

    /// The pending values, oldest first.
    pub closed spec fn view_items(&self) -> Seq<T> {
        Seq::new(
            (self.tail - self.head) as nat,
            |k: int| self.nodes@[self.head + k].data->0,
        )
    }

    /// An empty queue: a single placeholder node.
    pub fn new() -> (r: Self)
        ensures
            r.wf(),
            r.items() == Seq::<T>::empty(),
    {
        let mut nodes: Vec<Node<T>> = Vec::new();
        nodes.push(Node::new(None));
        Queue { nodes, head: 0, tail: 0 }
    }

    /// Drops the reclaimed nodes before `head`: the pending nodes and the
    /// placeholder move to the front of a fresh arena, relinked by their new
    /// indices.
    fn compact(&mut self)
        requires
            old(self).well_formed(),
        ensures
            final(self).well_formed(),
            final(self).view_items() == old(self).view_items(),
            final(self).head == 0,
    {
        let ghost pending = self.view_items();
        let mut fresh: Vec<Node<T>> = Vec::new();
        let mut i = self.head;
        while i < self.tail
            invariant
                old(self).well_formed(),
                self.head == old(self).head,
                self.tail == old(self).tail,
                self.head <= i <= self.tail,
                self.nodes@.len() == old(self).nodes@.len(),
                pending == old(self).view_items(),
                forall|j: int| i <= j < self.nodes@.len() ==> self.nodes@[j] == old(self).nodes@[j],
                fresh@.len() == i - self.head,
                forall|j: int|
                    0 <= j < fresh@.len() ==> (#[trigger] fresh@[j]).data == Some(pending[j])
                        && fresh@[j].next == Some((j + 1) as usize),
            decreases self.tail - i,
        {
            proof {
                assert(old(self).nodes@[i as int].data is Some);
            }
            let mut slot = Node::new(None);
            std::mem::swap(&mut slot, &mut self.nodes[i]);
            let next = fresh.len() + 1;
            fresh.push(Node { data: slot.data, next: Some(next) });
            i = i + 1;
        }
        fresh.push(Node::new(None));
        self.tail = fresh.len() - 1;
        self.head = 0;
        self.nodes = fresh;
        assert(self.view_items() =~= pending);
    }
}

impl<T> LockFree<T> for Queue<T> {
    open spec fn wf(&self) -> bool {
        self.well_formed()
    }

    open spec fn items(&self) -> Seq<T> {
        self.view_items()
    }

    open spec fn fifo(&self) -> bool {
        true
    }

    /// Appends a new placeholder, then writes the value into the node that
    /// was the placeholder and links it to the new one.
    fn push(&mut self, item: T) {
        let new_tail = self.nodes.len();
        self.nodes.push(Node::new(None));
        let old_tail = self.tail;
        self.nodes.set(old_tail, Node { data: Some(item), next: Some(new_tail) });
        self.tail = new_tail;
        assert(self.view_items() =~= old(self).view_items().push(item));
    }

    /// Unlinks the head node when it has a successor and takes its value.
    /// Reclaimed nodes are dropped from the arena once they outnumber the
    /// pending ones, and all at once when the queue becomes empty.
    fn pop(&mut self) -> (r: Option<T>) {
        let head = self.head;
        match self.nodes[head].next {
            None => None,
            Some(next) => {
                let mut taken = Node::new(None);
                std::mem::swap(&mut taken, &mut self.nodes[head]);
                self.head = next;
                assert(self.view_items() =~= old(self).view_items().drop_first());
                if self.head == self.tail {
                    self.nodes.clear();
                    self.nodes.push(Node::new(None));
                    self.head = 0;
                    self.tail = 0;
                    assert(self.view_items() =~= old(self).view_items().drop_first());
                } else if self.tail - self.head < self.head {
                    self.compact();
                }
                taken.data
            },
        }
    }

    /// Walks from `head` along the links to the first node without a successor.
    fn len(&self) -> (n: usize) {
        let mut cur = self.head;
        let mut count: usize = 0;
        loop
            invariant
                self.well_formed(),
                self.head <= cur <= self.tail,
                count == cur - self.head,
            decreases self.tail - cur,
        {
            match self.nodes[cur].next {
                Some(next) => {
                    cur = next;
                    count = count + 1;
                },
                None => {
                    return count;
                },
            }
        }
    }
}

} // verus!
