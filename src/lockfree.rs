use vstd::prelude::*;

verus! {

/// The pending values after `item` is inserted into a container holding
/// `items`: last in removal order when `fifo`, else first.
pub open spec fn with_pushed<T>(items: Seq<T>, item: T, fifo: bool) -> Seq<T> {
    if fifo {
        items.push(item)
    } else {
        seq![item] + items
    }
}

/// The capability set shared by the two containers: insert, remove, count.
///
/// `items` lists the pending values in the order in which `pop` hands them
/// out; `fifo` tells the discipline, which never changes.
pub trait LockFree<T>: Sized {
    spec fn wf(&self) -> bool;

    spec fn items(&self) -> Seq<T>;

    spec fn fifo(&self) -> bool;

    /// Inserts a value; never fails.
    fn push(&mut self, item: T)
        requires
            old(self).wf(),
        ensures
            final(self).wf(),
            final(self).fifo() == old(self).fifo(),
            final(self).items() == with_pushed(old(self).items(), item, old(self).fifo()),
    ;

    /// Removes the next value, or reports that nothing is available.
    fn pop(&mut self) -> (r: Option<T>)
        requires
            old(self).wf(),
        ensures
            final(self).wf(),
            final(self).fifo() == old(self).fifo(),
            old(self).items().len() == 0 ==> r is None && final(self).items() == old(self).items(),
            old(self).items().len() > 0 ==> r == Some(old(self).items()[0]) && final(self).items()
                == old(self).items().drop_first(),
    ;

    /// Counts the pending values by walking the list.
    fn len(&self) -> (n: usize)
        requires
            self.wf(),
        ensures
            n == self.items().len(),
    ;
}

} // verus!
