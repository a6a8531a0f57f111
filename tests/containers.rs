use mpmc::channel::{deliver, take};
use mpmc::{Error, LockFree, Queue, Stack};
use std::sync::atomic::{AtomicUsize, Ordering};
use std::sync::Arc;

#[derive(Debug)]
struct Sentinel(Arc<AtomicUsize>);

impl Drop for Sentinel {
    fn drop(&mut self) {
        self.0.fetch_add(1, Ordering::Relaxed);
    }
}

#[test]
fn queue_pop_and_drop() {
    let guard = Arc::new(AtomicUsize::new(0));
    let mut queue = Queue::new();

    queue.push(Sentinel(guard.clone()));
    queue.push(Sentinel(guard.clone()));
    queue.push(Sentinel(guard.clone()));
    queue.pop().unwrap();
    assert_eq!(1, guard.load(Ordering::Acquire));
    queue.pop().unwrap();
    assert_eq!(2, guard.load(Ordering::Acquire));
    queue.pop().unwrap();
    assert_eq!(3, guard.load(Ordering::Acquire));
}

#[test]
fn queue_drop() {
    let guard = Arc::new(AtomicUsize::new(0));
    {
        let mut queue = Queue::new();

        queue.push(Sentinel(guard.clone()));
        queue.push(Sentinel(guard.clone()));
        queue.push(Sentinel(guard.clone()));
    }
    assert_eq!(3, guard.load(Ordering::Acquire));
}

#[test]
fn queue_len() {
    let mut queue = Queue::new();
    for i in 0..100 {
        queue.push(i);
    }
    assert_eq!(queue.len(), 100)
}

#[test]
fn queue_sanity() {
    let mut queue = Queue::new();
    queue.push(10);
    queue.push(5);
    queue.push(0);
    assert_eq!(queue.pop(), Some(10));
    assert_eq!(queue.pop(), Some(5));
    assert_eq!(queue.pop(), Some(0));
    assert_eq!(queue.pop(), None);
}

#[test]
fn stack_pop_and_drop() {
    let guard = Arc::new(AtomicUsize::new(0));
    let mut stack = Stack::new();

    stack.push(Sentinel(guard.clone()));
    stack.push(Sentinel(guard.clone()));
    stack.push(Sentinel(guard.clone()));
    stack.pop().unwrap();
    assert_eq!(1, guard.load(Ordering::Acquire));
    stack.pop().unwrap();
    assert_eq!(2, guard.load(Ordering::Acquire));
    stack.pop().unwrap();
    assert_eq!(3, guard.load(Ordering::Acquire));
    assert!(stack.pop().is_none());
}

#[test]
fn stack_drop() {
    let guard = Arc::new(AtomicUsize::new(0));
    {
        let mut stack = Stack::new();

        stack.push(Sentinel(guard.clone()));
        stack.push(Sentinel(guard.clone()));
        stack.push(Sentinel(guard.clone()));
    }
    assert_eq!(3, guard.load(Ordering::Acquire));
}

#[test]
fn stack_len() {
    let mut stack = Stack::new();
    let mut len = 0;
    for i in 0..100 {
        stack.push(i);
        len += 1;
    }
    assert_eq!(stack.len(), len)
}

#[test]
fn stack_sanity() {
    let mut stack = Stack::new();
    stack.push(10);
    stack.push(5);
    stack.push(0);
    assert_eq!(stack.pop(), Some(0));
    assert_eq!(stack.pop(), Some(5));
    assert_eq!(stack.pop(), Some(10));
    assert_eq!(stack.pop(), None);
}

#[test]
fn queue_empty_pop_reports_nothing() {
    let mut queue: Queue<u32> = Queue::new();
    assert_eq!(queue.pop(), None);
    assert_eq!(queue.len(), 0);
    queue.push(7);
    assert_eq!(queue.pop(), Some(7));
    assert_eq!(queue.pop(), None);
    assert_eq!(queue.pop(), None);
}

#[test]
fn stack_empty_pop_reports_nothing() {
    let mut stack: Stack<u32> = Stack::new();
    assert_eq!(stack.pop(), None);
    assert_eq!(stack.len(), 0);
    stack.push(7);
    assert_eq!(stack.pop(), Some(7));
    assert_eq!(stack.pop(), None);
}

#[test]
fn queue_interleaved_keeps_order() {
    let mut queue = Queue::new();
    queue.push(1);
    queue.push(2);
    assert_eq!(queue.pop(), Some(1));
    queue.push(3);
    assert_eq!(queue.len(), 2);
    assert_eq!(queue.pop(), Some(2));
    assert_eq!(queue.pop(), Some(3));
    assert_eq!(queue.pop(), None);
    queue.push(4);
    assert_eq!(queue.len(), 1);
    assert_eq!(queue.pop(), Some(4));
}

#[test]
fn stack_interleaved_keeps_order() {
    let mut stack = Stack::new();
    stack.push(1);
    stack.push(2);
    assert_eq!(stack.pop(), Some(2));
    stack.push(3);
    assert_eq!(stack.len(), 2);
    assert_eq!(stack.pop(), Some(3));
    assert_eq!(stack.pop(), Some(1));
    assert_eq!(stack.pop(), None);
}

#[test]
fn queue_drop_after_partial_drain() {
    let guard = Arc::new(AtomicUsize::new(0));
    {
        let mut queue = Queue::new();
        for _ in 0..5 {
            queue.push(Sentinel(guard.clone()));
        }
        queue.pop().unwrap();
        assert_eq!(1, guard.load(Ordering::Acquire));
    }
    assert_eq!(5, guard.load(Ordering::Acquire));
}

#[test]
fn deliver_and_take_steps() {
    let mut queue = Queue::new();
    assert_eq!(deliver(&mut queue, true, 4), Ok(()));
    assert_eq!(deliver(&mut queue, true, 8), Ok(()));
    assert_eq!(deliver(&mut queue, false, 9), Err(9));
    assert_eq!(queue.len(), 2);
    assert_eq!(take(&mut queue, true), Ok(4));
    assert_eq!(take(&mut queue, false), Ok(8));
    assert_eq!(take(&mut queue, true), Err(Error::Empty));
    assert_eq!(take(&mut queue, false), Err(Error::Disconnected));
}

#[test]
fn queue_keeps_order_across_reclamation() {
    let mut queue = Queue::new();
    for i in 0..10 {
        queue.push(i);
    }
    for i in 0..7 {
        assert_eq!(queue.pop(), Some(i));
    }
    assert_eq!(queue.len(), 3);
    for i in 10..15 {
        queue.push(i);
    }
    assert_eq!(queue.len(), 8);
    for i in 7..15 {
        assert_eq!(queue.pop(), Some(i));
    }
    assert_eq!(queue.pop(), None);
}
