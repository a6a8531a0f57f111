//! The channel: a shared container behind sender and receiver handles, a
//! liveness flag, and a lock / condition-variable pair used only to park
//! receivers that wait for data.
//!
//! The container sits in a verified reader-writer lock that is held for a
//! single insert, remove or count and never while blocking. The decisions
//! of a send and of a receive are the verified steps `deliver` and `take`,
//! which take the liveness flag as read. Handles are released explicitly by
//! `close`: releasing the last sender, or the last receiver, clears the flag
//! for good, and the last sender also wakes every parked receiver.
use std::sync::atomic::{AtomicBool, AtomicUsize, Ordering};
use std::sync::{Arc, Condvar, Mutex, MutexGuard};
use vstd::prelude::*;
use vstd::rwlock::{RwLock, RwLockPredicate};

use crate::lockfree::{with_pushed, LockFree};
use crate::queue::Queue;
use crate::stack::Stack;

verus! {

/// std's mutex, used only to park and wake receivers; it guards no data.
#[verifier::external_type_specification]
#[verifier::external_body]
#[verifier::reject_recursive_types(T)]
pub struct ExMutex<T: ?Sized>(Mutex<T>);

/// A held lock on that mutex.
#[verifier::external_type_specification]
#[verifier::external_body]
#[verifier::reject_recursive_types(T)]
pub struct ExMutexGuard<'a, T: ?Sized + 'a>(MutexGuard<'a, T>);

/// std's condition variable on which receivers park.
#[verifier::external_type_specification]
#[verifier::external_body]
pub struct ExCondvar(Condvar);

/// Relies on Mutex::new: a fresh, unlocked mutex.
pub assume_specification<T>[ Mutex::<T>::new ](t: T) -> Mutex<T>;

/// Relies on Condvar::new: a condition variable with no waiters.
pub assume_specification[ Condvar::new ]() -> Condvar;

/// Relies on Condvar::notify_one: wakes at most one parked thread.
pub assume_specification[ Condvar::notify_one ](c: &Condvar);

/// Relies on Condvar::notify_all: wakes every parked thread.
pub assume_specification[ Condvar::notify_all ](c: &Condvar);

/// The two kinds of failure a receiver can see.
#[derive(PartialEq, Eq, Structural, Debug, Clone, Copy)]
pub enum Error {
    /// Nothing is available now, but senders remain.
    Empty,
    /// No sender remains and nothing is left to receive.
    Disconnected,
}

impl Error {
    /// A human-readable description.
    pub fn message(&self) -> &'static str {
        match self {
            Error::Disconnected => "Receiver Error: channel is disconnected",
            Error::Empty => "Receiver Error: channel is empty",
        }
    }
}

/// The container of a channel: a queue or a stack, chosen when the channel
/// is built.
pub enum Store<T> {
    Fifo(Queue<T>),
    Lifo(Stack<T>),
}

impl<T> LockFree<T> for Store<T> {
    open spec fn wf(&self) -> bool {
        match self {
            Store::Fifo(q) => q.wf(),
            Store::Lifo(s) => s.wf(),
        }
    }

    open spec fn items(&self) -> Seq<T> {
        match self {
            Store::Fifo(q) => q.items(),
            Store::Lifo(s) => s.items(),
        }
    }

    open spec fn fifo(&self) -> bool {
        self is Fifo
    }

    fn push(&mut self, item: T) {
        match self {
            Store::Fifo(q) => q.push(item),
            Store::Lifo(s) => s.push(item),
        }
    }

    fn pop(&mut self) -> (r: Option<T>) {
        match self {
            Store::Fifo(q) => q.pop(),
            Store::Lifo(s) => s.pop(),
        }
    }

    fn len(&self) -> (n: usize) {
        match self {
            Store::Fifo(q) => q.len(),
            Store::Lifo(s) => s.len(),
        }
    }
}

/// What a receive gives for pending `items` on a channel whose liveness flag
/// reads `connected`: the next item, else `Empty` while connected, else
/// `Disconnected`.
pub open spec fn received<T>(items: Seq<T>, connected: bool) -> Result<T, Error> {
    if items.len() > 0 {
        Ok(items[0])
    } else if connected {
        Err(Error::Empty)
    } else {
        Err(Error::Disconnected)
    }
}

/// The send step: inserts `data` when the channel is connected, and gives it
/// back untouched when it is not.
pub fn deliver<T, S: LockFree<T>>(store: &mut S, connected: bool, data: T) -> (r: Result<(), T>)
    requires
        old(store).wf(),
    ensures
        final(store).wf(),
        final(store).fifo() == old(store).fifo(),
        connected ==> r is Ok && final(store).items() == with_pushed(
            old(store).items(),
            data,
            old(store).fifo(),
        ),
        !connected ==> r == Err::<(), T>(data) && final(store).items() == old(store).items(),
{
    if connected {
        store.push(data);
        Ok(())
    } else {
        Err(data)
    }
}

/// The receive step: removes the next item if there is one; otherwise reports
/// `Empty` or `Disconnected` according to the liveness flag.
pub fn take<T, S: LockFree<T>>(store: &mut S, connected: bool) -> (r: Result<T, Error>)
    requires
        old(store).wf(),
    ensures
        final(store).wf(),
        final(store).fifo() == old(store).fifo(),
        r == received(old(store).items(), connected),
        old(store).items().len() > 0 ==> final(store).items() == old(store).items().drop_first(),
        old(store).items().len() == 0 ==> final(store).items() == old(store).items(),
{
    match store.pop() {
        Some(data) => Ok(data),
        None => {
            if connected {
                Err(Error::Empty)
            } else {
                Err(Error::Disconnected)
            }
        },
    }
}

/// The lock's invariant: the container is well formed and keeps the
/// discipline the channel was built with.
pub struct StoreWf {
    pub fifo: bool,
}

impl<T> RwLockPredicate<Store<T>> for StoreWf {
    open spec fn inv(self, s: Store<T>) -> bool {
        s.wf() && s.fifo() == self.fifo
    }
}

/// The state shared by every handle of one channel.
pub struct Shared<T> {
    data: RwLock<Store<T>, StoreWf>,
    connected: AtomicBool,
    senders: AtomicUsize,
    receivers: AtomicUsize,
    sleepers: AtomicUsize,
    guard: Mutex<()>,
    waker: Condvar,
}

impl<T> Shared<T> {
    /// Whether the channel hands values out first-in-first-out.
    pub closed spec fn fifo(&self) -> bool {
        self.data.pred().fifo
    }

    fn new(store: Store<T>) -> (r: Shared<T>)
        requires
            store.wf(),
        ensures
            r.fifo() == store.fifo(),
    {
        let discipline = Ghost(StoreWf { fifo: store.fifo() });
        Shared {
            data: RwLock::new(store, discipline),
            connected: AtomicBool::new(true),
            senders: AtomicUsize::new(1),
            receivers: AtomicUsize::new(1),
            sleepers: AtomicUsize::new(0),
            guard: Mutex::new(()),
            waker: Condvar::new(),
        }
    }
}

/// Relies on Mutex::lock: blocks until the lock is held. A poisoned lock is
/// taken over, since it guards no data.
#[verifier::external_body]
fn lock_guard(m: &Mutex<()>) -> MutexGuard<'_, ()> {
    match m.lock() {
        Ok(g) => g,
        Err(e) => e.into_inner(),
    }
}

/// Relies on Condvar::wait_while: it returns, holding the lock again, only
/// once `poll` has reported that the receiver need not wait any longer, which
/// it does exactly when it has filled `got`.
#[verifier::external_body]
fn park<'a, T>(
    waker: &Condvar,
    held: MutexGuard<'a, ()>,
    rx: &Receiver<T>,
    got: &mut Option<Result<T, Error>>,
) -> (r: MutexGuard<'a, ()>)
    requires
        *old(got) is None,
    ensures
        *final(got) is Some,
        *final(got) matches Some(Err(e)) ==> e == Error::Disconnected,
{
    match waker.wait_while(held, |_| rx.poll(got)) {
        Ok(g) => g,
        Err(e) => e.into_inner(),
    }
}

impl<T> Shared<T> {
    /// Wakes one parked receiver, if any is parked.
    fn wake_one(&self) {
        if self.sleepers.load(Ordering::SeqCst) > 0 {
            let _held = lock_guard(&self.guard);
            self.waker.notify_one();
        }
    }

    /// Marks the channel disconnected and wakes every parked receiver.
    fn disconnect(&self) {
        self.connected.store(false, Ordering::SeqCst);
        if self.sleepers.load(Ordering::SeqCst) > 0 {
            let _held = lock_guard(&self.guard);
            self.waker.notify_all();
        }
    }
}

/// Builds a connected pair of handles over `store`.
fn channel<T>(store: Store<T>) -> (r: (Sender<T>, Receiver<T>))
    requires
        store.wf(),
    ensures
        r.0.shared() == r.1.shared(),
        r.0.shared().fifo() == store.fifo(),
{
    let shared = Arc::new(Shared::new(store));
    let rx = Receiver::new(shared.clone());
    (Sender::new(shared), rx)
}

/// A channel whose receivers get values in the order they were sent.
pub fn queue<T: Send>() -> (r: (Sender<T>, Receiver<T>))
    ensures
        r.0.shared() == r.1.shared(),
        r.0.shared().fifo(),
{
    channel(Store::Fifo(Queue::new()))
}

/// A channel whose receivers get the most recently sent value first.
pub fn stack<T: Send>() -> (r: (Sender<T>, Receiver<T>))
    ensures
        r.0.shared() == r.1.shared(),
        !r.0.shared().fifo(),
{
    channel(Store::Lifo(Stack::new()))
}

/// A sending handle. Handles are counted: `clone` adds one, `close` releases
/// one, and releasing the last sender disconnects the channel. A handle
/// dropped without `close` is never released, so the channel stays
/// connected.
pub struct Sender<T> {
    shared: Arc<Shared<T>>,
}

/// A receiving handle. Handles are counted: `clone` adds one, `close`
/// releases one, and releasing the last receiver disconnects the channel. A
/// handle dropped without `close` is never released.
pub struct Receiver<T> {
    shared: Arc<Shared<T>>,
}

impl<T> Sender<T> {
    /// The channel this handle belongs to.
    pub closed spec fn shared(&self) -> Shared<T> {
        *self.shared
    }

    fn new(shared: Arc<Shared<T>>) -> (r: Sender<T>)
        ensures
            r.shared() == *shared,
    {
        Sender { shared }
    }

    /// Sends `data` unless the channel is disconnected, in which case `data`
    /// comes back unchanged. Never blocks on other senders or receivers
    /// beyond the container's short critical section.
    pub fn send(&self, data: T) -> (r: Result<(), T>)
        ensures
            r matches Err(v) ==> v == data,
    {
        let connected = self.shared.connected.load(Ordering::SeqCst);
        let (mut store, handle) = self.shared.data.acquire_write();
        let r = deliver(&mut store, connected, data);
        handle.release_write(store);
        if r.is_ok() {
            self.shared.wake_one();
        }
        r
    }

    /// The number of pending values at one moment; a hint only, since other
    /// handles may change it at once.
    pub fn size_hint(&self) -> usize {
        let (store, handle) = self.shared.data.acquire_write();
        let n = store.len();
        handle.release_write(store);
        n
    }

    /// Releases this sender; releasing the last one disconnects the channel
    /// and wakes every parked receiver.
    pub fn close(self) {
        if self.shared.senders.fetch_sub(1, Ordering::SeqCst) == 1 {
            self.shared.disconnect();
        }
    }
}

impl<T> Clone for Sender<T> {
    fn clone(&self) -> (r: Sender<T>)
        ensures
            r.shared() == self.shared(),
    {
        self.shared.senders.fetch_add(1, Ordering::SeqCst);
        Sender { shared: self.shared.clone() }
    }
}

impl<T> Receiver<T> {
    /// The channel this handle belongs to.
    pub closed spec fn shared(&self) -> Shared<T> {
        *self.shared
    }

    fn new(shared: Arc<Shared<T>>) -> (r: Receiver<T>)
        ensures
            r.shared() == *shared,
    {
        Receiver { shared }
    }

    /// Receives without blocking: the next value, else `Empty` while the
    /// channel is connected, else `Disconnected`. The liveness flag is read
    /// before the container, so values sent before the last sender left are
    /// drained before `Disconnected` is reported.
    pub fn try_recv(&self) -> (r: Result<T, Error>) {
        let connected = self.shared.connected.load(Ordering::SeqCst);
        let (mut store, handle) = self.shared.data.acquire_write();
        let r = take(&mut store, connected);
        handle.release_write(store);
        r
    }

    /// One look while parked: fills `got` with the outcome of a receive unless
    /// that outcome is `Empty`, and reports whether to keep waiting.
    fn poll(&self, got: &mut Option<Result<T, Error>>) -> (waiting: bool)
        ensures
            waiting == (*final(got) is None),
            *old(got) is Some ==> *final(got) == *old(got),
            *old(got) is None ==> (*final(got) matches Some(Err(e)) ==> e == Error::Disconnected),
    {
        if got.is_some() {
            return false;
        }
        match self.try_recv() {
            Err(Error::Empty) => true,
            outcome => {
                *got = Some(outcome);
                false
            },
        }
    }

    /// Receives, parking the thread while the channel is empty and connected.
    /// Returns a value, or `Disconnected` once no sender remains and nothing
    /// is left; never `Empty`.
    pub fn recv(&self) -> (r: Result<T, Error>)
        ensures
            r matches Err(e) ==> e == Error::Disconnected,
    {
        let first = self.try_recv();
        match first {
            Err(Error::Empty) => {},
            _ => {
                return first;
            },
        }
        let held = lock_guard(&self.shared.guard);
        self.shared.sleepers.fetch_add(1, Ordering::SeqCst);
        let mut got: Option<Result<T, Error>> = None;
        let _held = park(&self.shared.waker, held, self, &mut got);
        self.shared.sleepers.fetch_sub(1, Ordering::SeqCst);
        match got {
            Some(outcome) => outcome,
            None => Err(Error::Disconnected),
        }
    }

    /// Releases this receiver; releasing the last one disconnects the channel,
    /// so that further sends give their value back.
    pub fn close(self) {
        if self.shared.receivers.fetch_sub(1, Ordering::SeqCst) == 1 {
            self.shared.connected.store(false, Ordering::SeqCst);
        }
    }
}

impl<T> Clone for Receiver<T> {
    fn clone(&self) -> (r: Receiver<T>)
        ensures
            r.shared() == self.shared(),
    {
        self.shared.receivers.fetch_add(1, Ordering::SeqCst);
        Receiver { shared: self.shared.clone() }
    }
}

} // verus!
