//! Multi-producer, multi-consumer channels over two linked-list containers:
//! a first-in-first-out queue and a last-in-first-out stack.

pub mod channel;
pub mod laws;
pub mod lockfree;
pub mod queue;
pub mod stack;

pub use channel::{queue, stack, Error, Receiver, Sender};
pub use lockfree::LockFree;
pub use queue::Queue;
pub use stack::Stack;
