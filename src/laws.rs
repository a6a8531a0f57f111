//! Laws that relate several calls on a container or a channel. A run of
//! calls is described by the states between them, each related to the next
//! as the called function's contract says.
use vstd::prelude::*;

use crate::channel::{received, Error};
use crate::lockfree::{with_pushed, LockFree};
use crate::queue::Queue;
use crate::stack::Stack;

verus! {

/// `states` are the containers before and after each of a run of `push`
/// calls that insert `xs` in order.
pub open spec fn push_run<T, S: LockFree<T>>(states: Seq<S>, xs: Seq<T>) -> bool {
    &&& states.len() == xs.len() + 1
    &&& forall|i: int|
        0 <= i < xs.len() ==> (#[trigger] states[i + 1]).items() == with_pushed(states[i].items(), xs[i], states[i].fifo())
}

/// One `pop` call, as its contract relates the container `before` and
/// `after` it to its result `out`.
pub open spec fn pop_step<T, S: LockFree<T>>(before: S, after: S, out: Option<T>) -> bool {
    &&& before.items().len() == 0 ==> out is None && after.items() == before.items()
    &&& before.items().len() > 0 ==> out == Some(before.items()[0]) && after.items()
        == before.items().drop_first()
}

/// `states` are the containers before and after each of a run of `pop`
/// calls whose results are `outs`.
pub open spec fn pop_run<T, S: LockFree<T>>(states: Seq<S>, outs: Seq<Option<T>>) -> bool {
    &&& states.len() == outs.len() + 1
    &&& forall|i: int|
        0 <= i < outs.len() ==> #[trigger] pop_step(states[i], states[i + 1], outs[i])
}

/// One receive step on a channel whose liveness flag reads `connected`, as
/// its contract relates the container `before` and `after` it to its result
/// `out`.
pub open spec fn take_step<T, S: LockFree<T>>(
    before: S,
    after: S,
    connected: bool,
    out: Result<T, Error>,
) -> bool {
    &&& out == received(before.items(), connected)
    &&& before.items().len() > 0 ==> after.items() == before.items().drop_first()
    &&& before.items().len() == 0 ==> after.items() == before.items()
}

/// `states` are the containers before and after each of a run of receive
/// steps on a channel whose liveness flag reads `connected`, with results
/// `outs`.
pub open spec fn take_run<T, S: LockFree<T>>(
    states: Seq<S>,
    connected: bool,
    outs: Seq<Result<T, Error>>,
) -> bool {
    &&& states.len() == outs.len() + 1
    &&& forall|i: int|
        0 <= i < outs.len() ==> #[trigger] take_step(states[i], states[i + 1], connected, outs[i])
}

/// Draining: removing repeatedly from any container whose pending values are
/// `items` hands them out in its removal order, and once they are exhausted
/// every further removal reports that nothing is available.
pub proof fn lemma_drain_then_nothing<T, S: LockFree<T>>(states: Seq<S>, outs: Seq<Option<T>>, items: Seq<T>)
    requires
        pop_run(states, outs),
        states[0].items() == items,
    ensures
        forall|i: int| 0 <= i < outs.len() && i < items.len() ==> outs[i] == Some(#[trigger] items[i]),
        forall|i: int| items.len() <= i < outs.len() ==> #[trigger] outs[i] is None,
    decreases outs.len(),
{
    if outs.len() > 0 {
        let rest_items = if items.len() > 0 { items.drop_first() } else { items };
        assert(pop_step(states[0], states[0int + 1], outs[0]));
        assert forall|i: int| 0 <= i < outs.len() - 1 implies #[trigger] pop_step(
            states.drop_first()[i],
            states.drop_first()[i + 1],
            outs.drop_first()[i],
        ) by {
            assert(pop_step(states[i + 1], states[(i + 1) + 1], outs[i + 1]));
        }
        lemma_drain_then_nothing(states.drop_first(), outs.drop_first(), rest_items);
        assert forall|i: int| 0 <= i < outs.len() && i < items.len() implies outs[i] == Some(
            #[trigger] items[i],
        ) by {
            if i > 0 {
                assert(outs.drop_first()[i - 1] == outs[i]);
                assert(rest_items[i - 1] == items[i]);
            }
        }
        assert forall|i: int| items.len() <= i < outs.len() implies #[trigger] outs[i] is None by {
            if i > 0 {
                assert(outs.drop_first()[i - 1] == outs[i]);
            }
        }
    }
}

/// Inserting `xs` into a queue appends them, in order, behind what it held.
proof fn lemma_queue_push_run<T>(states: Seq<Queue<T>>, xs: Seq<T>)
    requires
        push_run(states, xs),
    ensures
        states.last().items() == states[0].items() + xs,
    decreases xs.len(),
{
    if xs.len() > 0 {
        let k = xs.len() - 1;
        lemma_queue_push_run(states.take(k + 1), xs.take(k));
        assert(states[k + 1].items() == with_pushed(states[k].items(), xs[k], states[k].fifo()));
        assert(xs =~= xs.take(k).push(xs[k]));
        assert(states[0].items() + xs =~= (states[0].items() + xs.take(k)).push(xs[k]));
    } else {
        assert(states[0].items() + xs =~= states[0].items());
    }
}

/// Inserting `xs` into a stack puts them, last one first, on top of what it
/// held.
proof fn lemma_stack_push_run<T>(states: Seq<Stack<T>>, xs: Seq<T>)
    requires
        push_run(states, xs),
    ensures
        states.last().items() == xs.reverse() + states[0].items(),
    decreases xs.len(),
{
    if xs.len() > 0 {
        let k = xs.len() - 1;
        lemma_stack_push_run(states.take(k + 1), xs.take(k));
        assert(states[k + 1].items() == with_pushed(states[k].items(), xs[k], states[k].fifo()));
        assert(xs.reverse() =~= seq![xs[k]] + xs.take(k).reverse());
        assert(xs.reverse() + states[0].items() =~= seq![xs[k]] + (xs.take(k).reverse()
            + states[0].items()));
    } else {
        assert(xs.reverse() + states[0].items() =~= states[0].items());
    }
}

/// First in, first out: values inserted into an empty queue are removed in
/// exactly the order of insertion, none skipped or repeated, and once they
/// are all gone every further removal reports that nothing is available.
pub proof fn lemma_queue_fifo<T>(
    pushes: Seq<Queue<T>>,
    xs: Seq<T>,
    pops: Seq<Queue<T>>,
    outs: Seq<Option<T>>,
)
    requires
        push_run(pushes, xs),
        pushes[0].items().len() == 0,
        pop_run(pops, outs),
        pops[0] == pushes.last(),
    ensures
        forall|i: int| 0 <= i < outs.len() && i < xs.len() ==> outs[i] == Some(#[trigger] xs[i]),
        forall|i: int| xs.len() <= i < outs.len() ==> #[trigger] outs[i] is None,
{
    lemma_queue_push_run(pushes, xs);
    assert(pushes[0].items() + xs =~= xs);
    lemma_drain_then_nothing(pops, outs, xs);
}

/// Last in, first out: values inserted into an empty stack are removed in
/// exactly the reverse order of insertion, and once they are all gone every
/// further removal reports that nothing is available.
pub proof fn lemma_stack_lifo<T>(
    pushes: Seq<Stack<T>>,
    xs: Seq<T>,
    pops: Seq<Stack<T>>,
    outs: Seq<Option<T>>,
)
    requires
        push_run(pushes, xs),
        pushes[0].items().len() == 0,
        pop_run(pops, outs),
        pops[0] == pushes.last(),
    ensures
        forall|i: int|
            0 <= i < outs.len() && i < xs.len() ==> outs[i] == Some(#[trigger] xs[xs.len() - 1 - i]),
        forall|i: int| xs.len() <= i < outs.len() ==> #[trigger] outs[i] is None,
{
    lemma_stack_push_run(pushes, xs);
    assert(xs.reverse() + pushes[0].items() =~= xs.reverse());
    lemma_drain_then_nothing(pops, outs, xs.reverse());
    assert forall|i: int| 0 <= i < outs.len() && i < xs.len() implies outs[i] == Some(
        #[trigger] xs[xs.len() - 1 - i],
    ) by {
        assert(xs.reverse()[i] == xs[xs.len() - 1 - i]);
    }
}

/// One call on a container: `op` is `Some(x)` for a `push` of `x` and `None`
/// for a `pop`, whose result is `out`.
pub open spec fn call_step<T, S: LockFree<T>>(
    before: S,
    after: S,
    op: Option<T>,
    out: Option<T>,
) -> bool {
    match op {
        Some(x) => after.items() == with_pushed(before.items(), x, before.fifo()) && out is None,
        None => pop_step(before, after, out),
    }
}

/// `states` are the containers before and after each of a run of calls
/// `ops`, in the order in which they took effect, with results `outs`.
pub open spec fn call_run<T, S: LockFree<T>>(
    states: Seq<S>,
    ops: Seq<Option<T>>,
    outs: Seq<Option<T>>,
) -> bool {
    &&& states.len() == ops.len() + 1
    &&& outs.len() == ops.len()
    &&& forall|i: int|
        0 <= i < ops.len() ==> #[trigger] call_step(states[i], states[i + 1], ops[i], outs[i])
}

/// The values that the `push` calls among `ops` insert, in order.
pub open spec fn inserted<T>(ops: Seq<Option<T>>) -> Seq<T>
    decreases ops.len(),
{
    if ops.len() == 0 {
        Seq::empty()
    } else {
        let earlier = inserted(ops.drop_last());
        match ops.last() {
            Some(x) => earlier.push(x),
            None => earlier,
        }
    }
}

/// The values that the calls with results `outs` handed out, in order.
pub open spec fn removed<T>(outs: Seq<Option<T>>) -> Seq<T>
    decreases outs.len(),
{
    if outs.len() == 0 {
        Seq::empty()
    } else {
        let earlier = removed(outs.drop_last());
        match outs.last() {
            Some(x) => earlier.push(x),
            None => earlier,
        }
    }
}

/// First in, first out, with insertions and removals interleaved: over any
/// run of calls on a queue that starts empty, the values removed are the
/// values inserted, in insertion order, up to those still pending. So none
/// is skipped, repeated or reordered.
pub proof fn lemma_queue_fifo_interleaved<T>(
    states: Seq<Queue<T>>,
    ops: Seq<Option<T>>,
    outs: Seq<Option<T>>,
)
    requires
        call_run(states, ops, outs),
        states[0].items().len() == 0,
    ensures
        removed(outs) + states.last().items() == inserted(ops),
    decreases ops.len(),
{
    let n = ops.len();
    if n == 0 {
        assert(removed(outs) + states.last().items() =~= inserted(ops));
    } else {
        let k = n - 1;
        assert forall|i: int| 0 <= i < k implies #[trigger] call_step(
            states.take(k + 1)[i],
            states.take(k + 1)[i + 1],
            ops.drop_last()[i],
            outs.drop_last()[i],
        ) by {
            assert(call_step(states[i], states[i + 1], ops[i], outs[i]));
        }
        lemma_queue_fifo_interleaved(states.take(k + 1), ops.drop_last(), outs.drop_last());
        assert(states.take(k + 1).last() == states[k]);
        assert(call_step(states[k], states[k + 1], ops[k], outs[k]));
        let before = states[k].items();
        let done = removed(outs.drop_last());
        match ops[k] {
            Some(x) => {
                assert(done + before.push(x) =~= (done + before).push(x));
            },
            None => {
                if before.len() > 0 {
                    assert(done.push(before[0]) + before.drop_first() =~= done + before);
                }
            },
        }
    }
}

/// Once no sender remains, receiving first drains every pending value, in
/// the container's order, and then reports disconnection on every call.
pub proof fn lemma_drain_then_disconnected<T, S: LockFree<T>>(
    states: Seq<S>,
    outs: Seq<Result<T, Error>>,
)
    requires
        take_run(states, false, outs),
    ensures
        forall|i: int|
            0 <= i < outs.len() && i < states[0].items().len() ==> outs[i] == Ok::<T, Error>(
                #[trigger] states[0].items()[i],
            ),
        forall|i: int|
            states[0].items().len() <= i < outs.len() ==> #[trigger] outs[i] == Err::<T, Error>(
                Error::Disconnected,
            ),
    decreases outs.len(),
{
    if outs.len() > 0 {
        let items = states[0].items();
        assert(take_step(states[0], states[0int + 1], false, outs[0]));
        assert forall|i: int| 0 <= i < outs.len() - 1 implies #[trigger] take_step(
            states.drop_first()[i],
            states.drop_first()[i + 1],
            false,
            outs.drop_first()[i],
        ) by {
            assert(take_step(states[i + 1], states[(i + 1) + 1], false, outs[i + 1]));
        }
        lemma_drain_then_disconnected(states.drop_first(), outs.drop_first());
        assert(states.drop_first()[0] == states[1]);
        assert forall|i: int| 0 <= i < outs.len() && i < items.len() implies outs[i] == Ok::<
            T,
            Error,
        >(#[trigger] items[i]) by {
            if i > 0 {
                assert(outs.drop_first()[i - 1] == outs[i]);
                assert(states[1].items()[i - 1] == items[i]);
            }
        }
        assert forall|i: int| items.len() <= i < outs.len() implies #[trigger] outs[i] == Err::<
            T,
            Error,
        >(Error::Disconnected) by {
            if i > 0 {
                assert(outs.drop_first()[i - 1] == outs[i]);
            }
        }
    }
}

} // verus!
