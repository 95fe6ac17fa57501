use vstd::prelude::*;
use std::collections::VecDeque;

verus! {

/// What one enqueue does to the contents `q` of a channel that holds at most
/// `cap` events: the event is appended when there is room, dropped otherwise.
pub open spec fn send_step<T>(q: Seq<T>, cap: nat, v: T) -> Seq<T> {
    if q.len() < cap {
        q.push(v)
    } else {
        q
    }
}

/// The contents after enqueueing `xs` in order, with no dequeue in between.
pub open spec fn send_all<T>(q: Seq<T>, cap: nat, xs: Seq<T>) -> Seq<T>
    decreases xs.len(),
{
    if xs.len() == 0 {
        q
    } else {
        send_step(send_all(q, cap, xs.drop_last()), cap, xs.last())
    }
}

/// A fixed-capacity FIFO handoff from the ring-buffer callback to the batching
/// loop. Enqueueing never blocks: when the channel is full the new event is
/// handed back and the caller drops it.
pub struct BoundedChannel<T> {
    items: VecDeque<T>,
    capacity: usize,
}

impl<T> View for BoundedChannel<T> {
    type V = Seq<T>;

    closed spec fn view(&self) -> Seq<T> {
        self.items@
    }
}

impl<T> BoundedChannel<T> {
    pub closed spec fn cap(&self) -> nat {
        self.capacity as nat
    }

    pub closed spec fn wf(&self) -> bool {
        &&& 0 < self.capacity
        &&& self.items@.len() <= self.capacity
    }

    /// An empty channel that holds at most `capacity` events.
    pub fn new(capacity: usize) -> (r: Self)
        requires
            capacity > 0,
        ensures
            r.wf(),
            r@ == Seq::<T>::empty(),
            r.cap() == capacity,
    {
        BoundedChannel { items: VecDeque::new(), capacity }
    }

    pub fn capacity(&self) -> (r: usize)
        ensures
            r == self.cap(),
    {
        self.capacity
    }

    pub fn len(&self) -> (r: usize)
        ensures
            r == self@.len(),
    {
        self.items.len()
    }

    pub fn is_empty(&self) -> (r: bool)
        ensures
            r == (self@.len() == 0),
    {
        self.items.len() == 0
    }

    pub fn is_full(&self) -> (r: bool)
        requires
            self.wf(),
        ensures
            r == (self@.len() >= self.cap()),
    {
        self.items.len() >= self.capacity
    }

    /// Enqueues `v` when there is room; otherwise leaves the channel as it
    /// was and hands `v` back.
    pub fn try_send(&mut self, v: T) -> (r: Result<(), T>)
        requires
            old(self).wf(),
        ensures
            final(self).wf(),
            final(self).cap() == old(self).cap(),
            final(self)@ == send_step(old(self)@, old(self).cap(), v),
            old(self)@.len() < old(self).cap() <==> r is Ok,
            r matches Err(w) ==> w == v,
    {
        if self.items.len() < self.capacity {
            self.items.push_back(v);
            Ok(())
        } else {
            Err(v)
        }
    }

    /// Takes the oldest event, if any.
    pub fn try_recv(&mut self) -> (r: Option<T>)
        requires
            old(self).wf(),
        ensures
            final(self).wf(),
            final(self).cap() == old(self).cap(),
            old(self)@.len() == 0 ==> r is None && final(self)@ == old(self)@,
            old(self)@.len() > 0 ==> r == Some(old(self)@[0]) && final(self)@ == old(self)@.drop_first(),
    {
        self.items.pop_front()
    }
}

/// Enqueueing into a channel that has room for everything keeps every event,
/// in order; past the capacity, exactly the first events that fit are kept and
/// the rest are dropped.
pub proof fn lemma_send_all<T>(q: Seq<T>, cap: nat, xs: Seq<T>)
    requires
        q.len() <= cap,
    ensures
        (q.len() + xs.len() <= cap) ==> send_all(q, cap, xs) == q + xs,
        (q.len() + xs.len() > cap) ==> send_all(q, cap, xs) == (q + xs).take(cap as int),
    decreases xs.len(),
{
    if xs.len() == 0 {
        assert(q + xs =~= q);
    } else {
        let init = xs.drop_last();
        lemma_send_all(q, cap, init);
        let prev = send_all(q, cap, init);
        if q.len() + xs.len() <= cap {
            assert(prev.push(xs.last()) =~= q + xs);
        } else if q.len() + init.len() < cap {
            assert(prev.push(xs.last()) =~= (q + xs).take(cap as int));
        } else {
            assert((q + init).take(cap as int) =~= (q + xs).take(cap as int));
        }
    }
}

/// With no dequeue in between, `n` enqueues into an empty channel of capacity
/// `cap` deliver all `n` events in enqueue order when `n <= cap`; when
/// `n > cap` exactly `cap` events are retained, the first ones.
pub proof fn lemma_bounded_loss<T>(cap: nat, xs: Seq<T>)
    ensures
        xs.len() <= cap ==> send_all(Seq::<T>::empty(), cap, xs) == xs,
        xs.len() > cap ==> send_all(Seq::<T>::empty(), cap, xs) == xs.take(cap as int),
        send_all(Seq::<T>::empty(), cap, xs).len() == if xs.len() <= cap { xs.len() } else { cap },
{
    lemma_send_all(Seq::<T>::empty(), cap, xs);
    assert(Seq::<T>::empty() + xs =~= xs);
}

} // verus!
