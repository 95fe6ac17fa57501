use vstd::prelude::*;

verus! {

/// Abstract state of a batch aggregator: the buffered events, the time (in
/// milliseconds) at which the current batch got its first event, and whether
/// the final flush has been done.
pub struct BatchState<T> {
    pub pending: Seq<T>,
    pub since: u64,
    pub finished: bool,
}

pub open spec fn empty_state<T>(since: u64, finished: bool) -> BatchState<T> {
    BatchState { pending: Seq::empty(), since, finished }
}

/// Adding `ev` at time `now`: a batch that reaches `threshold` events is
/// flushed whole; otherwise the event is buffered, and the first event of a
/// batch starts its idle clock.
pub open spec fn push_model<T>(s: BatchState<T>, threshold: nat, ev: T, now: u64) -> (
    BatchState<T>,
    Option<Seq<T>>,
) {
    let b = s.pending.push(ev);
    let since = if s.pending.len() == 0 {
        now
    } else {
        s.since
    };
    if b.len() >= threshold {
        (empty_state(since, s.finished), Some(b))
    } else {
        (BatchState { pending: b, since, finished: s.finished }, None)
    }
}

/// The idle flush is due at `now` when events are buffered and `idle`
/// milliseconds have passed since the batch got its first one.
pub open spec fn idle_due<T>(s: BatchState<T>, idle: nat, now: u64) -> bool {
    s.pending.len() > 0 && now >= s.since + idle
}

/// A timer check at `now`: flushes the whole batch when the idle flush is due.
pub open spec fn tick_model<T>(s: BatchState<T>, idle: nat, now: u64) -> (
    BatchState<T>,
    Option<Seq<T>>,
) {
    if idle_due(s, idle, now) {
        (empty_state(s.since, s.finished), Some(s.pending))
    } else {
        (s, None)
    }
}

/// The shutdown signal: flushes what is buffered, if anything, and finishes.
pub open spec fn shutdown_model<T>(s: BatchState<T>) -> (BatchState<T>, Option<Seq<T>>) {
    if s.pending.len() > 0 {
        (empty_state(s.since, true), Some(s.pending))
    } else {
        (empty_state(s.since, true), None)
    }
}

pub open spec fn opt_view<T>(o: Option<Vec<T>>) -> Option<Seq<T>> {
    match o {
        Some(v) => Some(v@),
        None => None,
    }
}

/// Accumulates decoded events of one source and decides when they are
/// written out: when the batch reaches its size threshold, when it has waited
/// for the idle duration, and once more on shutdown.
pub struct BatchAggregator<T> {
    batch: Vec<T>,
    threshold: usize,
    idle_ms: u64,
    since_ms: u64,
    finished: bool,
}

impl<T> BatchAggregator<T> {
    pub closed spec fn state(&self) -> BatchState<T> {
        BatchState { pending: self.batch@, since: self.since_ms, finished: self.finished }
    }

    pub closed spec fn threshold_spec(&self) -> nat {
        self.threshold as nat
    }

    pub closed spec fn idle_spec(&self) -> nat {
        self.idle_ms as nat
    }

    /// The batch stays under its threshold, and a finished aggregator holds
    /// nothing.
    pub closed spec fn wf(&self) -> bool {
        &&& self.threshold > 0
        &&& self.batch@.len() < self.threshold
        &&& self.finished ==> self.batch@.len() == 0
    }

    /// An empty aggregator that flushes at `threshold` events or after
    /// `idle_ms` milliseconds.
    pub fn new(threshold: usize, idle_ms: u64) -> (r: Self)
        requires
            threshold > 0,
        ensures
            r.wf(),
            r.state() == empty_state::<T>(0, false),
            r.threshold_spec() == threshold,
            r.idle_spec() == idle_ms,
    {
        BatchAggregator {
            batch: Vec::with_capacity(threshold),
            threshold,
            idle_ms,
            since_ms: 0,
            finished: false,
        }
    }

    pub fn len(&self) -> (r: usize)
        ensures
            r == self.state().pending.len(),
    {
        self.batch.len()
    }

    pub fn is_empty(&self) -> (r: bool)
        ensures
            r == (self.state().pending.len() == 0),
    {
        self.batch.len() == 0
    }

    pub fn is_finished(&self) -> (r: bool)
        ensures
            r == self.state().finished,
    {
        self.finished
    }

    /// When the idle flush falls due, if events are buffered (saturating at
    /// the largest time).
    pub fn idle_deadline(&self) -> (r: Option<u64>)
        ensures
            self.state().pending.len() == 0 <==> r is None,
            r matches Some(t) ==> (if self.state().since + self.idle_spec() <= u64::MAX {
                t == self.state().since + self.idle_spec()
            } else {
                t == u64::MAX
            }),
    {
        if self.batch.len() == 0 {
            None
        } else {
            Some(self.since_ms.saturating_add(self.idle_ms))
        }
    }

    /// Moves the buffered events out, leaving an empty batch.
    fn take_batch(&mut self) -> (r: Vec<T>)
        ensures
            r@ == old(self).batch@,
            final(self).batch@ == Seq::<T>::empty(),
            final(self).threshold == old(self).threshold,
            final(self).idle_ms == old(self).idle_ms,
            final(self).since_ms == old(self).since_ms,
            final(self).finished == old(self).finished,
    {
        let mut out: Vec<T> = Vec::new();
        std::mem::swap(&mut out, &mut self.batch);
        out
    }

    /// Buffers `ev`, which arrived at `now`; hands back the whole batch when
    /// it reaches the threshold.
    pub fn push(&mut self, ev: T, now: u64) -> (r: Option<Vec<T>>)
        requires
            old(self).wf(),
            !old(self).state().finished,
        ensures
            final(self).wf(),
            final(self).threshold_spec() == old(self).threshold_spec(),
            final(self).idle_spec() == old(self).idle_spec(),
            (final(self).state(), opt_view(r)) == push_model(
                old(self).state(),
                old(self).threshold_spec(),
                ev,
                now,
            ),
            r matches Some(v) ==> v@.len() == old(self).threshold_spec(),
    {
        if self.batch.len() == 0 {
            self.since_ms = now;
        }
        self.batch.push(ev);
        if self.batch.len() >= self.threshold {
            Some(self.take_batch())
        } else {
            None
        }
    }

    /// Timer check at `now`: hands back the whole batch when events are
    /// buffered and the idle duration has passed since the first of them.
    pub fn tick(&mut self, now: u64) -> (r: Option<Vec<T>>)
        requires
            old(self).wf(),
        ensures
            final(self).wf(),
            final(self).threshold_spec() == old(self).threshold_spec(),
            final(self).idle_spec() == old(self).idle_spec(),
            (final(self).state(), opt_view(r)) == tick_model(
                old(self).state(),
                old(self).idle_spec(),
                now,
            ),
    {
        if self.batch.len() > 0 && now >= self.since_ms && now - self.since_ms >= self.idle_ms {
            Some(self.take_batch())
        } else {
            None
        }
    }

    /// The shutdown signal: hands back what is buffered, if anything, and
    /// marks the aggregator finished. Later calls hand back nothing.
    pub fn shutdown(&mut self) -> (r: Option<Vec<T>>)
        requires
            old(self).wf(),
        ensures
            final(self).wf(),
            final(self).threshold_spec() == old(self).threshold_spec(),
            final(self).idle_spec() == old(self).idle_spec(),
            (final(self).state(), opt_view(r)) == shutdown_model(old(self).state()),
    {
        self.finished = true;
        if self.batch.len() > 0 {
            Some(self.take_batch())
        } else {
            assert(self.batch@ =~= Seq::<T>::empty());
            None
        }
    }
}

/// Given a non-empty batch and no further arrivals, the timer check at the
/// idle deadline (or any time after it) flushes exactly the buffered events
/// and leaves the batch empty; before the deadline nothing is flushed.
pub proof fn lemma_idle_flush<T>(s: BatchState<T>, idle: nat, now: u64)
    requires
        s.pending.len() > 0,
    ensures
        now >= s.since + idle ==> tick_model(s, idle, now) == (
            empty_state::<T>(s.since, s.finished),
            Some(s.pending),
        ),
        now < s.since + idle ==> tick_model(s, idle, now) == (s, None::<Seq<T>>),
{
}

/// The first event of a batch starts its idle clock: pushed at `now` into an
/// empty batch below the threshold, it is flushed by a timer check at
/// `now + idle`.
pub proof fn lemma_idle_clock_starts<T>(s: BatchState<T>, threshold: nat, idle: nat, ev: T, now: u64)
    requires
        s.pending.len() == 0,
        threshold > 1,
        now + idle <= u64::MAX,
    ensures
        ({
            let (s1, f1) = push_model(s, threshold, ev, now);
            &&& f1 is None
            &&& s1.since == now
            &&& tick_model(s1, idle, (now + idle) as u64).1 == Some(seq![ev])
        }),
{
    let (s1, f1) = push_model(s, threshold, ev, now);
    assert(s1.pending =~= seq![ev]);
}

/// Shutdown with `k` buffered events flushes exactly those `k` events once
/// (nothing when `k` is zero), and afterwards neither a timer check nor a
/// repeated shutdown flushes anything.
pub proof fn lemma_shutdown_drain<T>(s: BatchState<T>, idle: nat, later: u64)
    ensures
        ({
            let (s1, f1) = shutdown_model(s);
            &&& s1.finished
            &&& s1.pending.len() == 0
            &&& (s.pending.len() > 0 ==> f1 == Some(s.pending))
            &&& (s.pending.len() == 0 ==> f1 is None)
            &&& tick_model(s1, idle, later).1 is None
            &&& shutdown_model(s1).1 is None
        }),
{
}

} // verus!
