use vstd::prelude::*;

use crate::events::KeyEvent;

verus! {

/// The abstract state of a [`KeyEventBuffer`].
///
/// Times are milliseconds on a clock chosen by the caller; `in_flight` is the
/// batch detached for writing whose outcome is not yet known (empty when no
/// flush is in flight).
pub struct BufferState {
    pub pending: Seq<KeyEvent>,
    pub in_flight: Seq<KeyEvent>,
    pub last_flush: int,
    pub flush_threshold: int,
    pub flush_interval: int,
}

impl BufferState {
    /// Whether a flush is in flight: a detached batch awaits its outcome.
    pub open spec fn flushing(self) -> bool {
        self.in_flight.len() > 0
    }
}

/// Time passed since `since`; a clock read that lies before `since` counts as
/// no time at all.
pub open spec fn elapsed(since: int, now: int) -> int {
    if now >= since {
        now - since
    } else {
        0
    }
}

/// A freshly created buffer.
pub open spec fn initial_state(flush_threshold: int, flush_interval: int, now: int) -> BufferState {
    BufferState {
        pending: Seq::empty(),
        in_flight: Seq::empty(),
        last_flush: now,
        flush_threshold,
        flush_interval,
    }
}

/// The flush trigger: enough events are pending, or the interval has passed.
pub open spec fn flush_due(s: BufferState, now: int) -> bool {
    s.pending.len() >= s.flush_threshold || elapsed(s.last_flush, now) >= s.flush_interval
}

/// Starting a flush: detach every pending event as one batch, unless the buffer
/// is empty or another flush is still in flight.
pub open spec fn begin_flush(s: BufferState) -> (BufferState, Option<Seq<KeyEvent>>) {
    if s.flushing() || s.pending.len() == 0 {
        (s, None)
    } else {
        (BufferState { pending: Seq::empty(), in_flight: s.pending, ..s }, Some(s.pending))
    }
}

/// Pushing one event: append it, then start a flush if the trigger fires.
pub open spec fn push_step(s: BufferState, e: KeyEvent, now: int) -> (BufferState, Option<Seq<KeyEvent>>) {
    let s1 = BufferState { pending: s.pending.push(e), ..s };
    if flush_due(s1, now) {
        begin_flush(s1)
    } else {
        (s1, None)
    }
}

/// The batch in flight was stored: the flush clock restarts at `now`.
pub open spec fn flush_ok(s: BufferState, now: int) -> BufferState {
    BufferState { in_flight: Seq::empty(), last_flush: now, ..s }
}

/// The batch in flight was not stored: it goes back in front of whatever was
/// pushed meanwhile, in its original order.
pub open spec fn flush_err(s: BufferState) -> BufferState {
    BufferState { pending: s.in_flight + s.pending, in_flight: Seq::empty(), ..s }
}

/// The events of a list of batches, batch after batch.
pub open spec fn concat_batches(batches: Seq<Seq<KeyEvent>>) -> Seq<KeyEvent>
    decreases batches.len(),
{
    if batches.len() == 0 {
        Seq::empty()
    } else {
        concat_batches(batches.drop_last()) + batches.last()
    }
}

/// Pushes `pushes` (each an event and the time of its push) one by one, where
/// every batch that a push hands out is stored at once and successfully.
/// Gives the final state and the batches stored, in order.
pub open spec fn run_pushes(s: BufferState, pushes: Seq<(KeyEvent, int)>) -> (BufferState, Seq<Seq<KeyEvent>>)
    decreases pushes.len(),
{
    if pushes.len() == 0 {
        (s, Seq::empty())
    } else {
        let (s0, stored) = run_pushes(s, pushes.drop_last());
        let (e, t) = pushes.last();
        let (s1, out) = push_step(s0, e, t);
        match out {
            Some(batch) => (flush_ok(s1, t), stored.push(batch)),
            None => (s1, stored),
        }
    }
}

/// The events of a list of pushes.
pub open spec fn pushed_events(pushes: Seq<(KeyEvent, int)>) -> Seq<KeyEvent> {
    pushes.map_values(|p: (KeyEvent, int)| p.0)
}

/// The contents of a batch handed out for writing, if any.
pub open spec fn batch_of(r: Option<Vec<KeyEvent>>) -> Option<Seq<KeyEvent>> {
    match r {
        Some(b) => Some(b@),
        None => None,
    }
}

proof fn lemma_pushed_events_last(pushes: Seq<(KeyEvent, int)>)
    requires
        pushes.len() > 0,
    ensures
        pushed_events(pushes) == pushed_events(pushes.drop_last()).push(pushes.last().0),
{
    assert(pushed_events(pushes) =~= pushed_events(pushes.drop_last()).push(pushes.last().0));
}

/// One call on a buffer, at a given time: a push of an event, or an explicit
/// flush.
pub enum BufferOp {
    Push(KeyEvent, int),
    Flush(int),
}

/// Applies `ops` one by one, where every batch that a push or a flush hands
/// out is stored at once and successfully. Gives the final state and the
/// batches stored, in order.
pub open spec fn run_ops(s: BufferState, ops: Seq<BufferOp>) -> (BufferState, Seq<Seq<KeyEvent>>)
    decreases ops.len(),
{
    if ops.len() == 0 {
        (s, Seq::empty())
    } else {
        let (s0, stored) = run_ops(s, ops.drop_last());
        let (s1, out, t) = match ops.last() {
            BufferOp::Push(e, t) => {
                let (s1, out) = push_step(s0, e, t);
                (s1, out, t)
            },
            BufferOp::Flush(t) => {
                let (s1, out) = begin_flush(s0);
                (s1, out, t)
            },
        };
        match out {
            Some(batch) => (flush_ok(s1, t), stored.push(batch)),
            None => (s1, stored),
        }
    }
}

/// The events pushed by `ops`, in order.
pub open spec fn ops_pushed(ops: Seq<BufferOp>) -> Seq<KeyEvent>
    decreases ops.len(),
{
    if ops.len() == 0 {
        Seq::empty()
    } else {
        match ops.last() {
            BufferOp::Push(e, _) => ops_pushed(ops.drop_last()).push(e),
            BufferOp::Flush(_) => ops_pushed(ops.drop_last()),
        }
    }
}

proof fn lemma_ops_keep_all(s: BufferState, ops: Seq<BufferOp>)
    requires
        !s.flushing(),
    ensures
        concat_batches(run_ops(s, ops).1) + run_ops(s, ops).0.pending == s.pending + ops_pushed(ops),
        !run_ops(s, ops).0.flushing(),
    decreases ops.len(),
{
    if ops.len() == 0 {
        assert(s.pending + Seq::<KeyEvent>::empty() =~= s.pending);
        assert(Seq::<KeyEvent>::empty() + s.pending =~= s.pending);
    } else {
        lemma_ops_keep_all(s, ops.drop_last());
        let (s0, stored) = run_ops(s, ops.drop_last());
        match ops.last() {
            BufferOp::Push(e, t) => {
                let (s1, out) = push_step(s0, e, t);
                assert(concat_batches(stored) + s0.pending.push(e) =~= (concat_batches(stored)
                    + s0.pending).push(e));
                assert(s.pending + ops_pushed(ops.drop_last()).push(e) =~= (s.pending + ops_pushed(
                    ops.drop_last(),
                )).push(e));
                match out {
                    Some(batch) => {
                        assert(stored.push(batch).drop_last() =~= stored);
                        assert(concat_batches(stored.push(batch)) + Seq::<KeyEvent>::empty()
                            =~= concat_batches(stored) + batch);
                    },
                    None => {},
                }
            },
            BufferOp::Flush(t) => {
                let (s1, out) = begin_flush(s0);
                match out {
                    Some(batch) => {
                        assert(stored.push(batch).drop_last() =~= stored);
                        assert(concat_batches(stored.push(batch)) + Seq::<KeyEvent>::empty()
                            =~= concat_batches(stored) + s0.pending);
                    },
                    None => {},
                }
            },
        }
    }
}

/// No loss and no duplication: when every batch that the buffer hands out is
/// stored, then after any sequence of pushes and explicit flushes, the
/// batches stored, followed by the events still pending, are exactly the
/// events pushed, in the order of their pushes, whatever the threshold, the
/// interval and the times; no flush is left in flight, so a final flush hands
/// out the rest and the store then holds every pushed event exactly once.
pub proof fn lemma_all_pushed_events_stored(
    flush_threshold: int,
    flush_interval: int,
    start: int,
    ops: Seq<BufferOp>,
)
    ensures
        ({
            let (s, stored) = run_ops(initial_state(flush_threshold, flush_interval, start), ops);
            &&& concat_batches(stored) + s.pending == ops_pushed(ops)
            &&& !s.flushing()
            &&& begin_flush(s).1 == if s.pending.len() == 0 {
                None
            } else {
                Some(s.pending)
            }
        }),
{
    let s = initial_state(flush_threshold, flush_interval, start);
    lemma_ops_keep_all(s, ops);
    assert(s.pending + ops_pushed(ops) =~= ops_pushed(ops));
}

/// Every time in `pushes` lies in `[start, start + flush_interval)`.
pub open spec fn all_within(pushes: Seq<(KeyEvent, int)>, start: int, flush_interval: int) -> bool {
    forall|i: int| 0 <= i < pushes.len() ==> start <= #[trigger] pushes[i].1 < start + flush_interval
}

proof fn lemma_quiet_pushes(
    flush_threshold: int,
    flush_interval: int,
    start: int,
    pushes: Seq<(KeyEvent, int)>,
)
    requires
        pushes.len() < flush_threshold,
        all_within(pushes, start, flush_interval),
    ensures
        run_pushes(initial_state(flush_threshold, flush_interval, start), pushes) == (
        BufferState { pending: pushed_events(pushes), ..initial_state(flush_threshold, flush_interval, start) },
        Seq::<Seq<KeyEvent>>::empty()),
    decreases pushes.len(),
{
    if pushes.len() == 0 {
        assert(pushed_events(pushes) =~= Seq::empty());
    } else {
        let p = pushes.drop_last();
        assert(all_within(p, start, flush_interval)) by {
            assert forall|i: int| 0 <= i < p.len() implies start <= #[trigger] p[i].1 < start
                + flush_interval by {
                assert(p[i] == pushes[i]);
            }
        }
        lemma_quiet_pushes(flush_threshold, flush_interval, start, p);
        lemma_pushed_events_last(pushes);
        assert(start <= pushes[pushes.len() - 1].1 < start + flush_interval);
    }
}

/// Pushing exactly `flush_threshold` events, all before the interval has run
/// out, makes exactly one flush: at the last push, of all the events pushed.
pub proof fn lemma_threshold_flushes_once(
    flush_threshold: int,
    flush_interval: int,
    start: int,
    pushes: Seq<(KeyEvent, int)>,
)
    requires
        flush_threshold >= 1,
        pushes.len() == flush_threshold,
        all_within(pushes, start, flush_interval),
    ensures
        ({
            let (s, stored) = run_pushes(
                initial_state(flush_threshold, flush_interval, start),
                pushes,
            );
            &&& stored == seq![pushed_events(pushes)]
            &&& s.pending.len() == 0
            &&& !s.flushing()
        }),
{
    let p = pushes.drop_last();
    assert(all_within(p, start, flush_interval)) by {
        assert forall|i: int| 0 <= i < p.len() implies start <= #[trigger] p[i].1 < start
            + flush_interval by {
            assert(p[i] == pushes[i]);
        }
    }
    lemma_quiet_pushes(flush_threshold, flush_interval, start, p);
    lemma_pushed_events_last(pushes);
    assert(Seq::<Seq<KeyEvent>>::empty().push(pushed_events(pushes)) =~= seq![pushed_events(pushes)]);
}

/// Fewer than `flush_threshold` pushes inside the interval make no flush; one
/// more push at a time when the interval has run out flushes everything
/// accumulated, that last event included.
pub proof fn lemma_interval_flush_on_next_push(
    flush_threshold: int,
    flush_interval: int,
    start: int,
    pushes: Seq<(KeyEvent, int)>,
    last: KeyEvent,
    last_time: int,
)
    requires
        pushes.len() < flush_threshold,
        all_within(pushes, start, flush_interval),
        last_time >= start + flush_interval,
    ensures
        run_pushes(initial_state(flush_threshold, flush_interval, start), pushes).1.len() == 0,
        ({
            let (s, stored) = run_pushes(
                initial_state(flush_threshold, flush_interval, start),
                pushes.push((last, last_time)),
            );
            &&& stored == seq![pushed_events(pushes).push(last)]
            &&& s.pending.len() == 0
            &&& !s.flushing()
        }),
{
    lemma_quiet_pushes(flush_threshold, flush_interval, start, pushes);
    let all = pushes.push((last, last_time));
    assert(all.drop_last() =~= pushes);
    assert(Seq::<Seq<KeyEvent>>::empty().push(pushed_events(pushes).push(last))
        =~= seq![pushed_events(pushes).push(last)]);
}

/// A push below the threshold, before the interval has run out, only appends:
/// nothing is handed out and the flush clock is untouched.
pub proof fn lemma_quiet_push_only_appends(s: BufferState, e: KeyEvent, now: int)
    requires
        s.pending.len() + 1 < s.flush_threshold,
        elapsed(s.last_flush, now) < s.flush_interval,
    ensures
        push_step(s, e, now) == (BufferState { pending: s.pending.push(e), ..s }, None::<Seq<KeyEvent>>),
{
}

/// A push once the interval has run out, with no flush in flight, hands out
/// every accumulated event and the new one as one batch; storing it empties
/// the buffer and restarts the flush clock at the time of the push.
pub proof fn lemma_push_after_interval_flushes_all(s: BufferState, e: KeyEvent, now: int)
    requires
        !s.flushing(),
        elapsed(s.last_flush, now) >= s.flush_interval,
    ensures
        push_step(s, e, now).1 == Some(s.pending.push(e)),
        flush_ok(push_step(s, e, now).0, now) == (BufferState {
            pending: Seq::empty(),
            last_flush: now,
            ..s
        }),
{
    assert(s.in_flight =~= Seq::empty());
}

/// A failed flush loses nothing: it hands out all pending events, reporting
/// the failure restores the state from before the flush, and the next flush
/// hands out the very same batch, which a success then stores.
pub proof fn lemma_failed_flush_retried_in_full(s: BufferState, now: int)
    requires
        !s.flushing(),
        s.pending.len() > 0,
    ensures
        begin_flush(s).1 == Some(s.pending),
        flush_err(begin_flush(s).0) == s,
        begin_flush(flush_err(begin_flush(s).0)) == begin_flush(s),
        flush_ok(begin_flush(s).0, now) == (BufferState { pending: Seq::empty(), last_flush: now, ..s }),
{
    assert(s.pending + Seq::<KeyEvent>::empty() =~= s.pending);
    assert(s.in_flight =~= Seq::empty());
}

/// Accumulates key events in memory and decides when they are written out.
///
/// The buffer does no I/O itself. When `push` or `flush` returns `true`, a
/// batch has been detached: the caller writes `in_flight()` and reports the
/// outcome with `flush_succeeded` or `flush_failed`. At most one batch is in
/// flight at a time.
pub struct KeyEventBuffer {
    events: Vec<KeyEvent>,
    in_flight: Vec<KeyEvent>,
    last_flush: u64,
    flush_threshold: usize,
    flush_interval: u64,
}

impl View for KeyEventBuffer {
    type V = BufferState;

    closed spec fn view(&self) -> BufferState {
        BufferState {
            pending: self.events@,
            in_flight: self.in_flight@,
            last_flush: self.last_flush as int,
            flush_threshold: self.flush_threshold as int,
            flush_interval: self.flush_interval as int,
        }
    }
}

impl KeyEventBuffer {
    /// The threshold, the interval and the time of the last flush of a buffer
    /// are never negative.
    pub proof fn lemma_bounds(&self)
        ensures
            self@.flush_threshold >= 0,
            self@.flush_interval >= 0,
            self@.last_flush >= 0,
    {
    }

    /// An empty buffer whose flush clock starts at `now`.
    pub fn new(flush_threshold: usize, flush_interval: u64, now: u64) -> (r: Self)
        ensures
            r@ == initial_state(flush_threshold as int, flush_interval as int, now as int),
    {
        let r = KeyEventBuffer {
            events: Vec::new(),
            in_flight: Vec::new(),
            last_flush: now,
            flush_threshold,
            flush_interval,
        };
        proof {
            assert(r@.pending =~= Seq::empty());
            assert(r@.in_flight =~= Seq::empty());
        }
        r
    }

    /// The events waiting to be written, in arrival order.
    pub fn pending(&self) -> (r: &Vec<KeyEvent>)
        ensures
            r@ == self@.pending,
    {
        &self.events
    }

    /// The batch being written, in arrival order (empty when no flush is in
    /// flight).
    pub fn in_flight(&self) -> (r: &Vec<KeyEvent>)
        ensures
            r@ == self@.in_flight,
    {
        &self.in_flight
    }

    /// Whether a flush is in flight.
    pub fn is_flushing(&self) -> (r: bool)
        ensures
            r == self@.flushing(),
    {
        self.in_flight.len() > 0
    }

    /// Whether the flush trigger fires at time `now`.
    pub fn should_flush(&self, now: u64) -> (r: bool)
        ensures
            r == flush_due(self@, now as int),
    {
        self.events.len() >= self.flush_threshold || now.saturating_sub(self.last_flush)
            >= self.flush_interval
    }

    /// Detaches all pending events as the batch to write, unless the buffer is
    /// empty or a flush is already in flight. Returns whether a batch was
    /// detached.
    pub fn flush(&mut self) -> (r: bool)
        ensures
            final(self)@ == begin_flush(old(self)@).0,
            r == begin_flush(old(self)@).1 is Some,
    {
        if self.in_flight.len() > 0 || self.events.len() == 0 {
            return false;
        }
        std::mem::swap(&mut self.in_flight, &mut self.events);
        proof {
            assert(self.events@ =~= Seq::empty());
        }
        true
    }

    /// Appends `key`, then starts a flush if the trigger fires at `now`.
    /// Returns whether a batch was detached for writing.
    pub fn push(&mut self, key: KeyEvent, now: u64) -> (r: bool)
        ensures
            final(self)@ == push_step(old(self)@, key, now as int).0,
            r == push_step(old(self)@, key, now as int).1 is Some,
    {
        self.events.push(key);
        if self.should_flush(now) {
            self.flush()
        } else {
            false
        }
    }

    /// Reports that the batch in flight was stored, at time `now`.
    pub fn flush_succeeded(&mut self, now: u64)
        requires
            old(self)@.flushing(),
        ensures
            final(self)@ == flush_ok(old(self)@, now as int),
    {
        self.in_flight = Vec::new();
        self.last_flush = now;
        proof {
            assert(self@.in_flight =~= Seq::empty());
        }
    }

    /// Reports that the batch in flight could not be stored: it goes back in
    /// front of the events pushed meanwhile.
    pub fn flush_failed(&mut self)
        requires
            old(self)@.flushing(),
        ensures
            final(self)@ == flush_err(old(self)@),
    {
        let mut restored: Vec<KeyEvent> = Vec::new();
        std::mem::swap(&mut restored, &mut self.in_flight);
        restored.append(&mut self.events);
        self.events = restored;
        proof {
            assert(self@.in_flight =~= Seq::empty());
        }
    }
}

} // verus!
