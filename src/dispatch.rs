use crate::error::MatrixClientError;
use vstd::prelude::*;

verus! {

/// A batch is flushed as soon as it holds this many messages.
pub const BATCH_LIMIT: usize = 10;

/// Consecutive generic failures after which a batch is given up.
pub const MAX_RETRIES: u32 = 50;

/// What one delivery attempt came to. Times are milliseconds on the
/// dispatcher's monotonic clock.
pub enum SendOutcome {
    /// The provider accepted the batch.
    Delivered,
    /// The provider throttled; nothing may be sent before the given time.
    RateLimited(u64),
    /// The attempt failed for another reason; the batch may be retried.
    Failed(MatrixClientError),
}

pub enum OutcomeView {
    Delivered,
    RateLimited(nat),
    Failed,
}

impl View for SendOutcome {
    type V = OutcomeView;

    open spec fn view(&self) -> OutcomeView {
        match self {
            SendOutcome::Delivered => OutcomeView::Delivered,
            SendOutcome::RateLimited(t) => OutcomeView::RateLimited(*t as nat),
            SendOutcome::Failed(_) => OutcomeView::Failed,
        }
    }
}

/// What the dispatcher is told: a message arrived, the timer ticked, the queue
/// closed, or a flush attempt came back.
pub enum Event {
    Arrived(String),
    Tick,
    Closed,
    Attempted(SendOutcome),
}

pub enum EventView {
    Arrived(Seq<char>),
    Tick,
    Closed,
    Attempted(OutcomeView),
}

impl View for Event {
    type V = EventView;

    open spec fn view(&self) -> EventView {
        match self {
            Event::Arrived(m) => EventView::Arrived(m@),
            Event::Tick => EventView::Tick,
            Event::Closed => EventView::Closed,
            Event::Attempted(o) => EventView::Attempted(o@),
        }
    }
}

/// What the dispatcher asks its driver to do next.
pub enum Action {
    /// Wait until `not_before`, then hand `payload` to the sender and report
    /// the outcome.
    Flush { payload: String, not_before: u64 },
    /// Wait for the next message or timer tick. `reset_timer` restarts the
    /// timer's period; `discarded` holds a batch that was given up, to be
    /// reported before it is dropped.
    Wait { reset_timer: bool, discarded: Option<Vec<String>> },
    /// The queue is closed, so no producer is left: stop. A batch still
    /// pending is dropped unsent.
    Exit,
}

pub enum ActionView {
    Flush { payload: Seq<char>, not_before: nat },
    Wait { reset_timer: bool, discarded: Option<Seq<Seq<char>>> },
    Exit,
}

pub open spec fn messages_view(v: Seq<String>) -> Seq<Seq<char>> {
    v.map_values(|m: String| m@)
}

impl View for Action {
    type V = ActionView;

    open spec fn view(&self) -> ActionView {
        match self {
            Action::Flush { payload, not_before } => ActionView::Flush {
                payload: payload@,
                not_before: *not_before as nat,
            },
            Action::Wait { reset_timer, discarded } => ActionView::Wait {
                reset_timer: *reset_timer,
                discarded: match discarded {
                    Some(d) => Some(messages_view(d@)),
                    None => None,
                },
            },
            Action::Exit => ActionView::Exit,
        }
    }
}

/// The dispatcher's state: the pending batch, the retry counter, whether the
/// timer ticked since the last attempt, and the rate gate's resume time.
pub struct DispatchState {
    pub batch: Seq<Seq<char>>,
    pub retry: nat,
    pub timed_out: bool,
    pub resume_at: nat,
}

/// The messages of a batch joined by newlines, in order.
pub open spec fn joined(batch: Seq<Seq<char>>) -> Seq<char>
    decreases batch.len(),
{
    if batch.len() == 0 {
        Seq::empty()
    } else if batch.len() == 1 {
        batch[0]
    } else {
        joined(batch.drop_last()) + seq!['\n'] + batch.last()
    }
}

/// A flush is due when the batch is full, or when the timer has ticked since
/// the batch became non-empty (a tick on an empty batch is not remembered).
pub open spec fn flush_due(s: DispatchState) -> bool {
    s.batch.len() >= BATCH_LIMIT || (s.timed_out && s.batch.len() > 0)
}

/// Whether a failure in state `s` reaches the give-up threshold.
pub open spec fn gives_up(s: DispatchState, o: OutcomeView) -> bool {
    o is Failed && s.retry + 1 >= MAX_RETRIES
}

pub open spec fn max_nat(a: nat, b: nat) -> nat {
    if a >= b { a } else { b }
}

pub open spec fn initial_state() -> DispatchState {
    DispatchState { batch: Seq::empty(), retry: 0, timed_out: false, resume_at: 0 }
}

/// The state after event `e` in state `s`.
pub open spec fn next_state(s: DispatchState, e: EventView) -> DispatchState {
    match e {
        EventView::Arrived(m) => DispatchState { batch: s.batch.push(m), ..s },
        EventView::Tick => DispatchState { timed_out: s.batch.len() > 0, ..s },
        EventView::Closed => s,
        EventView::Attempted(o) => match o {
            OutcomeView::Delivered => DispatchState {
                batch: Seq::empty(),
                retry: 0,
                timed_out: false,
                ..s
            },
            OutcomeView::RateLimited(t) => DispatchState {
                resume_at: max_nat(s.resume_at, t),
                ..s
            },
            OutcomeView::Failed => if gives_up(s, o) {
                DispatchState { batch: Seq::empty(), retry: 0, timed_out: false, ..s }
            } else {
                DispatchState { retry: s.retry + 1, timed_out: false, ..s }
            },
        },
    }
}

/// The action after event `e` in state `s`.
pub open spec fn next_action(s: DispatchState, e: EventView) -> ActionView {
    let t = next_state(s, e);
    if e is Closed {
        ActionView::Exit
    } else if flush_due(t) {
        ActionView::Flush { payload: joined(t.batch), not_before: t.resume_at }
    } else {
        ActionView::Wait {
            reset_timer: e is Attempted && !(e->Attempted_0 is RateLimited),
            discarded: if e is Attempted && gives_up(s, e->Attempted_0) {
                Some(s.batch)
            } else {
                None
            },
        }
    }
}

/// The shared "resume not before" deadline, in milliseconds. It only moves
/// forward.
pub struct RateGate {
    pub resume_at: u64,
}

impl RateGate {
    /// An open gate: resume time zero, so no delay.
    pub fn new() -> (r: RateGate)
        ensures
            r.resume_at == 0,
    {
        RateGate { resume_at: 0 }
    }

    /// Moves the deadline to `t` unless it already lies later.
    pub fn raise(&mut self, t: u64)
        ensures
            final(self).resume_at as nat == max_nat(old(self).resume_at as nat, t as nat),
    {
        if t > self.resume_at {
            self.resume_at = t;
        }
    }

    /// Whether an attempt may start at time `now`.
    pub fn is_open(&self, now: u64) -> (r: bool)
        ensures
            r == (now >= self.resume_at),
    {
        now >= self.resume_at
    }
}

proof fn lemma_joined_push(batch: Seq<Seq<char>>, m: Seq<char>)
    ensures
        joined(batch.push(m)) == if batch.len() == 0 {
            m
        } else {
            joined(batch) + seq!['\n'] + m
        },
{
    assert(batch.push(m).drop_last() =~= batch);
}

/// The messages of `batch` joined by newlines, in order.
pub fn join_batch(batch: &Vec<String>) -> (r: String)
    ensures
        r@ == joined(messages_view(batch@)),
{
    let ghost v = messages_view(batch@);
    let mut out = String::new();
    let mut i: usize = 0;
    while i < batch.len()
        invariant
            0 <= i <= batch@.len(),
            v == messages_view(batch@),
            out@ == joined(v.take(i as int)),
        decreases batch.len() - i,
    {
        proof {
            lemma_joined_push(v.take(i as int), v[i as int]);
            assert(v.take(i + 1) =~= v.take(i as int).push(v[i as int]));
        }
        if i > 0 {
            let nl = "\n";
            proof {
                reveal_strlit("\n");
            }
            out.append(nl);
        }
        out.append(batch[i].as_str());
        i = i + 1;
    }
    assert(v.take(batch@.len() as int) =~= v);
    out
}

/// The batching dispatcher: it owns the pending batch, the retry counter, the
/// timeout flag and the rate gate, and decides after each event what its
/// driver does next.
pub struct Dispatcher {
    pub batch: Vec<String>,
    pub retry: u32,
    pub timed_out: bool,
    pub gate: RateGate,
}

impl View for Dispatcher {
    type V = DispatchState;

    open spec fn view(&self) -> DispatchState {
        DispatchState {
            batch: messages_view(self.batch@),
            retry: self.retry as nat,
            timed_out: self.timed_out,
            resume_at: self.gate.resume_at as nat,
        }
    }
}

impl Dispatcher {
    pub open spec fn wf(&self) -> bool {
        self.retry < MAX_RETRIES
    }

    /// An idle dispatcher: empty batch, no retries, open gate.
    pub fn new() -> (r: Dispatcher)
        ensures
            r.wf(),
            r@ == initial_state(),
    {
        let r = Dispatcher { batch: Vec::new(), retry: 0, timed_out: false, gate: RateGate::new() };
        assert(r@.batch =~= Seq::<Seq<char>>::empty());
        r
    }

    /// Whether a flush attempt is due now.
    pub fn flush_due(&self) -> (r: bool)
        ensures
            r == flush_due(self@),
    {
        self.batch.len() >= BATCH_LIMIT || (self.timed_out && self.batch.len() > 0)
    }

    fn clear_batch(&mut self) -> (r: Vec<String>)
        ensures
            r@ == old(self).batch@,
            final(self).batch@.len() == 0,
            final(self).retry == old(self).retry,
            final(self).timed_out == old(self).timed_out,
            final(self).gate == old(self).gate,
    {
        let mut taken: Vec<String> = Vec::new();
        core::mem::swap(&mut taken, &mut self.batch);
        taken
    }

    /// Takes in one event and returns what to do next: a flush whenever one is
    /// due (also right after a throttled or failed attempt on a full batch),
    /// else a wait, or the exit once the queue has closed.
    pub fn step(&mut self, event: Event) -> (r: Action)
        requires
            old(self).wf(),
        ensures
            final(self).wf(),
            final(self)@ == next_state(old(self)@, event@),
            r@ == next_action(old(self)@, event@),
    {
        let ghost s = self@;
        let mut reset_timer = false;
        let mut discarded: Option<Vec<String>> = None;
        match event {
            Event::Arrived(m) => {
                self.batch.push(m);
                assert(self@.batch =~= s.batch.push(m@));
            },
            Event::Tick => {
                self.timed_out = self.batch.len() > 0;
            },
            Event::Closed => {
                return Action::Exit;
            },
            Event::Attempted(outcome) => match outcome {
                SendOutcome::Delivered => {
                    self.clear_batch();
                    self.retry = 0;
                    self.timed_out = false;
                    reset_timer = true;
                    assert(self@.batch =~= Seq::<Seq<char>>::empty());
                },
                SendOutcome::RateLimited(t) => {
                    self.gate.raise(t);
                },
                SendOutcome::Failed(_) => {
                    reset_timer = true;
                    self.timed_out = false;
                    if self.retry + 1 >= MAX_RETRIES {
                        discarded = Some(self.clear_batch());
                        self.retry = 0;
                        assert(self@.batch =~= Seq::<Seq<char>>::empty());
                    } else {
                        self.retry = self.retry + 1;
                    }
                },
            },
        }
        if self.flush_due() {
            let payload = join_batch(&self.batch);
            Action::Flush { payload, not_before: self.gate.resume_at }
        } else {
            Action::Wait { reset_timer, discarded }
        }
    }
}

/// The state reached from `s` through the events `evs`, in order.
pub open spec fn run(s: DispatchState, evs: Seq<EventView>) -> DispatchState
    decreases evs.len(),
{
    if evs.len() == 0 {
        s
    } else {
        next_state(run(s, evs.drop_last()), evs.last())
    }
}

/// The messages that arrived along `evs`, in order.
pub open spec fn arrivals(evs: Seq<EventView>) -> Seq<Seq<char>>
    decreases evs.len(),
{
    if evs.len() == 0 {
        Seq::empty()
    } else {
        let rest = arrivals(evs.drop_last());
        match evs.last() {
            EventView::Arrived(m) => rest.push(m),
            _ => rest,
        }
    }
}

/// Whether event `e` in state `r` empties the batch: a delivery, or the
/// failure that reaches the give-up threshold.
pub open spec fn leaves_batch(r: DispatchState, e: EventView) -> bool {
    e is Attempted && (e->Attempted_0 is Delivered || gives_up(r, e->Attempted_0))
}

/// The messages that left the pending batch along `evs`, delivered or given
/// up, in order.
pub open spec fn removed(s: DispatchState, evs: Seq<EventView>) -> Seq<Seq<char>>
    decreases evs.len(),
{
    if evs.len() == 0 {
        Seq::empty()
    } else {
        let r = run(s, evs.drop_last());
        let before = removed(s, evs.drop_last());
        if leaves_batch(r, evs.last()) {
            before + r.batch
        } else {
            before
        }
    }
}

/// The messages delivered along `evs`, in order.
pub open spec fn delivered(s: DispatchState, evs: Seq<EventView>) -> Seq<Seq<char>>
    decreases evs.len(),
{
    if evs.len() == 0 {
        Seq::empty()
    } else {
        let r = run(s, evs.drop_last());
        let before = delivered(s, evs.drop_last());
        if evs.last() == EventView::Attempted(OutcomeView::Delivered) {
            before + r.batch
        } else {
            before
        }
    }
}

/// The number of successful flushes along `evs`.
pub open spec fn deliveries(evs: Seq<EventView>) -> nat
    decreases evs.len(),
{
    if evs.len() == 0 {
        0
    } else if evs.last() == EventView::Attempted(OutcomeView::Delivered) {
        deliveries(evs.drop_last()) + 1
    } else {
        deliveries(evs.drop_last())
    }
}

/// Whether `evs` is what a driver reports: an attempt's outcome exactly when
/// the state before asked for a flush.
pub open spec fn answers(s: DispatchState, evs: Seq<EventView>) -> bool {
    forall|i: int| 0 <= i < evs.len() ==> (#[trigger] evs[i] is Attempted) == flush_due(run(s, evs.take(i)))
}

/// Whether no attempt along `evs` failed.
pub open spec fn no_failures(evs: Seq<EventView>) -> bool {
    forall|i: int| 0 <= i < evs.len() ==> #[trigger] evs[i] != EventView::Attempted(OutcomeView::Failed)
}

proof fn lemma_answers_prefix(s: DispatchState, evs: Seq<EventView>)
    requires
        evs.len() > 0,
        answers(s, evs),
    ensures
        answers(s, evs.drop_last()),
        evs.last() is Attempted == flush_due(run(s, evs.drop_last())),
{
    let p = evs.drop_last();
    assert forall|i: int| 0 <= i < p.len() implies (#[trigger] p[i] is Attempted) == flush_due(run(s, p.take(i))) by {
        assert(p.take(i) =~= evs.take(i));
        assert(p[i] == evs[i]);
    }
    assert(evs.take(evs.len() - 1) =~= p);
    assert(evs[evs.len() - 1] is Attempted == flush_due(run(s, evs.take(evs.len() - 1))));
}

/// Nothing leaves the pending batch but through delivery or give-up, and
/// order is kept: what left, then what is pending, is what was pending, then
/// what arrived.
pub proof fn lemma_nothing_lost(s: DispatchState, evs: Seq<EventView>)
    ensures
        removed(s, evs) + run(s, evs).batch == s.batch + arrivals(evs),
    decreases evs.len(),
{
    if evs.len() == 0 {
        assert(s.batch + Seq::<Seq<char>>::empty() =~= s.batch);
        assert(Seq::<Seq<char>>::empty() + s.batch =~= s.batch);
    } else {
        let p = evs.drop_last();
        lemma_nothing_lost(s, p);
        let r = run(s, p);
        let rm = removed(s, p);
        let e = evs.last();
        match e {
            EventView::Arrived(m) => {
                assert(rm + r.batch.push(m) =~= (rm + r.batch).push(m));
                assert(s.batch + arrivals(p).push(m) =~= (s.batch + arrivals(p)).push(m));
            },
            _ => {
                if leaves_batch(r, e) {
                    assert(rm + r.batch + Seq::<Seq<char>>::empty() =~= rm + r.batch);
                }
            },
        }
    }
}

proof fn lemma_success_path(s: DispatchState, evs: Seq<EventView>)
    requires
        s.batch.len() <= BATCH_LIMIT,
        answers(s, evs),
        no_failures(evs),
    ensures
        delivered(s, evs) == removed(s, evs),
        run(s, evs).batch.len() <= BATCH_LIMIT,
        deliveries(evs) * BATCH_LIMIT >= delivered(s, evs).len(),
    decreases evs.len(),
{
    if evs.len() > 0 {
        let p = evs.drop_last();
        lemma_answers_prefix(s, evs);
        assert(no_failures(p)) by {
            assert forall|i: int| 0 <= i < p.len() implies #[trigger] p[i] != EventView::Attempted(OutcomeView::Failed) by {
                assert(p[i] == evs[i]);
            }
        }
        lemma_success_path(s, p);
        assert(evs.last() == evs[evs.len() - 1]);
        assert(evs.last() != EventView::Attempted(OutcomeView::Failed));
    }
}

/// On the success path, from an idle dispatcher: the delivered batches, then
/// the pending batch, are exactly the arrived messages in order; no flush
/// carries more than `BATCH_LIMIT` messages, so once the batch is drained, `n`
/// messages took at least `n / BATCH_LIMIT` flushes, rounded up.
pub proof fn lemma_delivered_in_order(evs: Seq<EventView>)
    requires
        answers(initial_state(), evs),
        no_failures(evs),
    ensures
        delivered(initial_state(), evs) + run(initial_state(), evs).batch == arrivals(evs),
        deliveries(evs) * BATCH_LIMIT >= delivered(initial_state(), evs).len(),
        run(initial_state(), evs).batch.len() == 0 ==> deliveries(evs) * BATCH_LIMIT >= arrivals(evs).len(),
{
    let s = initial_state();
    lemma_success_path(s, evs);
    lemma_nothing_lost(s, evs);
    assert(s.batch + arrivals(evs) =~= arrivals(evs));
    if run(s, evs).batch.len() == 0 {
        assert(delivered(s, evs) + run(s, evs).batch =~= delivered(s, evs));
    }
}

proof fn lemma_gate_monotone(s: DispatchState, evs: Seq<EventView>)
    ensures
        run(s, evs).resume_at >= s.resume_at,
    decreases evs.len(),
{
    if evs.len() > 0 {
        lemma_gate_monotone(s, evs.drop_last());
    }
}

/// After a throttled attempt with resume time `t`, the same batch is asked to
/// be flushed again, and no flush that follows, whatever the events, is
/// allowed to start before `t`.
pub proof fn lemma_rate_limit_respected(s: DispatchState, t: nat, evs: Seq<EventView>)
    requires
        flush_due(s),
    ensures
        ({
            let e = EventView::Attempted(OutcomeView::RateLimited(t));
            let s1 = next_state(s, e);
            &&& s1.batch == s.batch
            &&& s1.resume_at >= t
            &&& next_action(s, e) == (ActionView::Flush { payload: joined(s.batch), not_before: s1.resume_at })
            &&& forall|i: int| 0 <= i < evs.len() ==> (#[trigger] next_action(run(s1, evs.take(i)), evs[i]) is Flush ==> next_action(run(s1, evs.take(i)), evs[i])->Flush_not_before >= t)
        }),
{
    let s1 = next_state(s, EventView::Attempted(OutcomeView::RateLimited(t)));
    assert forall|i: int| 0 <= i < evs.len() && (#[trigger] next_action(run(s1, evs.take(i)), evs[i]) is Flush) implies next_action(run(s1, evs.take(i)), evs[i])->Flush_not_before >= t by {
        lemma_gate_monotone(s1, evs.take(i));
    }
}

/// Whether `e` may come between the failures of one batch: a timer tick, a
/// throttled attempt or a failed one, but no arrival and no delivery.
pub open spec fn is_retry_event(e: EventView) -> bool {
    e is Tick || (e is Attempted && !(e->Attempted_0 is Delivered))
}

pub open spec fn all_retry_events(evs: Seq<EventView>) -> bool {
    forall|i: int| 0 <= i < evs.len() ==> is_retry_event(#[trigger] evs[i])
}

pub open spec fn all_arrivals_or_ticks(evs: Seq<EventView>) -> bool {
    forall|i: int| 0 <= i < evs.len() ==> (#[trigger] evs[i] is Arrived || evs[i] is Tick)
}

/// The number of failed attempts along `evs`.
pub open spec fn failure_count(evs: Seq<EventView>) -> nat
    decreases evs.len(),
{
    if evs.len() == 0 {
        0
    } else if evs.last() == EventView::Attempted(OutcomeView::Failed) {
        failure_count(evs.drop_last()) + 1
    } else {
        failure_count(evs.drop_last())
    }
}

proof fn lemma_retries_keep_batch(s: DispatchState, evs: Seq<EventView>)
    requires
        s.retry == 0,
        all_retry_events(evs),
        failure_count(evs) < MAX_RETRIES,
    ensures
        run(s, evs).batch == s.batch,
        run(s, evs).retry == failure_count(evs),
        removed(s, evs) == Seq::<Seq<char>>::empty(),
        forall|i: int| 0 <= i < evs.len() ==> !leaves_batch(#[trigger] run(s, evs.take(i)), evs[i]),
    decreases evs.len(),
{
    if evs.len() > 0 {
        let p = evs.drop_last();
        assert(all_retry_events(p)) by {
            assert forall|i: int| 0 <= i < p.len() implies is_retry_event(#[trigger] p[i]) by {
                assert(p[i] == evs[i]);
            }
        }
        lemma_retries_keep_batch(s, p);
        assert(is_retry_event(evs[evs.len() - 1]));
        assert forall|i: int| 0 <= i < evs.len() implies !leaves_batch(#[trigger] run(s, evs.take(i)), evs[i]) by {
            if i < p.len() {
                assert(p.take(i) =~= evs.take(i));
                assert(p[i] == evs[i]);
            } else {
                assert(evs.take(i) =~= p);
            }
        }
    }
}

/// Fifty failures of one batch, with any ticks and throttled attempts in
/// between: nothing leaves the batch before the fiftieth failure, which gives
/// the batch up (handing it out once for reporting) and returns the counter
/// to zero.
pub proof fn lemma_give_up_once(s: DispatchState, evs: Seq<EventView>)
    requires
        s.retry == 0,
        all_retry_events(evs),
        evs.len() > 0,
        evs.last() == EventView::Attempted(OutcomeView::Failed),
        failure_count(evs) == MAX_RETRIES,
    ensures
        forall|i: int| 0 <= i < evs.len() - 1 ==> !leaves_batch(#[trigger] run(s, evs.take(i)), evs[i]),
        run(s, evs.drop_last()).batch == s.batch,
        next_action(run(s, evs.drop_last()), evs.last())
            == (ActionView::Wait { reset_timer: true, discarded: Some(s.batch) }),
        run(s, evs).batch.len() == 0,
        run(s, evs).retry == 0,
        removed(s, evs) == s.batch,
{
    let p = evs.drop_last();
    assert(all_retry_events(p)) by {
        assert forall|i: int| 0 <= i < p.len() implies is_retry_event(#[trigger] p[i]) by {
            assert(p[i] == evs[i]);
        }
    }
    lemma_retries_keep_batch(s, p);
    assert forall|i: int| 0 <= i < evs.len() - 1 implies !leaves_batch(#[trigger] run(s, evs.take(i)), evs[i]) by {
        assert(p.take(i) =~= evs.take(i));
        assert(p[i] == evs[i]);
    }
    assert(Seq::<Seq<char>>::empty() + s.batch =~= s.batch);
}

/// After a give-up (or any idle state with the counter at zero), the messages
/// that arrive form a fresh batch with a fresh counter: the next flush
/// carries them alone, and `lemma_give_up_once` applies to them anew.
pub proof fn lemma_fresh_batch(s: DispatchState, evs: Seq<EventView>)
    requires
        s.batch.len() == 0,
        s.retry == 0,
        all_arrivals_or_ticks(evs),
    ensures
        run(s, evs).batch == arrivals(evs),
        run(s, evs).retry == 0,
        evs.len() > 0 && next_action(run(s, evs.drop_last()), evs.last()) is Flush
            ==> next_action(run(s, evs.drop_last()), evs.last())->Flush_payload == joined(arrivals(evs)),
    decreases evs.len(),
{
    if evs.len() == 0 {
        assert(s.batch =~= arrivals(evs));
    } else {
        let p = evs.drop_last();
        assert(all_arrivals_or_ticks(p)) by {
            assert forall|i: int| 0 <= i < p.len() implies (#[trigger] p[i] is Arrived || p[i] is Tick) by {
                assert(p[i] == evs[i]);
            }
        }
        lemma_fresh_batch(s, p);
        assert(evs[evs.len() - 1] is Arrived || evs[evs.len() - 1] is Tick);
    }
}

/// A pending batch, however small, is flushed at the next timer tick.
pub proof fn lemma_tick_flushes_pending(s: DispatchState)
    requires
        s.batch.len() > 0,
    ensures
        next_action(s, EventView::Tick) == (ActionView::Flush { payload: joined(s.batch), not_before: s.resume_at }),
{
}

} // verus!
