//! A bounded broadcast log: the publisher appends and never waits; each
//! subscriber reads through its own cursor, and one that falls more than the
//! log's capacity behind is told how many events it missed.

use vstd::prelude::*;
use std::collections::VecDeque;
use crate::handlers::Event;

verus! {

/// What a subscriber's read yields.
#[derive(Clone, Copy, Debug, PartialEq, Eq, Structural)]
pub enum Delivery {
    /// The event with this sequence number; fetch it with [`EventLog::get`].
    Event(u64),
    /// This many events were overwritten before the subscriber read them;
    /// its cursor now stands at the oldest event still held.
    Lagged(u64),
    /// Nothing new has been published.
    Empty,
    /// The log is closed and the subscriber has read every event it still
    /// held: no more will come.
    Closed,
}

/// A subscriber's read position: the sequence number of the next event it
/// will read.
#[derive(Clone, Copy, Debug, PartialEq, Eq, Structural)]
pub struct Subscription {
    pub next: u64,
}

/// The abstract state of a log: every event ever published, in order, and
/// how many of the latest it keeps.
pub struct LogModel<T> {
    pub history: Seq<T>,
    pub capacity: nat,
    /// No more events will be published.
    pub closed: bool,
}

impl<T> LogModel<T> {
    /// Sequence number of the oldest event still held.
    pub open spec fn oldest(self) -> nat {
        if self.history.len() > self.capacity {
            (self.history.len() - self.capacity) as nat
        } else {
            0
        }
    }

    /// Sequence number that the next published event will get.
    pub open spec fn head(self) -> nat {
        self.history.len()
    }

    /// What a read from cursor `next` yields, and where the cursor goes.
    pub open spec fn read(self, next: nat) -> (Delivery, nat) {
        if next < self.oldest() {
            (Delivery::Lagged((self.oldest() - next) as u64), self.oldest())
        } else if next >= self.head() {
            (if self.closed { Delivery::Closed } else { Delivery::Empty }, next)
        } else {
            (Delivery::Event(next as u64), next + 1)
        }
    }

    pub open spec fn publish(self, e: T) -> LogModel<T> {
        LogModel { history: self.history.push(e), ..self }
    }
}

/// A fixed-capacity broadcast log.
pub struct EventLog<T> {
    entries: VecDeque<T>,
    capacity: usize,
    head: u64,
    history: Ghost<Seq<T>>,
    closed: bool,
}

impl<T> EventLog<T> {
    pub closed spec fn view(&self) -> LogModel<T> {
        LogModel { history: self.history@, capacity: self.capacity as nat, closed: self.closed }
    }

    /// The held entries are the latest `capacity` events of the history.
    pub closed spec fn wf(&self) -> bool {
        &&& self.capacity > 0
        &&& self.head as nat == self.history@.len()
        &&& self.entries@.len() == self.history@.len() - self@.oldest()
        &&& self.entries@ =~= self.history@.subrange(
            self@.oldest() as int,
            self.history@.len() as int,
        )
    }

    /// An empty log that keeps the latest `capacity` events.
    pub fn new(capacity: usize) -> (r: EventLog<T>)
        requires
            capacity > 0,
        ensures
            r.wf(),
            r@.history == Seq::<T>::empty(),
            r@.capacity == capacity,
            !r@.closed,
    {
        EventLog {
            entries: VecDeque::new(),
            capacity,
            head: 0,
            history: Ghost(Seq::empty()),
            closed: false,
        }
    }

    /// Closes the log: nothing more is published, and subscribers get
    /// `Closed` once they have read what is still held. Closing twice is
    /// harmless.
    pub fn close(&mut self)
        requires
            old(self).wf(),
        ensures
            final(self).wf(),
            final(self)@ == (LogModel { closed: true, ..old(self)@ }),
    {
        self.closed = true;
    }

    pub fn is_closed(&self) -> (r: bool)
        ensures
            r == self@.closed,
    {
        self.closed
    }

    pub fn capacity(&self) -> (r: usize)
        ensures
            r == self@.capacity,
            self.wf() ==> r > 0,
    {
        self.capacity
    }

    /// A well-formed log keeps at least one event, so the laws about
    /// reading apply to it.
    pub proof fn lemma_wf_capacity(&self)
        requires
            self.wf(),
        ensures
            self@.capacity > 0,
    {
    }

    /// Number of events published so far: the sequence number the next one
    /// will get.
    pub fn head(&self) -> (r: u64)
        requires
            self.wf(),
        ensures
            r == self@.head(),
    {
        self.head
    }

    /// Appends an event, dropping the oldest held one when the log is full.
    /// It never waits for a subscriber.
    pub fn publish(&mut self, e: T)
        requires
            old(self).wf(),
            !old(self)@.closed,
            old(self)@.head() < u64::MAX,
        ensures
            final(self).wf(),
            final(self)@ == old(self)@.publish(e),
    {
        let ghost h0 = self.history@;
        let ghost o0 = self@.oldest();
        if self.entries.len() == self.capacity {
            let _ = self.entries.pop_front();
        }
        self.entries.push_back(e);
        self.head = self.head + 1;
        self.history = Ghost(h0.push(e));
        assert(self.entries@ =~= self.history@.subrange(
            self@.oldest() as int,
            self.history@.len() as int,
        ));
    }

    /// A new subscriber, which will read the events published from now on.
    pub fn subscribe(&self) -> (r: Subscription)
        requires
            self.wf(),
        ensures
            r.next == self@.head(),
    {
        Subscription { next: self.head }
    }

    /// Reads through a subscriber's cursor.
    pub fn poll(&self, sub: &mut Subscription) -> (r: Delivery)
        requires
            self.wf(),
            old(sub).next <= self@.head(),
        ensures
            (r, final(sub).next as nat) == self@.read(old(sub).next as nat),
            final(sub).next <= self@.head(),
    {
        let oldest = self.head - self.entries.len() as u64;
        if sub.next < oldest {
            let skipped = oldest - sub.next;
            sub.next = oldest;
            Delivery::Lagged(skipped)
        } else if sub.next >= self.head {
            if self.closed {
                Delivery::Closed
            } else {
                Delivery::Empty
            }
        } else {
            let n = sub.next;
            sub.next = n + 1;
            Delivery::Event(n)
        }
    }

    /// The held event with sequence number `seq`.
    pub fn get(&self, seq: u64) -> (r: &T)
        requires
            self.wf(),
            self@.oldest() <= seq < self@.head(),
        ensures
            *r == self@.history[seq as int],
    {
        let oldest = self.head - self.entries.len() as u64;
        &self.entries[(seq - oldest) as usize]
    }
}

/// How many events a bus keeps for slow subscribers.
pub const BUS_CAPACITY: usize = 1000;

/// The bus that carries inbound chat events to the consumers.
pub struct MsgEventBus {
    pub log: EventLog<Event>,
}

impl MsgEventBus {
    pub fn new() -> (r: MsgEventBus)
        ensures
            r.log.wf(),
            r.log@.capacity == BUS_CAPACITY,
            r.log@.history.len() == 0,
            !r.log@.closed,
    {
        MsgEventBus { log: EventLog::new(BUS_CAPACITY) }
    }

    /// A cursor for a new consumer, from the next event on.
    pub fn subscribe(&self) -> (r: Subscription)
        requires
            self.log.wf(),
        ensures
            r.next == self.log@.head(),
    {
        self.log.subscribe()
    }

    /// Publishes an event; it never waits for a consumer.
    pub fn send_message(&mut self, event: Event)
        requires
            old(self).log.wf(),
            !old(self).log@.closed,
            old(self).log@.head() < u64::MAX,
        ensures
            final(self).log.wf(),
            final(self).log@ == old(self).log@.publish(event),
    {
        self.log.publish(event)
    }

    /// Closes the bus: consumers drain what is still held, then stop.
    pub fn close(&mut self)
        requires
            old(self).log.wf(),
        ensures
            final(self).log.wf(),
            final(self).log@ == (LogModel { closed: true, ..old(self).log@ }),
    {
        self.log.close()
    }
}

/// The bus that carries start-up and shut-down events to the services.
pub struct StartUpEventBus {
    pub log: EventLog<Event>,
}

impl StartUpEventBus {
    pub fn new() -> (r: StartUpEventBus)
        ensures
            r.log.wf(),
            r.log@.capacity == BUS_CAPACITY,
            r.log@.history.len() == 0,
            !r.log@.closed,
    {
        StartUpEventBus { log: EventLog::new(BUS_CAPACITY) }
    }

    /// A cursor for a new service, from the next event on.
    pub fn subscribe(&self) -> (r: Subscription)
        requires
            self.log.wf(),
        ensures
            r.next == self.log@.head(),
    {
        self.log.subscribe()
    }

    /// Publishes an event; it never waits for a service.
    pub fn send_message(&mut self, event: Event)
        requires
            old(self).log.wf(),
            !old(self).log@.closed,
            old(self).log@.head() < u64::MAX,
        ensures
            final(self).log.wf(),
            final(self).log@ == old(self).log@.publish(event),
    {
        self.log.publish(event)
    }

    /// Closes the bus: consumers drain what is still held, then stop.
    pub fn close(&mut self)
        requires
            old(self).log.wf(),
        ensures
            final(self).log.wf(),
            final(self).log@ == (LogModel { closed: true, ..old(self).log@ }),
    {
        self.log.close()
    }
}

/// A subscriber lags exactly when it is more than `capacity` events behind;
/// the lag it is told of is how far beyond `capacity` it fell, and the read
/// after that yields the oldest event still held.
pub proof fn lemma_lag_then_oldest<T>(m: LogModel<T>, next: nat)
    requires
        m.capacity > 0,
        next <= m.head(),
    ensures
        m.read(next).0 is Lagged <==> m.head() - next > m.capacity,
        m.head() - next > m.capacity ==> {
            &&& m.read(next).0 == Delivery::Lagged((m.head() - m.capacity - next) as u64)
            &&& m.read(next).1 == m.oldest()
            &&& m.read(m.read(next).1) == (Delivery::Event(m.oldest() as u64), m.oldest() + 1)
        },
{
}

/// The deliveries of `n` reads in a row from cursor `next`, the log
/// standing still.
pub open spec fn reads<T>(m: LogModel<T>, next: nat, n: nat) -> Seq<Delivery>
    decreases n,
{
    if n == 0 {
        Seq::empty()
    } else {
        seq![m.read(next).0] + reads(m, m.read(next).1, (n - 1) as nat)
    }
}

/// From a cursor within the held events, reads yield the following events
/// one by one, in publish order.
pub proof fn lemma_reads_in_order<T>(m: LogModel<T>, start: nat, n: nat)
    requires
        m.oldest() <= start,
        start + n <= m.head(),
    ensures
        reads(m, start, n) =~= Seq::new(n, |i: int| Delivery::Event((start + i) as u64)),
    decreases n,
{
    if n > 0 {
        lemma_reads_in_order(m, start + 1, (n - 1) as nat);
        let tail = Seq::new((n - 1) as nat, |i: int| Delivery::Event((start + 1 + i) as u64));
        assert(reads(m, start + 1, (n - 1) as nat) == tail);
        assert(seq![Delivery::Event(start as u64)] + tail =~= Seq::new(
            n,
            |i: int| Delivery::Event((start + i) as u64),
        ));
    }
}

/// A subscriber that falls `k` events behind a log of capacity `c`, with
/// `k > c`, reads first a lag of exactly `k - c`, then the last `c` events
/// in publish order, then nothing (`Closed` once the log is closed): every event it is handed comes once, in
/// order, and the run it receives ends with the latest event.
pub proof fn lemma_burst_then_catch_up<T>(m: LogModel<T>, next: nat)
    requires
        m.capacity > 0,
        next <= m.head(),
        m.head() - next > m.capacity,
    ensures
        reads(m, next, m.capacity + 2) =~= seq![Delivery::Lagged((m.head() - m.capacity - next) as u64)]
            + Seq::new(m.capacity, |i: int| Delivery::Event((m.oldest() + i) as u64))
            + seq![if m.closed { Delivery::Closed } else { Delivery::Empty }],
{
    let c = m.capacity;
    let o = m.oldest();
    assert(m.read(next).1 == o);
    lemma_reads_in_order(m, o, c);
    lemma_reads_tail(m, o, c);
    assert(reads(m, next, c + 2) == seq![m.read(next).0] + reads(m, o, c + 1));
}

proof fn lemma_reads_tail<T>(m: LogModel<T>, start: nat, n: nat)
    requires
        m.oldest() <= start,
        start + n == m.head(),
    ensures
        reads(m, start, n + 1) =~= reads(m, start, n) + seq![
            if m.closed { Delivery::Closed } else { Delivery::Empty },
        ],
    decreases n,
{
    if n == 0 {
        assert(reads(m, start, 0) =~= Seq::<Delivery>::empty());
        assert(reads(m, m.read(start).1, 0) =~= Seq::<Delivery>::empty());
    } else {
        lemma_reads_tail(m, start + 1, (n - 1) as nat);
        assert(m.read(start).1 == start + 1);
    }
}

/// Publishing never depends on any subscriber, and a subscriber that has
/// read everything receives the next event whatever the other subscribers'
/// cursors are: a read depends on the log and the reader's own cursor alone.
pub proof fn lemma_stalled_reader_blocks_nobody<T>(m: LogModel<T>, e: T, next: nat)
    requires
        m.capacity > 0,
        next == m.head(),
    ensures
        m.publish(e).read(next) == (Delivery::Event(next as u64), next + 1),
        m.publish(e).history[next as int] == e,
{
}

/// Once the log is closed, a subscriber reads every event still held after
/// its cursor, in publish order, and then `Closed`, and `Closed` again on
/// every later read.
pub proof fn lemma_closed_log_drains<T>(m: LogModel<T>, start: nat)
    requires
        m.closed,
        m.oldest() <= start <= m.head(),
    ensures
        reads(m, start, (m.head() - start + 1) as nat) =~= Seq::new(
            (m.head() - start) as nat,
            |i: int| Delivery::Event((start + i) as u64),
        ) + seq![Delivery::Closed],
        m.read(m.head()) == (Delivery::Closed, m.head()),
{
    let n = (m.head() - start) as nat;
    lemma_reads_in_order(m, start, n);
    lemma_reads_tail(m, start, n);
}

} // verus!
