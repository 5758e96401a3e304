//! The decisions of a single-worker actor: a bounded mailbox of calls served
//! one at a time in the order they came, each answered with its output, or
//! with nothing when it is cancelled, while heartbeats count the wait.
//!
//! Each call gets a ticket, its place in the order of submission. The caller's
//! runtime performs what the actor decides: it runs the computation that `start`
//! hands out, and reports its completion, a cancellation or a heartbeat.
use vstd::prelude::*;

verus! {

/// How many calls may wait in the mailbox.
pub const MAILBOX_CAPACITY: usize = 1024;

/// The actor as values: calls waiting in the mailbox (input and reply channel),
/// the reply channel of the call in progress, how many calls were answered,
/// how many heartbeats the call in progress has seen, and the mailbox's capacity.
pub struct ActorModel<I, R> {
    pub queue: Seq<(I, R)>,
    pub current: Option<R>,
    pub answered: nat,
    pub waited: nat,
    pub capacity: nat,
}

impl<I, R> ActorModel<I, R> {
    pub open spec fn busy(self) -> nat {
        if self.current is Some {
            1
        } else {
            0
        }
    }

    /// The ticket the next call submitted gets. The call in progress holds
    /// ticket `answered`, the waiting ones the tickets after it.
    pub open spec fn next_ticket(self) -> nat {
        self.answered + self.busy() + self.queue.len()
    }

    pub open spec fn wf(self) -> bool {
        &&& self.queue.len() <= self.capacity
        &&& self.next_ticket() <= u64::MAX
        &&& self.waited <= u64::MAX
    }
}

/// What happens to an actor: a call is submitted, the worker takes the next
/// call, the call with a ticket completes, the call in progress is cancelled,
/// or a heartbeat passes.
pub enum Event<I, R> {
    Submit(I, R),
    Start,
    Complete(nat),
    Cancel,
    Tick,
}

/// What the actor hands out on an event.
pub enum Outcome<I, R> {
    /// The call was queued under this ticket.
    Accepted(nat),
    /// The mailbox is full: the caller keeps the call and tries again later.
    Refused,
    /// Run the call with this ticket on this input.
    Started(nat, I),
    /// Answer the call with this ticket on this channel; `true` when with the
    /// output, `false` when the call was cancelled.
    Delivered(nat, R, bool),
    /// The call in progress has now waited this many heartbeats.
    Waited(nat),
    /// Nothing to do.
    Ignored,
}

/// One transition of the actor.
pub open spec fn step<I, R>(m: ActorModel<I, R>, e: Event<I, R>) -> (ActorModel<I, R>, Outcome<I, R>) {
    match e {
        Event::Submit(input, reply) => if m.queue.len() < m.capacity && m.next_ticket() < u64::MAX {
            (ActorModel { queue: m.queue.push((input, reply)), ..m }, Outcome::Accepted(m.next_ticket()))
        } else {
            (m, Outcome::Refused)
        },
        Event::Start => if m.current is None && m.queue.len() > 0 {
            (
                ActorModel { queue: m.queue.drop_first(), current: Some(m.queue[0].1), waited: 0, ..m },
                Outcome::Started(m.answered, m.queue[0].0),
            )
        } else {
            (m, Outcome::Ignored)
        },
        Event::Complete(ticket) => match m.current {
            Some(reply) => if ticket == m.answered {
                (
                    ActorModel { current: None, answered: m.answered + 1, waited: 0, ..m },
                    Outcome::Delivered(ticket, reply, true),
                )
            } else {
                (m, Outcome::Ignored)
            },
            None => (m, Outcome::Ignored),
        },
        Event::Cancel => match m.current {
            Some(reply) => (
                ActorModel { current: None, answered: m.answered + 1, waited: 0, ..m },
                Outcome::Delivered(m.answered, reply, false),
            ),
            None => (m, Outcome::Ignored),
        },
        Event::Tick => if m.current is Some {
            let w = if m.waited < u64::MAX { m.waited + 1 } else { m.waited };
            (ActorModel { waited: w, ..m }, Outcome::Waited(w))
        } else {
            (m, Outcome::Ignored)
        },
    }
}

/// The outcomes of a run of events, and the state after it.
pub open spec fn run<I, R>(m: ActorModel<I, R>, es: Seq<Event<I, R>>) -> (ActorModel<I, R>, Seq<Outcome<I, R>>)
    decreases es.len(),
{
    if es.len() == 0 {
        (m, Seq::empty())
    } else {
        let (m1, o) = step(m, es[0]);
        let (last, os) = run(m1, es.drop_first());
        (last, seq![o] + os)
    }
}

/// The tickets of the answers among `os`, in order.
pub open spec fn delivered_tickets<I, R>(os: Seq<Outcome<I, R>>) -> Seq<nat>
    decreases os.len(),
{
    if os.len() == 0 {
        Seq::empty()
    } else {
        let rest = delivered_tickets(os.drop_first());
        match os[0] {
            Outcome::Delivered(t, _, _) => seq![t] + rest,
            _ => rest,
        }
    }
}

/// The tickets of the accepted submissions among `os`, in order.
pub open spec fn accepted_tickets<I, R>(os: Seq<Outcome<I, R>>) -> Seq<nat>
    decreases os.len(),
{
    if os.len() == 0 {
        Seq::empty()
    } else {
        let rest = accepted_tickets(os.drop_first());
        match os[0] {
            Outcome::Accepted(t) => seq![t] + rest,
            _ => rest,
        }
    }
}

pub open spec fn no_cancel<I, R>(es: Seq<Event<I, R>>) -> bool {
    forall|i: int| 0 <= i < es.len() ==> !(#[trigger] es[i] is Cancel)
}

pub open spec fn all_with_output<I, R>(os: Seq<Outcome<I, R>>) -> bool {
    forall|i: int| 0 <= i < os.len() ==> (#[trigger] os[i] matches Outcome::Delivered(_, _, done) ==> done)
}

proof fn lemma_step_counts<I, R>(m: ActorModel<I, R>, e: Event<I, R>)
    requires
        m.wf(),
    ensures
        step(m, e).0.wf(),
        step(m, e).0.capacity == m.capacity,
        step(m, e).1 matches Outcome::Delivered(t, _, _) ==> t == m.answered && step(m, e).0.answered == m.answered + 1,
        !(step(m, e).1 is Delivered) ==> step(m, e).0.answered == m.answered,
        step(m, e).1 matches Outcome::Accepted(t) ==> t == m.next_ticket() && step(m, e).0.next_ticket() == m.next_ticket() + 1,
        !(step(m, e).1 is Accepted) ==> step(m, e).0.next_ticket() == m.next_ticket(),
        step(m, e).1 matches Outcome::Delivered(_, _, done) ==> (done <==> !(e is Cancel)),
{
}

/// Calls are answered in the order they were submitted, one at a time: over
/// any run of events, the k-th answer goes to ticket `answered + k`, the k-th
/// accepted submission gets ticket `next_ticket + k`, and where nothing is
/// cancelled every answer carries the call's output.
pub proof fn lemma_answers_in_submission_order<I, R>(m: ActorModel<I, R>, es: Seq<Event<I, R>>)
    requires
        m.wf(),
    ensures
        forall|k: int| 0 <= k < delivered_tickets(run(m, es).1).len() ==>
            #[trigger] delivered_tickets(run(m, es).1)[k] == m.answered + k,
        forall|k: int| 0 <= k < accepted_tickets(run(m, es).1).len() ==>
            #[trigger] accepted_tickets(run(m, es).1)[k] == m.next_ticket() + k,
        no_cancel(es) ==> all_with_output(run(m, es).1),
    decreases es.len(),
{
    if es.len() > 0 {
        let (m1, o) = step(m, es[0]);
        lemma_step_counts(m, es[0]);
        let rest = es.drop_first();
        lemma_answers_in_submission_order(m1, rest);
        let os = run(m, es).1;
        let os1 = run(m1, rest).1;
        assert(os =~= seq![o] + os1);
        assert(os.drop_first() =~= os1);
        let d = delivered_tickets(os);
        let d1 = delivered_tickets(os1);
        assert forall|k: int| 0 <= k < d.len() implies #[trigger] d[k] == m.answered + k by {
            if o is Delivered {
                assert(d =~= seq![m.answered] + d1);
                if k > 0 {
                    assert(d[k] == d1[k - 1]);
                }
            } else {
                assert(d =~= d1);
            }
        }
        let a = accepted_tickets(os);
        let a1 = accepted_tickets(os1);
        assert forall|k: int| 0 <= k < a.len() implies #[trigger] a[k] == m.next_ticket() + k by {
            if o is Accepted {
                assert(a =~= seq![m.next_ticket()] + a1);
                if k > 0 {
                    assert(a[k] == a1[k - 1]);
                }
            } else {
                assert(a =~= a1);
            }
        }
        if no_cancel(es) {
            assert(!(es[0] is Cancel));
            assert forall|i: int| 0 <= i < rest.len() implies !(#[trigger] rest[i] is Cancel) by {
                assert(rest[i] == es[i + 1]);
            }
            assert forall|i: int| 0 <= i < os.len() implies (#[trigger] os[i] matches Outcome::Delivered(_, _, done) ==> done) by {
                if i > 0 {
                    assert(os[i] == os1[i - 1]);
                }
            }
        }
    }
}

/// Cancelling affects only the call in progress: it is answered without
/// output, the calls waiting in the mailbox stay as they were, in order, and
/// keep their tickets. With no call in progress, cancelling does nothing.
pub proof fn lemma_cancel_affects_only_the_call_in_progress<I, R>(m: ActorModel<I, R>)
    requires
        m.wf(),
    ensures
        step(m, Event::Cancel).0.queue == m.queue,
        step(m, Event::Cancel).0.next_ticket() == m.next_ticket(),
        step(m, Event::Cancel).0.current is None,
        m.current matches Some(reply) ==> step(m, Event::Cancel).1 == Outcome::<I, R>::Delivered(m.answered, reply, false),
        m.current is None ==> step(m, Event::Cancel) == (m, Outcome::<I, R>::Ignored),
{
}

/// Cancelling the call in progress answers it without output; a call
/// submitted after that is started and answered with its output, and a late
/// completion of the cancelled call is ignored.
pub proof fn lemma_cancel_spares_later_calls<I, R>(
    m: ActorModel<I, R>,
    input: I,
    reply: R,
)
    requires
        m.wf(),
        m.current is Some,
        m.queue.len() == 0,
        m.capacity > 0,
        m.answered + 2 <= u64::MAX,
    ensures
        run(m, seq![Event::Cancel, Event::Submit(input, reply), Event::Start, Event::Complete(m.answered), Event::Complete(m.answered + 1)]).1
            == seq![
                Outcome::Delivered(m.answered, m.current->0, false),
                Outcome::Accepted(m.answered + 1),
                Outcome::Started(m.answered + 1, input),
                Outcome::<I, R>::Ignored,
                Outcome::Delivered(m.answered + 1, reply, true),
            ],
{
    let es = seq![Event::Cancel, Event::Submit(input, reply), Event::Start, Event::Complete(m.answered), Event::Complete(m.answered + 1)];
    let m1 = step(m, es[0]).0;
    let m2 = step(m1, es[1]).0;
    let m3 = step(m2, es[2]).0;
    let m4 = step(m3, es[3]).0;
    let m5 = step(m4, es[4]).0;
    assert(m2.queue =~= seq![(input, reply)]);
    assert(es.drop_first() =~= seq![es[1], es[2], es[3], es[4]]);
    assert(es.drop_first().drop_first() =~= seq![es[2], es[3], es[4]]);
    assert(es.drop_first().drop_first().drop_first() =~= seq![es[3], es[4]]);
    assert(es.drop_first().drop_first().drop_first().drop_first() =~= seq![es[4]]);
    assert(es.drop_first().drop_first().drop_first().drop_first().drop_first() =~= Seq::<Event<I, R>>::empty());
    assert(run(m5, Seq::<Event<I, R>>::empty()).1 =~= Seq::<Outcome<I, R>>::empty());
    assert(run(m4, seq![es[4]]).1 =~= seq![step(m4, es[4]).1]);
    assert(run(m3, seq![es[3], es[4]]).1 =~= seq![step(m3, es[3]).1, step(m4, es[4]).1]);
    assert(run(m2, seq![es[2], es[3], es[4]]).1 =~= seq![step(m2, es[2]).1, step(m3, es[3]).1, step(m4, es[4]).1]);
    assert(run(m1, seq![es[1], es[2], es[3], es[4]]).1 =~= seq![step(m1, es[1]).1, step(m2, es[2]).1, step(m3, es[3]).1, step(m4, es[4]).1]);
}

/// The actor's state. The runtime that drives it keeps it in one place and
/// reports every event to it.
pub struct Actor<I, R> {
    queue: Vec<(I, R)>,
    current: Option<R>,
    answered: u64,
    waited: u64,
    capacity: usize,
}

impl<I, R> View for Actor<I, R> {
    type V = ActorModel<I, R>;

    closed spec fn view(&self) -> ActorModel<I, R> {
        ActorModel {
            queue: self.queue@,
            current: self.current,
            answered: self.answered as nat,
            waited: self.waited as nat,
            capacity: self.capacity as nat,
        }
    }
}

/// An answer to a call: its ticket, its reply channel, and its output, or
/// `None` when it was cancelled.
pub struct Delivery<R, O> {
    pub ticket: u64,
    pub reply: R,
    pub output: Option<O>,
}

impl<I, R> Actor<I, R> {
    /// An idle actor with an empty mailbox of `MAILBOX_CAPACITY` calls.
    pub fn new() -> (r: Self)
        ensures
            r@.wf(),
            r@.queue.len() == 0,
            r@.current is None,
            r@.answered == 0,
            r@.waited == 0,
            r@.capacity == MAILBOX_CAPACITY,
    {
        Actor { queue: Vec::new(), current: None, answered: 0, waited: 0, capacity: MAILBOX_CAPACITY }
    }

    /// Whether a call is in progress.
    pub fn is_busy(&self) -> (r: bool)
        ensures
            r == self@.current is Some,
    {
        self.current.is_some()
    }

    /// Queues a call, or hands it back when the mailbox is full.
    pub fn submit(&mut self, input: I, reply: R) -> (r: Result<u64, (I, R)>)
        requires
            old(self)@.wf(),
        ensures
            final(self)@.wf(),
            final(self)@ == step(old(self)@, Event::Submit(input, reply)).0,
            match step(old(self)@, Event::Submit(input, reply)).1 {
                Outcome::Accepted(t) => r matches Ok(ticket) && ticket == t,
                _ => r matches Err(back) && back == (input, reply),
            },
    {
        let busy: u64 = if self.current.is_some() { 1 } else { 0 };
        let waiting = self.queue.len();
        if waiting < self.capacity && (self.answered as u128) + (busy as u128) + (waiting as u128) < u64::MAX as u128 {
            let ticket = self.answered + busy + waiting as u64;
            self.queue.push((input, reply));
            Ok(ticket)
        } else {
            Err((input, reply))
        }
    }

    /// Takes the next call from the mailbox when none is in progress: its
    /// ticket and input, to be run.
    pub fn start(&mut self) -> (r: Option<(u64, I)>)
        requires
            old(self)@.wf(),
        ensures
            final(self)@.wf(),
            final(self)@ == step(old(self)@, Event::Start).0,
            match step(old(self)@, Event::Start).1 {
                Outcome::Started(t, input) => r matches Some((ticket, i)) && ticket == t && i == input,
                _ => r is None,
            },
    {
        if self.current.is_none() && self.queue.len() > 0 {
            let (input, reply) = self.queue.remove(0);
            self.current = Some(reply);
            self.waited = 0;
            assert(self.queue@ =~= old(self)@.queue.drop_first());
            Some((self.answered, input))
        } else {
            None
        }
    }

    /// The call with `ticket` finished with `output`: answers it if it is the
    /// call in progress; otherwise (it was cancelled) the output is dropped.
    pub fn complete<O>(&mut self, ticket: u64, output: O) -> (r: Option<Delivery<R, O>>)
        requires
            old(self)@.wf(),
        ensures
            final(self)@.wf(),
            final(self)@ == step(old(self)@, Event::Complete(ticket as nat)).0,
            match step(old(self)@, Event::Complete(ticket as nat)).1 {
                Outcome::Delivered(t, reply, _) => r matches Some(d) && d.ticket == t && d.reply == reply
                    && d.output == Some(output),
                _ => r is None,
            },
    {
        if self.current.is_some() && ticket == self.answered {
            let reply = self.current.take().unwrap();
            self.answered = self.answered + 1;
            self.waited = 0;
            Some(Delivery { ticket, reply, output: Some(output) })
        } else {
            None
        }
    }

    /// Abandons the call in progress, if any: it is to be answered with `None`.
    pub fn cancel<O>(&mut self) -> (r: Option<Delivery<R, O>>)
        requires
            old(self)@.wf(),
        ensures
            final(self)@.wf(),
            final(self)@ == step(old(self)@, Event::Cancel).0,
            match step(old(self)@, Event::Cancel).1 {
                Outcome::Delivered(t, reply, _) => r matches Some(d) && d.ticket == t && d.reply == reply
                    && d.output is None,
                _ => r is None,
            },
    {
        match self.current.take() {
            Some(reply) => {
                let ticket = self.answered;
                self.answered = self.answered + 1;
                self.waited = 0;
                Some(Delivery { ticket, reply, output: None })
            },
            None => None,
        }
    }

    /// A heartbeat passed: while a call is in progress, how many it has now
    /// waited, to be reported.
    pub fn tick(&mut self) -> (r: Option<u64>)
        requires
            old(self)@.wf(),
        ensures
            final(self)@.wf(),
            final(self)@ == step(old(self)@, Event::Tick).0,
            match step(old(self)@, Event::Tick).1 {
                Outcome::Waited(w) => r matches Some(n) && n == w,
                _ => r is None,
            },
    {
        if self.current.is_some() {
            if self.waited < u64::MAX {
                self.waited = self.waited + 1;
            }
            Some(self.waited)
        } else {
            None
        }
    }
}

} // verus!
