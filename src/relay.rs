//! The streaming relay of a chat call, as a state machine.
//!
//! The host opens the daemon's chat stream, pulls fragments and pushes them
//! to the notification sink; after each of these it reports what happened as
//! an [`Event`], and [`Relay::step`] answers with the next [`Action`]. The
//! relay forwards fragments one at a time in the order they were produced,
//! and the first failure of any kind ends the call.
use vstd::prelude::*;
use crate::error::{FailKind, OperationError};

verus! {

/// Where a chat call stands.
#[derive(Clone, Copy, Debug, PartialEq, Eq, Structural)]
pub enum Phase {
    /// Waiting for the daemon to accept the chat request.
    Opening,
    /// Waiting for the next fragment, or for the end of the stream.
    Pulling,
    /// Waiting for the sink to take the fragment in flight.
    Delivering,
    /// The stream was exhausted and every fragment delivered.
    Done,
    /// The call ended with an error.
    Failed,
}

/// What the host observed after carrying out the last action.
pub enum Event {
    /// The daemon accepted the request and opened a stream.
    Opened,
    /// The daemon could not be reached or refused the request.
    OpenFailed(String),
    /// The stream produced a fragment with this content.
    Fragment(String),
    /// Pulling from the stream failed.
    PullFailed(String),
    /// The stream has no more fragments.
    Exhausted,
    /// The sink took the fragment in flight.
    Delivered,
    /// The sink rejected the fragment in flight.
    DeliveryRejected(String),
}

/// What the host is to do next.
pub enum Action {
    /// Pull the next fragment from the stream.
    PullNext,
    /// Push a notification with this content to the sink.
    Deliver(String),
    /// Report success to the caller.
    Succeed,
    /// Report this error to the caller.
    Fail(OperationError),
}

/// An event, with its text as a sequence of characters.
pub enum EventView {
    Opened,
    OpenFailed(Seq<char>),
    Fragment(Seq<char>),
    PullFailed(Seq<char>),
    Exhausted,
    Delivered,
    DeliveryRejected(Seq<char>),
}

/// An action, with its text as a sequence of characters.
pub enum Signal {
    PullNext,
    Deliver(Seq<char>),
    Succeed,
    Fail(FailKind, Seq<char>),
}

impl View for Event {
    type V = EventView;

    open spec fn view(&self) -> EventView {
        match self {
            Event::Opened => EventView::Opened,
            Event::OpenFailed(d) => EventView::OpenFailed(d@),
            Event::Fragment(c) => EventView::Fragment(c@),
            Event::PullFailed(d) => EventView::PullFailed(d@),
            Event::Exhausted => EventView::Exhausted,
            Event::Delivered => EventView::Delivered,
            Event::DeliveryRejected(d) => EventView::DeliveryRejected(d@),
        }
    }
}

impl View for Action {
    type V = Signal;

    open spec fn view(&self) -> Signal {
        match self {
            Action::PullNext => Signal::PullNext,
            Action::Deliver(c) => Signal::Deliver(c@),
            Action::Succeed => Signal::Succeed,
            Action::Fail(e) => Signal::Fail(e.kind, e.detail@),
        }
    }
}

/// The abstract state of a relay: its phase, the fragments the sink has
/// taken so far, and the fragment in flight.
pub struct RelayState {
    pub phase: Phase,
    pub sent: Seq<Seq<char>>,
    pub pending: Seq<char>,
}

/// The state every chat call starts from.
pub open spec fn initial() -> RelayState {
    RelayState { phase: Phase::Opening, sent: seq![], pending: seq![] }
}

/// The call has ended, with success or with an error.
pub open spec fn finished(s: RelayState) -> bool {
    s.phase == Phase::Done || s.phase == Phase::Failed
}

/// The events that can answer the action a relay in state `s` asked for.
pub open spec fn accepts(s: RelayState, e: EventView) -> bool {
    match s.phase {
        Phase::Opening => e is Opened || e is OpenFailed,
        Phase::Pulling => e is Fragment || e is PullFailed || e is Exhausted,
        Phase::Delivering => e is Delivered || e is DeliveryRejected,
        _ => false,
    }
}

/// The state after an accepted event, and the action it calls for.
pub open spec fn next(s: RelayState, e: EventView) -> (RelayState, Signal) {
    match e {
        EventView::Opened => (RelayState { phase: Phase::Pulling, ..s }, Signal::PullNext),
        EventView::OpenFailed(d) => (
            RelayState { phase: Phase::Failed, ..s },
            Signal::Fail(FailKind::Connection, d),
        ),
        EventView::Fragment(c) => (
            RelayState { phase: Phase::Delivering, pending: c, ..s },
            Signal::Deliver(c),
        ),
        EventView::PullFailed(d) => (
            RelayState { phase: Phase::Failed, ..s },
            Signal::Fail(FailKind::Stream, d),
        ),
        EventView::Exhausted => (RelayState { phase: Phase::Done, ..s }, Signal::Succeed),
        EventView::Delivered => (
            RelayState { phase: Phase::Pulling, sent: s.sent.push(s.pending), ..s },
            Signal::PullNext,
        ),
        EventView::DeliveryRejected(d) => (
            RelayState { phase: Phase::Failed, ..s },
            Signal::Fail(FailKind::Delivery, d),
        ),
    }
}

/// Every event of `evs`, taken in turn from `s`, is one the relay accepts.
pub open spec fn admits(s: RelayState, evs: Seq<EventView>) -> bool
    decreases evs.len(),
{
    evs.len() == 0 || (accepts(s, evs[0]) && admits(next(s, evs[0]).0, evs.drop_first()))
}

/// The state after the events `evs`, taken in turn from `s`, and the
/// actions they called for, in order.
pub open spec fn run(s: RelayState, evs: Seq<EventView>) -> (RelayState, Seq<Signal>)
    decreases evs.len(),
{
    if evs.len() == 0 {
        (s, seq![])
    } else {
        let (t, a) = next(s, evs[0]);
        let (u, rest) = run(t, evs.drop_first());
        (u, seq![a] + rest)
    }
}

/// The contents pushed to the sink by a sequence of actions, in order.
pub open spec fn deliveries(sigs: Seq<Signal>) -> Seq<Seq<char>>
    decreases sigs.len(),
{
    if sigs.len() == 0 {
        seq![]
    } else {
        let rest = deliveries(sigs.drop_first());
        match sigs[0] {
            Signal::Deliver(c) => seq![c] + rest,
            _ => rest,
        }
    }
}

/// The action ends the call.
pub open spec fn is_final(a: Signal) -> bool {
    a is Succeed || a is Fail
}

/// The events of a stream that yields `frags`, each taken by the sink.
pub open spec fn relayed(frags: Seq<Seq<char>>) -> Seq<EventView>
    decreases frags.len(),
{
    if frags.len() == 0 {
        seq![]
    } else {
        seq![EventView::Fragment(frags[0]), EventView::Delivered] + relayed(frags.drop_first())
    }
}

/// Running `a` and then `b` is running their concatenation.
pub proof fn lemma_run_append(s: RelayState, a: Seq<EventView>, b: Seq<EventView>)
    ensures
        run(s, a + b) == (run(run(s, a).0, b).0, run(s, a).1 + run(run(s, a).0, b).1),
        admits(s, a + b) == (admits(s, a) && admits(run(s, a).0, b)),
    decreases a.len(),
{
    if a.len() == 0 {
        assert(a + b =~= b);
        assert(seq![] + run(s, b).1 =~= run(s, b).1);
    } else {
        let t = next(s, a[0]).0;
        assert((a + b)[0] == a[0]);
        assert((a + b).drop_first() =~= a.drop_first() + b);
        lemma_run_append(t, a.drop_first(), b);
        let x = seq![next(s, a[0]).1];
        assert(x + (run(t, a.drop_first()).1 + run(run(t, a.drop_first()).0, b).1)
            =~= (x + run(t, a.drop_first()).1) + run(run(t, a.drop_first()).0, b).1);
    }
}

/// The deliveries of concatenated actions are concatenated deliveries.
pub proof fn lemma_deliveries_append(x: Seq<Signal>, y: Seq<Signal>)
    ensures
        deliveries(x + y) == deliveries(x) + deliveries(y),
    decreases x.len(),
{
    if x.len() == 0 {
        assert(x + y =~= y);
        assert(seq![] + deliveries(y) =~= deliveries(y));
    } else {
        assert((x + y)[0] == x[0]);
        assert((x + y).drop_first() =~= x.drop_first() + y);
        lemma_deliveries_append(x.drop_first(), y);
        match x[0] {
            Signal::Deliver(c) => {
                assert(seq![c] + (deliveries(x.drop_first()) + deliveries(y))
                    =~= (seq![c] + deliveries(x.drop_first())) + deliveries(y));
            },
            _ => {},
        }
    }
}

/// The run of a single event.
pub proof fn lemma_run_one(s: RelayState, e: EventView)
    ensures
        run(s, seq![e]) == (next(s, e).0, seq![next(s, e).1]),
        admits(s, seq![e]) == accepts(s, e),
        deliveries(seq![next(s, e).1]) == (match next(s, e).1 {
            Signal::Deliver(c) => seq![c],
            _ => Seq::<Seq<char>>::empty(),
        }),
{
    let evs = seq![e];
    assert(evs.drop_first() =~= Seq::<EventView>::empty());
    assert(run(next(s, e).0, evs.drop_first()) == (next(s, e).0, Seq::<Signal>::empty()));
    assert(admits(next(s, e).0, evs.drop_first()));
    assert(seq![next(s, e).1] + Seq::<Signal>::empty() =~= seq![next(s, e).1]);
    let sigs = seq![next(s, e).1];
    assert(sigs.drop_first() =~= Seq::<Signal>::empty());
    assert(deliveries(sigs.drop_first()) == Seq::<Seq<char>>::empty());
    match next(s, e).1 {
        Signal::Deliver(c) => {
            assert(seq![c] + Seq::<Seq<char>>::empty() =~= seq![c]);
        },
        _ => {},
    }
}

/// From a relay waiting for fragments, a stream that yields `frags`, each
/// taken by the sink, is accepted event by event, pushes exactly `frags` in
/// order, records them as sent, never ends the call, and leaves the relay
/// waiting for the next fragment.
pub proof fn lemma_relayed(s: RelayState, frags: Seq<Seq<char>>)
    requires
        s.phase == Phase::Pulling,
    ensures
        admits(s, relayed(frags)),
        run(s, relayed(frags)).0.phase == Phase::Pulling,
        run(s, relayed(frags)).0.sent == s.sent + frags,
        deliveries(run(s, relayed(frags)).1) == frags,
        forall|i: int| 0 <= i < run(s, relayed(frags)).1.len()
            ==> !is_final(#[trigger] run(s, relayed(frags)).1[i]),
    decreases frags.len(),
{
    if frags.len() == 0 {
        assert(s.sent + frags =~= s.sent);
    } else {
        let e1 = EventView::Fragment(frags[0]);
        let e2 = EventView::Delivered;
        let s1 = next(s, e1).0;
        let s2 = next(s1, e2).0;
        let rest = frags.drop_first();
        lemma_run_one(s, e1);
        lemma_run_one(s1, e2);
        lemma_run_append(s, seq![e1], seq![e2]);
        assert(seq![e1] + seq![e2] =~= seq![e1, e2]);
        lemma_run_append(s, seq![e1, e2], relayed(rest));
        lemma_relayed(s2, rest);
        let head = run(s, seq![e1, e2]).1;
        assert(head =~= seq![Signal::Deliver(frags[0]), Signal::PullNext]);
        lemma_deliveries_append(seq![Signal::Deliver(frags[0])], seq![Signal::PullNext]);
        lemma_run_one(s1, e2);
        lemma_deliveries_append(head, run(s2, relayed(rest)).1);
        assert(seq![frags[0]] + rest =~= frags);
        assert(s2.sent + rest =~= s.sent + frags);
        let all = run(s, relayed(frags)).1;
        assert forall|i: int| 0 <= i < all.len() implies !is_final(#[trigger] all[i]) by {
            if i >= 2 {
                assert(all[i] == run(s2, relayed(rest)).1[i - 2]);
            }
        }
    }
}

/// The run of an opened stream: `Opened`, then `frags` relayed one by one.
proof fn lemma_opened_then_relayed(frags: Seq<Seq<char>>)
    ensures
        admits(initial(), seq![EventView::Opened] + relayed(frags)),
        run(initial(), seq![EventView::Opened] + relayed(frags)).0.phase == Phase::Pulling,
        run(initial(), seq![EventView::Opened] + relayed(frags)).0.sent == frags,
        deliveries(run(initial(), seq![EventView::Opened] + relayed(frags)).1) == frags,
        forall|i: int| 0 <= i < run(initial(), seq![EventView::Opened] + relayed(frags)).1.len()
            ==> !is_final(#[trigger] run(initial(), seq![EventView::Opened] + relayed(frags)).1[i]),
{
    let s1 = next(initial(), EventView::Opened).0;
    lemma_run_one(initial(), EventView::Opened);
    lemma_run_append(initial(), seq![EventView::Opened], relayed(frags));
    lemma_relayed(s1, frags);
    lemma_deliveries_append(seq![Signal::PullNext], run(s1, relayed(frags)).1);
    assert(Seq::<Seq<char>>::empty() + frags =~= frags);
    let all = run(initial(), seq![EventView::Opened] + relayed(frags)).1;
    assert forall|i: int| 0 <= i < all.len() implies !is_final(#[trigger] all[i]) by {
        if i >= 1 {
            assert(all[i] == run(s1, relayed(frags)).1[i - 1]);
        }
    }
}

/// A call whose stream yields `frags` and then ends, each fragment taken by
/// the sink, pushes exactly `frags`, in the order the daemon produced them,
/// and then succeeds: success is its last action and its only final one.
pub proof fn lemma_complete_stream(frags: Seq<Seq<char>>)
    ensures
        ({
            let evs = seq![EventView::Opened] + relayed(frags) + seq![EventView::Exhausted];
            let (end, sigs) = run(initial(), evs);
            &&& admits(initial(), evs)
            &&& end.phase == Phase::Done
            &&& end.sent == frags
            &&& deliveries(sigs) == frags
            &&& sigs.last() == Signal::Succeed
            &&& forall|i: int| 0 <= i < sigs.len() - 1 ==> !is_final(#[trigger] sigs[i])
        }),
{
    let pre = seq![EventView::Opened] + relayed(frags);
    lemma_opened_then_relayed(frags);
    let mid = run(initial(), pre).0;
    lemma_run_append(initial(), pre, seq![EventView::Exhausted]);
    lemma_run_one(mid, EventView::Exhausted);
    lemma_deliveries_append(run(initial(), pre).1, seq![Signal::Succeed]);
    assert(frags + Seq::<Seq<char>>::empty() =~= frags);
}

/// A call whose stream yields `frags` and then fails pushes exactly `frags`,
/// no more, and then fails with a stream error carrying the daemon's words;
/// `frags` may be empty.
pub proof fn lemma_stream_fault(frags: Seq<Seq<char>>, detail: Seq<char>)
    ensures
        ({
            let evs = seq![EventView::Opened] + relayed(frags) + seq![EventView::PullFailed(detail)];
            let (end, sigs) = run(initial(), evs);
            &&& admits(initial(), evs)
            &&& end.phase == Phase::Failed
            &&& end.sent == frags
            &&& deliveries(sigs) == frags
            &&& sigs.last() == Signal::Fail(FailKind::Stream, detail)
            &&& forall|i: int| 0 <= i < sigs.len() - 1 ==> !is_final(#[trigger] sigs[i])
        }),
{
    let pre = seq![EventView::Opened] + relayed(frags);
    lemma_opened_then_relayed(frags);
    let mid = run(initial(), pre).0;
    lemma_run_append(initial(), pre, seq![EventView::PullFailed(detail)]);
    lemma_run_one(mid, EventView::PullFailed(detail));
    lemma_deliveries_append(run(initial(), pre).1, seq![Signal::Fail(FailKind::Stream, detail)]);
    assert(frags + Seq::<Seq<char>>::empty() =~= frags);
}

/// A call whose daemon cannot open the stream pushes nothing and fails with
/// a connection error carrying the daemon's words.
pub proof fn lemma_open_fault(detail: Seq<char>)
    ensures
        ({
            let evs = seq![EventView::OpenFailed(detail)];
            let (end, sigs) = run(initial(), evs);
            &&& admits(initial(), evs)
            &&& end.phase == Phase::Failed
            &&& end.sent.len() == 0
            &&& deliveries(sigs).len() == 0
            &&& sigs == seq![Signal::Fail(FailKind::Connection, detail)]
        }),
{
    lemma_run_one(initial(), EventView::OpenFailed(detail));
}

/// A call whose sink rejects the fragment at index `j` of `frags` has
/// attempted to push exactly the fragments up to and including that one,
/// of which the sink took those before it; it fails with a delivery error,
/// and the relay accepts no further event, so no later fragment is pulled
/// or pushed.
pub proof fn lemma_sink_rejection(frags: Seq<Seq<char>>, j: int, detail: Seq<char>)
    requires
        0 <= j < frags.len(),
    ensures
        ({
            let evs = seq![EventView::Opened] + relayed(frags.take(j)) + seq![
                EventView::Fragment(frags[j]),
                EventView::DeliveryRejected(detail),
            ];
            let (end, sigs) = run(initial(), evs);
            &&& admits(initial(), evs)
            &&& end.phase == Phase::Failed
            &&& end.sent == frags.take(j)
            &&& deliveries(sigs) == frags.take(j + 1)
            &&& sigs.last() == Signal::Fail(FailKind::Delivery, detail)
            &&& forall|e: EventView| !accepts(end, e)
        }),
{
    let pre = seq![EventView::Opened] + relayed(frags.take(j));
    lemma_opened_then_relayed(frags.take(j));
    let s1 = run(initial(), pre).0;
    let e1 = EventView::Fragment(frags[j]);
    let e2 = EventView::DeliveryRejected(detail);
    let s2 = next(s1, e1).0;
    lemma_run_one(s1, e1);
    lemma_run_one(s2, e2);
    lemma_run_append(s1, seq![e1], seq![e2]);
    assert(seq![e1] + seq![e2] =~= seq![e1, e2]);
    lemma_run_append(initial(), pre, seq![e1, e2]);
    let tail = run(s1, seq![e1, e2]).1;
    assert(tail =~= seq![Signal::Deliver(frags[j]), Signal::Fail(FailKind::Delivery, detail)]);
    lemma_deliveries_append(seq![Signal::Deliver(frags[j])], seq![Signal::Fail(FailKind::Delivery, detail)]);
    lemma_deliveries_append(run(initial(), pre).1, tail);
    assert(frags.take(j) + seq![frags[j]] =~= frags.take(j + 1));
    assert(seq![frags[j]] + Seq::<Seq<char>>::empty() =~= seq![frags[j]]);
}

/// Every chat call starts from the same state, so two calls that observe
/// the same events from their daemon and sink take the same actions, in the
/// same order, and end in the same state: nothing of one call reaches the
/// next.
pub proof fn lemma_fresh_calls_agree(a: RelayState, b: RelayState, evs: Seq<EventView>)
    requires
        a == initial(),
        b == initial(),
    ensures
        run(a, evs) == run(b, evs),
        admits(a, evs) == admits(b, evs),
{
}

/// The driver of one chat call's stream.
pub struct Relay {
    phase: Phase,
    sent: Ghost<Seq<Seq<char>>>,
    pending: Ghost<Seq<char>>,
}

impl View for Relay {
    type V = RelayState;

    closed spec fn view(&self) -> RelayState {
        RelayState { phase: self.phase, sent: self.sent@, pending: self.pending@ }
    }
}

impl Relay {
    /// A relay for a new chat call; the host's first move is to open the
    /// daemon's chat stream.
    pub fn new() -> (r: Relay)
        ensures
            r@ == initial(),
    {
        Relay { phase: Phase::Opening, sent: Ghost(Seq::empty()), pending: Ghost(Seq::empty()) }
    }

    pub fn phase(&self) -> (p: Phase)
        ensures
            p == self@.phase,
    {
        self.phase
    }

    /// Whether the call has ended.
    pub fn is_finished(&self) -> (b: bool)
        ensures
            b == finished(self@),
    {
        self.phase == Phase::Done || self.phase == Phase::Failed
    }

    /// Whether `event` answers the action this relay asked for last.
    pub fn accepts(&self, event: &Event) -> (b: bool)
        ensures
            b == accepts(self@, event@),
    {
        match self.phase {
            Phase::Opening => matches!(event, Event::Opened | Event::OpenFailed(_)),
            Phase::Pulling => matches!(event, Event::Fragment(_) | Event::PullFailed(_) | Event::Exhausted),
            Phase::Delivering => matches!(event, Event::Delivered | Event::DeliveryRejected(_)),
            _ => false,
        }
    }

    /// Takes the host's report of the last action and says what to do next.
    pub fn step(&mut self, event: Event) -> (action: Action)
        requires
            accepts(old(self)@, event@),
        ensures
            (final(self)@, action@) == next(old(self)@, event@),
    {
        match event {
            Event::Opened => {
                self.phase = Phase::Pulling;
                Action::PullNext
            },
            Event::OpenFailed(d) => {
                self.phase = Phase::Failed;
                Action::Fail(OperationError::new(FailKind::Connection, d))
            },
            Event::Fragment(c) => {
                self.phase = Phase::Delivering;
                self.pending = Ghost(c@);
                Action::Deliver(c)
            },
            Event::PullFailed(d) => {
                self.phase = Phase::Failed;
                Action::Fail(OperationError::new(FailKind::Stream, d))
            },
            Event::Exhausted => {
                self.phase = Phase::Done;
                Action::Succeed
            },
            Event::Delivered => {
                self.phase = Phase::Pulling;
                self.sent = Ghost(self.sent@.push(self.pending@));
                Action::PullNext
            },
            Event::DeliveryRejected(d) => {
                self.phase = Phase::Failed;
                Action::Fail(OperationError::new(FailKind::Delivery, d))
            },
        }
    }
}

} // verus!
