//! Correlation protocol of one multiplexed connection: which identifier a
//! call gets, when it is registered, which pending call an inbound frame
//! completes, and what happens to the pending calls when the connection
//! fails.
//!
//! The connection's send path and read-dispatch loop drive a
//! [`Multiplexer`]; it performs no I/O itself.

use crate::registry::TxHashMap;
use crate::shard::enumerates;
use vstd::prelude::*;

verus! {

/// Lifecycle of a multiplexed connection.
#[derive(Clone, Copy, Debug, PartialEq, Eq, Structural)]
pub enum TransportState {
    /// The read loop is running and calls are accepted.
    Active,
    /// A fatal error was observed; the pending calls are yet to be drained.
    Draining,
    /// The pending calls were drained; no call is accepted any more.
    Closed,
}

/// What the send path is to do with a call that it handed to
/// [`Multiplexer::begin_call`].
#[derive(Debug, PartialEq, Eq)]
pub enum Dispatch<T> {
    /// A two-way call, registered under `id`: write the frame, then wait for
    /// the completion handle to be resolved.
    Await { id: i32 },
    /// A one-way call: write the frame under `id` and return at once. The
    /// completion handle was not registered and comes back unused.
    OneWay { id: i32, handle: T },
    /// The connection accepts no calls: fail the call at once. Nothing was
    /// allocated or registered.
    Refused { handle: T },
    /// The identifier `id` was still pending. The new call is registered in
    /// place of the `displaced` one and the connection is now draining: both
    /// are to fail.
    Collision { id: i32, displaced: T },
}

/// The identifier that follows `id`, wrapping from the largest to the
/// smallest.
pub open spec fn following(id: i32) -> i32 {
    if id == i32::MAX {
        i32::MIN
    } else {
        (id + 1) as i32
    }
}

/// The state of a connection's correlation protocol.
pub struct Correlation<T> {
    /// The completion handles of the calls that await a response, by call
    /// identifier.
    pub pending: Map<i32, T>,
    /// The identifier that the next call gets.
    pub next_id: i32,
    /// The connection's lifecycle state.
    pub state: TransportState,
}

impl<T> Correlation<T> {
    /// The state after a call was begun, and what the send path is told.
    pub open spec fn begun(self, one_way: bool, handle: T) -> (Self, Dispatch<T>) {
        let id = self.next_id;
        if self.state != TransportState::Active {
            (self, Dispatch::Refused { handle })
        } else if one_way {
            (Correlation { next_id: following(id), ..self }, Dispatch::OneWay { id, handle })
        } else if self.pending.contains_key(id) {
            (
                Correlation {
                    pending: self.pending.insert(id, handle),
                    next_id: following(id),
                    state: TransportState::Draining,
                },
                Dispatch::Collision { id, displaced: self.pending[id] },
            )
        } else {
            (
                Correlation { pending: self.pending.insert(id, handle), next_id: following(id), ..self },
                Dispatch::Await { id },
            )
        }
    }

    /// The state after the entry under `id`, if any, was taken out.
    pub open spec fn without(self, id: i32) -> Self {
        Correlation { pending: self.pending.remove(id), ..self }
    }

    /// The state after a fatal error was observed.
    pub open spec fn faulted(self) -> Self {
        if self.state == TransportState::Active {
            Correlation { state: TransportState::Draining, ..self }
        } else {
            self
        }
    }

    /// The state after the pending calls were drained.
    pub open spec fn drained(self) -> Self {
        Correlation { pending: Map::empty(), state: TransportState::Closed, ..self }
    }
}

/// The correlation state of one multiplexed connection, holding a completion
/// handle of type `T` for each call that awaits its response.
pub struct Multiplexer<T> {
    pending: TxHashMap<T>,
    next_id: i32,
    state: TransportState,
}

impl<T> View for Multiplexer<T> {
    type V = Correlation<T>;

    closed spec fn view(&self) -> Correlation<T> {
        Correlation { pending: self.pending@, next_id: self.next_id, state: self.state }
    }
}

impl<T> Multiplexer<T> {
    /// The registry is well formed, and a closed connection has no call
    /// pending.
    pub closed spec fn wf(&self) -> bool {
        &&& self.pending.wf()
        &&& self.state == TransportState::Closed ==> self.pending@ == Map::<i32, T>::empty()
    }

    /// No pending call outlives its connection: once the connection is
    /// closed, nothing is pending.
    pub proof fn lemma_closed_means_drained(&self)
        requires
            self.wf(),
        ensures
            self@.settled(),
    {
    }

    /// The state of a connection that was just established: active, with no
    /// call pending. Its first call will get the identifier `first_id`.
    pub fn new(first_id: i32) -> (mux: Self)
        ensures
            mux.wf(),
            mux@ == (Correlation::<T> {
                pending: Map::empty(),
                next_id: first_id,
                state: TransportState::Active,
            }),
    {
        Multiplexer { pending: TxHashMap::default(), next_id: first_id, state: TransportState::Active }
    }

    /// The connection's lifecycle state.
    pub fn state(&self) -> (state: TransportState)
        ensures
            state == self@.state,
    {
        self.state
    }

    /// Begins a call, before its frame is written.
    ///
    /// An active connection gives the call the next identifier. A two-way
    /// call is registered under it with its completion `handle`; a one-way
    /// call is not registered, there being nothing to correlate. A
    /// connection that is draining or closed refuses the call.
    pub fn begin_call(&mut self, one_way: bool, handle: T) -> (dispatch: Dispatch<T>)
        requires
            old(self).wf(),
        ensures
            final(self).wf(),
            final(self)@ == old(self)@.begun(one_way, handle).0,
            dispatch == old(self)@.begun(one_way, handle).1,
            one_way ==> final(self)@.pending == old(self)@.pending && !(dispatch is Await),
    {
        if self.state != TransportState::Active {
            return Dispatch::Refused { handle };
        }
        let id = self.next_id;
        self.next_id = id.wrapping_add(1);
        if one_way {
            return Dispatch::OneWay { id, handle };
        }
        match self.pending.insert(id, handle) {
            Some(displaced) => {
                self.state = TransportState::Draining;
                Dispatch::Collision { id, displaced }
            },
            None => Dispatch::Await { id },
        }
    }

    /// Takes out the completion handle of the call that an inbound frame
    /// with identifier `id` answers. Returns `None` for a frame that matches
    /// no pending call; such a frame is to be discarded.
    pub fn dispatch(&mut self, id: i32) -> (handle: Option<T>)
        requires
            old(self).wf(),
        ensures
            final(self).wf(),
            final(self)@ == old(self)@.without(id),
            handle == old(self)@.pending.get(id),
    {
        let handle = self.pending.remove(&id);
        proof {
            if self.state == TransportState::Closed {
                assert(self.pending@ =~= Map::<i32, T>::empty());
            }
        }
        handle
    }

    /// Withdraws the call with identifier `id` on behalf of its caller.
    /// Returns its completion handle if the call was still pending. The
    /// connection's state is not affected.
    pub fn cancel(&mut self, id: i32) -> (handle: Option<T>)
        requires
            old(self).wf(),
        ensures
            final(self).wf(),
            final(self)@ == old(self)@.without(id),
            handle == old(self)@.pending.get(id),
    {
        self.dispatch(id)
    }

    /// Records a fatal read or write error: an active connection starts
    /// draining. The pending calls stay registered until [`Self::drain`].
    pub fn fail(&mut self)
        requires
            old(self).wf(),
        ensures
            final(self).wf(),
            final(self)@ == old(self)@.faulted(),
    {
        if self.state == TransportState::Active {
            self.state = TransportState::Draining;
        }
    }

    /// Takes out the completion handle of every pending call, each to be
    /// resolved with a terminal error, and closes the connection.
    pub fn drain(&mut self) -> (handles: Vec<(i32, T)>)
        requires
            old(self).wf(),
        ensures
            final(self).wf(),
            final(self)@ == old(self)@.drained(),
            enumerates(handles@, old(self)@.pending),
    {
        let handles = self.pending.drain();
        self.state = TransportState::Closed;
        handles
    }
}

/// Something that happens to a connection's correlation state.
pub enum Event<T> {
    /// The send path begins a call: [`Multiplexer::begin_call`].
    Call { one_way: bool, handle: T },
    /// The read path decoded a frame: [`Multiplexer::dispatch`].
    Frame { id: i32 },
    /// A caller gave up waiting: [`Multiplexer::cancel`].
    Cancel { id: i32 },
    /// A read or write failed: [`Multiplexer::fail`].
    Fault,
    /// The pending calls are drained: [`Multiplexer::drain`].
    Drain,
}

impl<T> Correlation<T> {
    /// The state after `event`.
    pub open spec fn step(self, event: Event<T>) -> Self {
        match event {
            Event::Call { one_way, handle } => self.begun(one_way, handle).0,
            Event::Frame { id } => self.without(id),
            Event::Cancel { id } => self.without(id),
            Event::Fault => self.faulted(),
            Event::Drain => self.drained(),
        }
    }

    /// The state after the events of `events`, in order.
    pub open spec fn run(self, events: Seq<Event<T>>) -> Self
        decreases events.len(),
    {
        if events.len() == 0 {
            self
        } else {
            self.run(events.drop_last()).step(events.last())
        }
    }

    /// Whether `event`, arriving in this state, takes out or replaces the
    /// entry under `id`.
    pub open spec fn touches(self, event: Event<T>, id: i32) -> bool {
        match event {
            Event::Call { one_way, .. } => {
                !one_way && self.state == TransportState::Active && self.next_id == id
            },
            Event::Frame { id: other } => other == id,
            Event::Cancel { id: other } => other == id,
            Event::Fault => false,
            Event::Drain => true,
        }
    }

    /// A closed connection has no call pending.
    pub open spec fn settled(self) -> bool {
        self.state == TransportState::Closed ==> self.pending == Map::<i32, T>::empty()
    }
}

/// A response completes the call that was sent under the response's
/// identifier, and no other.
///
/// Take a two-way call that was registered with `handle` under the
/// identifier `id`, followed by any traffic that leaves the entry under `id`
/// alone. Then a frame with identifier `id` is handed `handle`, and a frame
/// with any other identifier leaves the call pending.
pub proof fn lemma_frame_completes_matching_call<T>(
    start: Correlation<T>,
    handle: T,
    between: Seq<Event<T>>,
    frame_id: i32,
)
    requires
        start.begun(false, handle).1 is Await,
        forall|i: int|
            0 <= i < between.len() ==> !start.begun(false, handle).0.run(between.take(i)).touches(
                #[trigger] between[i],
                start.next_id,
            ),
    ensures
        start.begun(false, handle).0.run(between).pending.get(start.next_id) == Some(handle),
        frame_id != start.next_id ==> start.begun(false, handle).0.run(between).without(
            frame_id,
        ).pending.get(start.next_id) == Some(handle),
    decreases between.len(),
{
    let id = start.next_id;
    let registered = start.begun(false, handle).0;
    if between.len() > 0 {
        let earlier = between.drop_last();
        assert(between.take(between.len() - 1) =~= earlier);
        assert forall|i: int| 0 <= i < earlier.len() implies !registered.run(
            earlier.take(i),
        ).touches(#[trigger] earlier[i], id) by {
            assert(earlier.take(i) =~= between.take(i));
            assert(earlier[i] == between[i]);
        }
        lemma_frame_completes_matching_call(start, handle, earlier, frame_id);
        assert(!registered.run(earlier).touches(between[between.len() - 1], id));
    }
}

/// The lifecycle never goes back: what follows an event is no earlier in
/// the order active, draining, closed than what preceded it, and a closed
/// connection with no call pending is not changed by any event.
pub proof fn lemma_lifecycle_only_advances<T>(before: Correlation<T>, event: Event<T>)
    ensures
        before.state != TransportState::Active ==> before.step(event).state
            != TransportState::Active,
        before.state == TransportState::Closed ==> before.step(event).state
            == TransportState::Closed,
        before.settled() ==> before.step(event).settled(),
{
    if before.state == TransportState::Closed && before.settled() {
        assert(before.step(event).pending =~= Map::<i32, T>::empty());
    }
}

/// No pending call outlives its connection: along any history of a
/// connection that starts out with no closed-but-pending entry, a closed
/// connection has no call pending.
pub proof fn lemma_closed_has_nothing_pending<T>(start: Correlation<T>, events: Seq<Event<T>>)
    requires
        start.settled(),
    ensures
        start.run(events).settled(),
    decreases events.len(),
{
    if events.len() > 0 {
        lemma_closed_has_nothing_pending(start, events.drop_last());
        lemma_lifecycle_only_advances(start.run(events.drop_last()), events.last());
    }
}

/// Once the pending calls of a connection were drained, it is closed and
/// has no call pending, whatever happens afterwards.
pub proof fn lemma_drain_is_final<T>(start: Correlation<T>, events: Seq<Event<T>>, at: int)
    requires
        0 <= at < events.len(),
        events[at] is Drain,
    ensures
        start.run(events).state == TransportState::Closed,
        start.run(events).pending == Map::<i32, T>::empty(),
    decreases events.len(),
{
    let earlier = events.drop_last();
    if at < events.len() - 1 {
        assert(earlier[at] == events[at]);
        lemma_drain_is_final(start, earlier, at);
        lemma_lifecycle_only_advances(start.run(earlier), events.last());
    }
}

/// Once a connection has failed, it accepts no call any more: a call begun
/// at any later time is refused at once and is not registered, so that it
/// cannot be left waiting.
pub proof fn lemma_fault_refuses_later_calls<T>(
    start: Correlation<T>,
    events: Seq<Event<T>>,
    at: int,
    one_way: bool,
    handle: T,
)
    requires
        0 <= at < events.len(),
        events[at] is Fault,
    ensures
        start.run(events).state != TransportState::Active,
        start.run(events).begun(one_way, handle) == (
            start.run(events),
            Dispatch::Refused { handle },
        ),
    decreases events.len(),
{
    let earlier = events.drop_last();
    if at < events.len() - 1 {
        assert(earlier[at] == events[at]);
        lemma_fault_refuses_later_calls(start, earlier, at, one_way, handle);
        lemma_lifecycle_only_advances(start.run(earlier), events.last());
    }
}

} // verus!
