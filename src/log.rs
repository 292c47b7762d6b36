use vstd::prelude::*;
use std::collections::TryReserveError;
use crate::event::Event;
use crate::mpi_ibcast::MpiIbcast;

verus! {

/// The log after one append, whether its request for storage was granted
/// (`granted`) or refused.
pub open spec fn after_append(log: Seq<Event>, e: Event, granted: bool) -> Seq<Event> {
    if granted {
        log.push(e)
    } else {
        log
    }
}

/// The first `i` states of a run of appends from an empty log, each one
/// granted, hold the first `i` items in order.
proof fn lemma_granted_prefix(logs: Seq<Seq<Event>>, items: Seq<Event>, i: int)
    requires
        logs.len() == items.len() + 1,
        logs[0] == Seq::<Event>::empty(),
        forall|k: int|
            0 <= k < items.len() ==> #[trigger] logs[k + 1] == after_append(logs[k], items[k], true),
        0 <= i <= items.len(),
    ensures
        logs[i] == items.subrange(0, i),
    decreases i,
{
    if i == 0 {
        assert(items.subrange(0, 0) =~= Seq::<Event>::empty());
    } else {
        lemma_granted_prefix(logs, items, i - 1);
        assert(logs[(i - 1) + 1] == after_append(logs[i - 1], items[i - 1], true));
        assert(items.subrange(0, i - 1).push(items[i - 1]) =~= items.subrange(0, i));
    }
}

/// Appends to an empty log: `logs` are the successive states of the log and
/// `items` the events appended, one call each, every call granted. After
/// the `N` calls the log holds exactly the `N` items, in the order in which
/// they were appended. An append whose request is refused leaves the log,
/// and its length, as they were.
pub proof fn lemma_append_invariants(logs: Seq<Seq<Event>>, items: Seq<Event>, log: Seq<Event>, e: Event)
    requires
        logs.len() == items.len() + 1,
        logs[0] == Seq::<Event>::empty(),
        forall|k: int|
            0 <= k < items.len() ==> #[trigger] logs[k + 1] == after_append(logs[k], items[k], true),
    ensures
        logs.last().len() == items.len(),
        forall|i: int| 0 <= i < items.len() ==> #[trigger] logs.last()[i] == items[i],
        after_append(log, e, false) == log,
        after_append(log, e, false).len() == log.len(),
{
    lemma_granted_prefix(logs, items, items.len() as int);
    assert(items.subrange(0, items.len() as int) =~= items);
}

/// Relies on Vec::try_reserve_exact: whether or not the room was found, the
/// contents are left as they were; a request that the capacity already
/// covers, as a request for no more room always is, does nothing and
/// succeeds.
#[verifier::external_body]
fn reserve_exact(events: &mut Vec<Event>, additional: usize) -> (r: Result<(), TryReserveError>)
    ensures
        final(events)@ == old(events)@,
        additional == 0 ==> r is Ok,
{
    events.try_reserve_exact(additional)
}

/// Finishes an append once the request for storage has been answered:
/// pushes `event` if it was granted, and otherwise hands the refusal back
/// with the log unchanged.
pub fn complete_append<E>(events: &mut Vec<Event>, event: Event, reserved: Result<(), E>) -> (r:
    Result<(), E>)
    ensures
        r == reserved,
        final(events)@ == after_append(old(events)@, event, reserved is Ok),
{
    match reserved {
        Ok(granted) => {
            events.push(event);
            Ok(granted)
        },
        Err(e) => Err(e),
    }
}

/// The room to ask for before an append to a log of `len` events: as many
/// again, so that the storage doubles. An empty log asks for none.
pub fn doubling_request(len: usize) -> (r: usize)
    ensures
        r == len,
{
    len
}

/// Appends an event to the log. First asks for room for as many more
/// events as the log holds, so that the storage doubles rather than grows
/// one by one; if the allocator refuses, returns its error and leaves the
/// log unchanged instead of aborting.
pub fn append(events: &mut Vec<Event>, event: Event) -> (r: Result<(), TryReserveError>)
    ensures
        final(events)@ == after_append(old(events)@, event, r is Ok),
        old(events)@.len() == 0 ==> r is Ok,
{
    let additional = doubling_request(events.len());
    let reserved = reserve_exact(events, additional);
    complete_append(events, event, reserved)
}

/// A request for storage above the configured capacity.
#[derive(Clone, Copy, Debug, PartialEq, Eq, Structural)]
pub struct CapacityExceeded {
    /// The number of events held.
    pub len: usize,
    /// The number of further events asked room for.
    pub additional: usize,
    /// The most events that the storage may hold.
    pub capacity: usize,
}

/// A storage that holds at most `capacity` events: grants a request for
/// room for `additional` more events beside `len` exactly when the total
/// stays within `capacity`.
pub fn reserve_within(len: usize, additional: usize, capacity: usize) -> (r: Result<
    (),
    CapacityExceeded,
>)
    ensures
        r is Err == (len + additional > capacity),
        r matches Err(e) ==> e == (CapacityExceeded { len, additional, capacity }),
{
    if len > capacity || additional > capacity - len {
        Err(CapacityExceeded { len, additional, capacity })
    } else {
        Ok(())
    }
}

/// Appends an event to a log whose storage holds at most `capacity`
/// events. As `append` does, asks first for room for as many more events
/// as the log holds; fails exactly when that doubling would exceed
/// `capacity`, and then leaves the log unchanged.
pub fn append_within(events: &mut Vec<Event>, event: Event, capacity: usize) -> (r: Result<
    (),
    CapacityExceeded,
>)
    ensures
        r is Err == (2 * old(events)@.len() > capacity),
        final(events)@ == after_append(old(events)@, event, r is Ok),
{
    let len = events.len();
    let reserved = reserve_within(len, doubling_request(len), capacity);
    complete_append(events, event, reserved)
}

/// A record that can move itself into a trace log.
pub trait Register: Sized {
    /// The event that the record becomes in the log.
    spec fn event(&self) -> Event;

    /// Appends the record to `events`, as `append` does.
    fn register(self, events: &mut Vec<Event>) -> (r: Result<(), TryReserveError>)
        ensures
            final(events)@ == after_append(old(events)@, self.event(), r is Ok),
            old(events)@.len() == 0 ==> r is Ok,
    ;
}

impl Register for MpiIbcast {
    open spec fn event(&self) -> Event {
        Event::Ibcast(*self)
    }

    fn register(self, events: &mut Vec<Event>) -> (r: Result<(), TryReserveError>) {
        append(events, Event::Ibcast(self))
    }
}

} // verus!
