use vstd::prelude::*;
use crate::account::AccountId;

verus! {

/// Notification that `value` moved from `from` to `to`.
#[derive(Clone, Copy, Debug, PartialEq, Eq, Structural)]
pub struct Transfer {
    pub from: AccountId,
    pub to: AccountId,
    pub value: u128,
}

/// Notification that `owner` authorized `spender` to move up to `value`
/// on the owner's behalf.
#[derive(Clone, Copy, Debug, PartialEq, Eq, Structural)]
pub struct Approval {
    pub owner: AccountId,
    pub spender: AccountId,
    pub value: u128,
}

/// One notification owed to outside observers.
#[derive(Clone, Copy, Debug, PartialEq, Eq, Structural)]
pub enum Event {
    Transfer(Transfer),
    Approval(Approval),
}

/// The notification sink the host hands to each mutating operation:
/// a one-way channel that records every emitted event, in order.
///
/// The ledger only ever appends to it; delivery is the host's business.
pub struct EventLog {
    events: Vec<Event>,
}

impl View for EventLog {
    type V = Seq<Event>;

    closed spec fn view(&self) -> Seq<Event> {
        self.events@
    }
}

impl EventLog {
    /// An empty sink: nothing has been emitted yet.
    pub fn new() -> (log: EventLog)
        ensures
            log@ == Seq::<Event>::empty(),
    {
        EventLog { events: Vec::new() }
    }

    /// Record one event at the end of the log.
    pub fn emit(&mut self, event: Event)
        ensures
            final(self)@ == old(self)@.push(event),
    {
        self.events.push(event);
    }

    /// How many events have been emitted so far.
    pub fn len(&self) -> (n: usize)
        ensures
            n == self@.len(),
    {
        self.events.len()
    }

    /// The `i`-th emitted event, oldest first.
    pub fn get(&self, i: usize) -> (event: Event)
        requires
            i < self@.len(),
        ensures
            event == self@[i as int],
    {
        self.events[i]
    }
}

} // verus!
