//! The queue between event sockets and those who wait for events.
//!
//! A source of events asks its queue what to do: deliver an event, stop, or
//! receive another buffer. What it received, or the error it got, goes back
//! into the queue.

use vstd::prelude::*;

use crate::linux::genl;
use crate::linux::model;
use crate::linux::model::{NetlinkError, NetworkEvent, NetworkEventView, WifiEvent, WifiEventView};
use crate::linux::netlink;
use crate::linux::netlink::parse_network_events;
use crate::linux::nl80211;
use crate::linux::nl80211::parse_scan_events;

verus! {

/// How long a source waits before it tries a socket again that had nothing.
pub const RETRY_MILLIS: u64 = 100;

/// Events that were received and not delivered yet, last first.
#[derive(Debug, PartialEq, Eq)]
pub struct EventQueue {
    pub pending: Vec<NetworkEvent>,
}

/// What a source does next.
#[derive(Debug, PartialEq, Eq)]
pub enum EventStep {
    /// Hand out an event.
    Deliver(NetworkEvent),
    /// End the stream of events.
    Stop,
    /// Receive another buffer.
    Receive,
}

/// What a source does about an error.
#[derive(Debug, PartialEq, Eq)]
pub enum ErrorStep {
    /// End the stream of events.
    Stop,
    /// Wait, and try again.
    Wait,
    /// Hand out the error.
    Fail(NetlinkError),
}

fn reversed(events: Vec<NetworkEvent>) -> (r: Vec<NetworkEvent>)
    ensures
        r@ == events@.reverse(),
{
    let mut left: Vec<NetworkEvent> = events;
    let mut r: Vec<NetworkEvent> = Vec::new();
    while left.len() > 0
        invariant
            left@.len() <= events@.len(),
            left@ == events@.take(left@.len() as int),
            r@ == events@.skip(left@.len() as int).reverse(),
        decreases left@.len(),
    {
        let ghost n = left@.len() as int;
        match left.pop() {
            None => {},
            Some(event) => {
                r.push(event);
                assert(r@ =~= events@.skip(n - 1).reverse());
            },
        }
    }
    assert(events@.skip(0) =~= events@);
    r
}

/// Scan events as network events.
pub open spec fn wrapped(events: Seq<WifiEventView>) -> Seq<NetworkEventView> {
    events.map_values(|event: WifiEventView| NetworkEventView::Wifi(event))
}

fn wrap_reversed(events: Vec<WifiEvent>) -> (r: Vec<NetworkEvent>)
    ensures
        model::event_views(r@.reverse()) == wrapped(model::wifi_event_views(events@)),
{
    let mut left: Vec<WifiEvent> = events;
    let mut r: Vec<NetworkEvent> = Vec::new();
    while left.len() > 0
        invariant
            left@.len() <= events@.len(),
            left@ == events@.take(left@.len() as int),
            r@.len() == events@.len() - left@.len(),
            forall|j: int|
                0 <= j < r@.len() ==> (#[trigger] r@[j])@ == NetworkEventView::Wifi(
                    events@[events@.len() - 1 - j]@,
                ),
        decreases left@.len(),
    {
        match left.pop() {
            None => {},
            Some(event) => {
                r.push(NetworkEvent::Wifi(event));
            },
        }
    }
    assert(model::event_views(r@.reverse()) =~= wrapped(model::wifi_event_views(events@)));
    r
}

impl EventQueue {
    /// The events that are to be delivered, in order.
    pub open spec fn view(&self) -> Seq<NetworkEventView> {
        model::event_views(self.pending@.reverse())
    }

    /// An empty queue.
    pub fn new() -> (r: Self)
        ensures
            r@ == Seq::<NetworkEventView>::empty(),
    {
        let r = EventQueue { pending: Vec::new() };
        assert(r@ =~= Seq::empty());
        r
    }

    /// Says what to do next. Events that were received are delivered even after
    /// a shutdown was requested.
    pub fn next(&mut self, shutdown: bool) -> (r: EventStep)
        ensures
            match r {
                EventStep::Deliver(event) => {
                    &&& old(self)@.len() > 0
                    &&& event@ == old(self)@[0]
                    &&& final(self)@ == old(self)@.skip(1)
                },
                EventStep::Stop => shutdown && old(self)@.len() == 0 && final(self)@ == old(self)@,
                EventStep::Receive => !shutdown && old(self)@.len() == 0 && final(self)@ == old(
                    self,
                )@,
            },
    {
        let ghost before = self.pending@;
        match self.pending.pop() {
            Some(event) => {
                assert(self@ =~= model::event_views(before.reverse()).skip(1));
                EventStep::Deliver(event)
            },
            None => {
                if shutdown {
                    EventStep::Stop
                } else {
                    EventStep::Receive
                }
            },
        }
    }

    /// Takes a buffer of rtnetlink notifications.
    pub fn on_notifications(&mut self, buf: &[u8]) -> (r: Result<(), NetlinkError>)
        ensures
            match netlink::events_of(buf@) {
                Ok(events) => r is Ok && final(self)@ == events,
                Err(e) => r == Err::<(), NetlinkError>(e) && final(self)@ == old(self)@,
            },
    {
        match parse_network_events(buf) {
            Err(err) => Err(err),
            Ok(events) => {
                self.pending = reversed(events);
                assert(events@.reverse().reverse() =~= events@);
                Ok(())
            },
        }
    }

    /// Takes a buffer of nl80211 scan notifications.
    pub fn on_scan_notifications(&mut self, buf: &[u8]) -> (r: Result<(), NetlinkError>)
        ensures
            match genl::messages_of(buf@) {
                Err(e) => r == Err::<(), NetlinkError>(e) && final(self)@ == old(self)@,
                Ok(messages) => match nl80211::scan_events_of(messages) {
                    Err(e) => r == Err::<(), NetlinkError>(e) && final(self)@ == old(self)@,
                    Ok(events) => r is Ok && final(self)@ == wrapped(events),
                },
            },
    {
        match parse_scan_events(buf) {
            Err(err) => Err(err),
            Ok(events) => {
                self.pending = wrap_reversed(events);
                Ok(())
            },
        }
    }

    /// Says what to do about an error. A socket that had nothing, or was
    /// interrupted, is tried again unless a shutdown was requested.
    pub fn on_error(&self, error: NetlinkError, shutdown: bool) -> (r: ErrorStep)
        ensures
            r == match error {
                NetlinkError::Io(err) if err.retries() => if shutdown {
                    ErrorStep::Stop
                } else {
                    ErrorStep::Wait
                },
                _ => ErrorStep::Fail(error),
            },
    {
        match error {
            NetlinkError::Io(err) => {
                if err.is_retry() {
                    if shutdown {
                        ErrorStep::Stop
                    } else {
                        ErrorStep::Wait
                    }
                } else {
                    ErrorStep::Fail(NetlinkError::Io(err))
                }
            },
            other => ErrorStep::Fail(other),
        }
    }
}

/// What the first `n` deliveries of a queue hand out, and what they leave.
pub open spec fn deliveries(queue: Seq<NetworkEventView>, n: nat) -> (
    Seq<NetworkEventView>,
    Seq<NetworkEventView>,
)
    decreases n,
{
    if n == 0 || queue.len() == 0 {
        (Seq::empty(), queue)
    } else {
        let (more, left) = deliveries(queue.skip(1), (n - 1) as nat);
        (seq![queue[0]] + more, left)
    }
}

/// Events are delivered in the order in which they were received, each once.
pub proof fn lemma_delivered_in_order(queue: Seq<NetworkEventView>, n: nat)
    requires
        n <= queue.len(),
    ensures
        deliveries(queue, n) == (queue.take(n as int), queue.skip(n as int)),
    decreases n,
{
    if n == 0 || queue.len() == 0 {
        assert(queue.take(0) =~= Seq::empty());
        assert(queue.skip(0) =~= queue);
    } else {
        let rest = queue.skip(1);
        lemma_delivered_in_order(rest, (n - 1) as nat);
        assert(seq![queue[0]] + rest.take(n - 1) =~= queue.take(n as int));
        assert(rest.skip(n - 1) =~= queue.skip(n as int));
    }
}

} // verus!
