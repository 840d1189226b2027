//! Channels between the thread of a virtual processor and the thread that controls it.

use crate::vstate::{VcpuEvent, VcpuResponse};
use crossbeam_channel::{Receiver, Sender};
use vstd::prelude::*;

verus! {

/// The end of a channel that messages go into.
#[verifier::external_type_specification]
#[verifier::external_body]
#[verifier::reject_recursive_types(T)]
pub struct ExSender<T>(Sender<T>);

/// The end of a channel that messages come out of.
#[verifier::external_type_specification]
#[verifier::external_body]
#[verifier::reject_recursive_types(T)]
pub struct ExReceiver<T>(Receiver<T>);

/// The events that have been put into a channel through this handle of it, in order.
pub uninterp spec fn sent_events(sender: Sender<VcpuEvent>) -> Seq<VcpuEvent>;

/// The responses that have been put into a channel through this handle of it, in order.
pub uninterp spec fn sent_responses(sender: Sender<VcpuResponse>) -> Seq<VcpuResponse>;

/// How many events a channel can hold, if there is a limit.
pub uninterp spec fn event_capacity(sender: Sender<VcpuEvent>) -> Option<usize>;

/// How many responses a channel can hold, if there is a limit.
pub uninterp spec fn response_capacity(sender: Sender<VcpuResponse>) -> Option<usize>;

/// The two are ends of one channel: what goes into the sender comes out of the receiver.
pub uninterp spec fn event_ends(sender: Sender<VcpuEvent>, receiver: Receiver<VcpuEvent>) -> bool;

/// The two are ends of one channel: what goes into the sender comes out of the receiver.
pub uninterp spec fn response_ends(
    sender: Sender<VcpuResponse>,
    receiver: Receiver<VcpuResponse>,
) -> bool;

/// Makes a channel for events that holds any number of them: `crossbeam_channel::unbounded`.
///
/// It hands out the two ends of one channel, and nothing has been sent through it. When something
/// comes out of the other end is up to both threads, so nothing is said of that.
#[verifier::external_body]
pub(crate) fn event_channel() -> (r: (Sender<VcpuEvent>, Receiver<VcpuEvent>))
    ensures
        sent_events(r.0) == Seq::<VcpuEvent>::empty(),
        event_capacity(r.0) is None,
        event_ends(r.0, r.1),
{
    crossbeam_channel::unbounded()
}

/// Makes a channel for responses that holds any number of them: `crossbeam_channel::unbounded`.
///
/// It hands out the two ends of one channel, and nothing has been sent through it. When something
/// comes out of the other end is up to both threads, so nothing is said of that.
#[verifier::external_body]
pub(crate) fn response_channel() -> (r: (Sender<VcpuResponse>, Receiver<VcpuResponse>))
    ensures
        sent_responses(r.0) == Seq::<VcpuResponse>::empty(),
        response_capacity(r.0) is None,
        response_ends(r.0, r.1),
{
    crossbeam_channel::unbounded()
}

/// Puts an event into a channel: `crossbeam_channel::Sender::send`.
///
/// It fails if nobody can receive from the channel any more, and then hands the event back.
/// Whether that is so is up to the other thread, so nothing is said of when it fails. Either way
/// the sender stays an end of the same channel. On a channel of limited capacity it waits for
/// room, perhaps for ever, so such a channel is ruled out.
#[verifier::external_body]
pub(crate) fn send_event(sender: &mut Sender<VcpuEvent>, event: VcpuEvent) -> (r: Result<
    (),
    VcpuEvent,
>)
    requires
        event_capacity(*old(sender)) is None,
    ensures
        match r {
            Ok(()) => sent_events(*final(sender)) == sent_events(*old(sender)).push(event),
            Err(unsent) => unsent == event && *final(sender) == *old(sender),
        },
        event_capacity(*final(sender)) == event_capacity(*old(sender)),
        forall|receiver: Receiver<VcpuEvent>| #[trigger]
            event_ends(*final(sender), receiver) == event_ends(*old(sender), receiver),
{
    sender.send(event).map_err(|e| e.0)
}

/// Puts a response into a channel: `crossbeam_channel::Sender::send`.
///
/// It fails if nobody can receive from the channel any more, and then hands the response back.
/// Whether that is so is up to the other thread, so nothing is said of when it fails. Either way
/// the sender stays an end of the same channel. On a channel of limited capacity it waits for
/// room, perhaps for ever, so such a channel is ruled out.
#[verifier::external_body]
pub(crate) fn send_response(sender: &mut Sender<VcpuResponse>, response: VcpuResponse) -> (r: Result<
    (),
    VcpuResponse,
>)
    requires
        response_capacity(*old(sender)) is None,
    ensures
        match r {
            Ok(()) => sent_responses(*final(sender)) == sent_responses(*old(sender)).push(response),
            Err(unsent) => unsent == response && *final(sender) == *old(sender),
        },
        response_capacity(*final(sender)) == response_capacity(*old(sender)),
        forall|receiver: Receiver<VcpuResponse>| #[trigger]
            response_ends(*final(sender), receiver) == response_ends(*old(sender), receiver),
{
    sender.send(response).map_err(|e| e.0)
}

/// How many events a channel can hold, if there is a limit:
/// `crossbeam_channel::Sender::capacity`.
#[verifier::external_body]
pub(crate) fn capacity_for_events(sender: &Sender<VcpuEvent>) -> (r: Option<usize>)
    ensures
        r == event_capacity(*sender),
{
    sender.capacity()
}

/// How many responses a channel can hold, if there is a limit:
/// `crossbeam_channel::Sender::capacity`.
#[verifier::external_body]
pub(crate) fn capacity_for_responses(sender: &Sender<VcpuResponse>) -> (r: Option<usize>)
    ensures
        r == response_capacity(*sender),
{
    sender.capacity()
}

} // verus!
