//! The outgoing event channel: a `frappe` sink that broadcasts each event to
//! the observers of its streams.
//!
//! A sink keeps its observers behind a shared pointer, so nothing that Verus
//! can see of a sink changes when an event passes through it. The functions
//! here are the trusted edge to the channel: what is said of them is believed,
//! not proved.

use vstd::prelude::*;
use crate::widgets::WidgetEvent;

verus! {

/// `frappe::Sink`, the sending side of a channel. Verus sees nothing inside.
#[verifier::external_type_specification]
#[verifier::external_body]
#[verifier::reject_recursive_types(T)]
pub struct ExSink<T>(frappe::Sink<T>);

/// `frappe::Stream`, the side of a channel that observers subscribe to.
/// Verus sees nothing inside.
#[verifier::external_type_specification]
#[verifier::external_body]
#[verifier::reject_recursive_types(T)]
pub struct ExStream<T>(frappe::Stream<T>);

/// `frappe::Sink::new`: a sink that no stream is connected to yet.
/// Nothing is claimed of it.
#[verifier::external_body]
pub(crate) fn new_sink() -> frappe::Sink<WidgetEvent> {
    frappe::Sink::new()
}

/// `frappe::Sink::send`: hands `event` to every observer registered on the
/// sink's streams, in the order of registration, on the calling thread, and
/// returns when the last of them has returned.
///
/// Nothing is claimed of the call. The observers are the callers' code: one
/// that panics unwinds through this call, and one that subscribes to the same
/// sink from inside its handler blocks on the sink's lock.
#[verifier::external_body]
pub(crate) fn send_event(sink: &frappe::Sink<WidgetEvent>, event: WidgetEvent) {
    sink.send(event)
}

/// The stream that `frappe::Sink::stream` hands out for `sink`: the one that
/// shares the sink's list of observers.
pub uninterp spec fn sink_stream(sink: frappe::Sink<WidgetEvent>) -> frappe::Stream<WidgetEvent>;

/// `frappe::Sink::stream`: a stream that receives what is sent to the sink
/// from now on.
///
/// The claim is that the stream depends on the sink alone: the call builds it
/// from the sink's own list of observers and from nothing else, so a stream
/// taken from another sink is another stream.
#[verifier::external_body]
pub(crate) fn stream_of(sink: &frappe::Sink<WidgetEvent>) -> (stream: frappe::Stream<WidgetEvent>)
    ensures
        stream == sink_stream(*sink),
{
    sink.stream()
}

} // verus!
