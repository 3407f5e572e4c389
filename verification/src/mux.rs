//! Many streams over one connection: limits, and what the end that opens streams does.
use vstd::prelude::*;

verus! {

/// How many streams a connection may carry.
pub const MAX_NUM_STREAMS: usize = 4096;

/// How many bytes a stream may always send ahead.
pub const STREAM_WINDOW: usize = 262_144;

/// How many bytes all streams together may send ahead.
pub const CONNECTION_WINDOW: usize = 1_073_741_824;

/// How long the end of a connection may take, in seconds.
pub const CLOSE_TIMEOUT_SECS: u64 = 1;

/// What happens to the end of a connection that opens streams.
#[derive(Debug, Clone, Copy, PartialEq, Eq, Structural)]
pub enum MuxEvent {
    /// It is asked to end.
    Stop,
    /// A stream is asked for.
    Open,
    /// Nobody is left who could ask for one.
    OpenersGone,
    /// The other end opens a stream.
    Inbound,
    /// The connection failed.
    Failed,
    /// The other end has ended it.
    Closed,
}

/// What the end of a connection that opens streams does.
#[derive(Debug, Clone, Copy, PartialEq, Eq, Structural)]
pub enum MuxStep {
    /// Close the connection in good order, within a time, and end.
    CloseAndEnd,
    /// Open a stream and hand it over, or tell why not.
    OpenStream,
    /// Drop what came and go on.
    Ignore,
    End,
}

/// What follows from an event: only the end that opens streams opens any, and a
/// connection that still stands is closed in good order.
pub open spec fn mux_step_of(event: MuxEvent) -> MuxStep {
    match event {
        MuxEvent::Stop | MuxEvent::OpenersGone => MuxStep::CloseAndEnd,
        MuxEvent::Open => MuxStep::OpenStream,
        MuxEvent::Inbound => MuxStep::Ignore,
        MuxEvent::Failed | MuxEvent::Closed => MuxStep::End,
    }
}

pub fn mux_step(event: MuxEvent) -> (r: MuxStep)
    ensures
        r == mux_step_of(event),
{
    match event {
        MuxEvent::Stop | MuxEvent::OpenersGone => MuxStep::CloseAndEnd,
        MuxEvent::Open => MuxStep::OpenStream,
        MuxEvent::Inbound => MuxStep::Ignore,
        MuxEvent::Failed | MuxEvent::Closed => MuxStep::End,
    }
}

/// Every stream that a connection may carry has its window.
pub proof fn every_stream_has_its_window()
    ensures
        CONNECTION_WINDOW == STREAM_WINDOW * MAX_NUM_STREAMS,
{
}

/// A connection is closed in good order exactly where it is told to stop or nobody is left
/// to open a stream; a stream is opened only where one was asked for; and a connection
/// that failed or was closed ends without more.
pub proof fn mux_steps_fit_the_event(event: MuxEvent)
    ensures
        mux_step_of(event) is CloseAndEnd <==> event is Stop || event is OpenersGone,
        mux_step_of(event) is OpenStream <==> event is Open,
        mux_step_of(event) is Ignore <==> event is Inbound,
        mux_step_of(event) is End <==> event is Failed || event is Closed,
{
}

} // verus!
