//! Common error types.

use vstd::prelude::*;

verus! {

/// Raw error code accessor.
pub trait ErrorCode {
    /// The raw error code that the value holds.
    spec fn raw(&self) -> i16;

    /// Get the raw error code.
    fn as_i16(&self) -> (r: i16)
        ensures
            r == self.raw(),
    ;
}

/// A condition on which the runtime cannot go on.  The embedding program
/// reports it and exits.
#[derive(Clone, Copy, Debug, PartialEq, Eq, Structural)]
pub enum Fault {
    /// A consumer named an offset that is not at the head of the receive
    /// buffer.
    ConsumedOffsetNotAtHead,
    /// The head span ends before the packet that is being consumed.
    HeadSpanTooShort,
    /// The size field of a received packet is smaller than its header or
    /// larger than the receive buffer allows.
    PacketSizeOutOfBounds,
    /// The host reported more received bytes than the receive vectors hold.
    ReceivedTooMuch,
    /// The host reported more sent bytes than the send vectors hold.
    SentTooMuch,
    /// A packet names a service that was never registered.
    UnknownService,
    /// A reply arrived for which no call is in flight.
    UnexpectedReply,
    /// A flow or data packet names a stream that is not in the table.
    UnknownStream,
    /// A data packet carries more bytes than were subscribed.
    DataExceedsSubscription,
    /// The peer closed a half of a stream that it had closed already.
    StreamAlreadyClosed,
    /// The peer granted more credit than a window can hold.
    CreditOutOfBounds,
    /// A receptor accepted more capacity than can be counted.
    CapacityOutOfBounds,
    /// The table of send descriptors cannot grow any more.
    OutOfDescriptors,
    /// An operation's descriptor is not in the table any more.
    DescriptorLost,
}

} // verus!
