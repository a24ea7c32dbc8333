use vstd::prelude::*;

verus! {

/// The kind of thing a fixed-capacity container ran out of room for.
#[derive(Clone, Copy, Debug, PartialEq, Eq, Structural)]
pub enum Item {
    /// A slave in a group.
    Slave,
    /// A byte of the process data image.
    Pdi,
}

/// Everything that can go wrong in this crate.
#[derive(Clone, Copy, Debug, PartialEq, Eq, Structural)]
pub enum Error {
    /// No reply arrived within the allowed time.
    Timeout,
    /// A PDU came back with a working counter other than the expected one.
    WorkingCounter { expected: u16, received: u16 },
    /// The slot for the next PDU index still holds an exchange in flight.
    IndexInUse,
    /// The payload is longer than a slot can hold.
    PduTooLong,
    /// A received frame is not a well formed EtherCAT frame.
    InvalidFrame,
    /// A fixed-capacity container is full.
    Capacity(Item),
    /// More bytes were produced for an EEPROM section than its buffer holds.
    EepromSectionOverrun,
    /// An EEPROM section ended before the requested bytes were read.
    EepromSectionUnderrun,
    /// The slave did not reach the requested state in time.
    StateTransitionTimeout,
    /// The device layout cannot be mapped.
    Other,
}

} // verus!
