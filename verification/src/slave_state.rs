use crate::command::{le16_at, read_le16};
use vstd::prelude::*;

verus! {

/// The application layer state of a slave.
#[derive(Clone, Copy, Debug, PartialEq, Eq, Structural)]
pub enum SlaveState {
    /// Initialisation: no mailbox, no process data.
    Init,
    /// Pre-operational: mailbox only.
    PreOp,
    /// Bootstrap, for firmware updates.
    Bootstrap,
    /// Safe-operational: inputs are valid, outputs are held safe.
    SafeOp,
    /// Operational.
    Op,
    /// A value this crate does not know.
    Unknown,
}

impl SlaveState {
    /// The four bit code of the state in the AL control and AL status
    /// registers. A state that is not known has the code 0.
    pub open spec fn spec_code(self) -> u8 {
        match self {
            SlaveState::Init => 0x01,
            SlaveState::PreOp => 0x02,
            SlaveState::Bootstrap => 0x03,
            SlaveState::SafeOp => 0x04,
            SlaveState::Op => 0x08,
            SlaveState::Unknown => 0x00,
        }
    }

    /// The four bit code of the state in the AL control and AL status
    /// registers.
    #[verifier::when_used_as_spec(spec_code)]
    pub fn code(self) -> (code: u8)
        ensures
            code == self.spec_code(),
            Self::spec_from_code(code) == self,
    {
        match self {
            SlaveState::Init => 0x01,
            SlaveState::PreOp => 0x02,
            SlaveState::Bootstrap => 0x03,
            SlaveState::SafeOp => 0x04,
            SlaveState::Op => 0x08,
            SlaveState::Unknown => 0x00,
        }
    }

    /// The state that a four bit code of the AL status register stands for.
    pub open spec fn spec_from_code(code: u8) -> SlaveState {
        if code == 0x01 {
            SlaveState::Init
        } else if code == 0x02 {
            SlaveState::PreOp
        } else if code == 0x03 {
            SlaveState::Bootstrap
        } else if code == 0x04 {
            SlaveState::SafeOp
        } else if code == 0x08 {
            SlaveState::Op
        } else {
            SlaveState::Unknown
        }
    }

    /// The state that a four bit code of the AL status register stands for.
    #[verifier::when_used_as_spec(spec_from_code)]
    pub fn from_code(code: u8) -> (state: SlaveState)
        ensures
            state == Self::spec_from_code(code),
    {
        if code == 0x01 {
            SlaveState::Init
        } else if code == 0x02 {
            SlaveState::PreOp
        } else if code == 0x03 {
            SlaveState::Bootstrap
        } else if code == 0x04 {
            SlaveState::SafeOp
        } else if code == 0x08 {
            SlaveState::Op
        } else {
            SlaveState::Unknown
        }
    }

    /// The state that follows this one on the way to `Op`, if there is one.
    pub open spec fn spec_next(self) -> Option<SlaveState> {
        match self {
            SlaveState::Init => Some(SlaveState::PreOp),
            SlaveState::PreOp => Some(SlaveState::SafeOp),
            SlaveState::SafeOp => Some(SlaveState::Op),
            _ => None,
        }
    }

    /// The state that follows this one on the way to `Op`, if there is one.
    #[verifier::when_used_as_spec(spec_next)]
    pub fn next(self) -> (next: Option<SlaveState>)
        ensures
            next == self.spec_next(),
    {
        match self {
            SlaveState::Init => Some(SlaveState::PreOp),
            SlaveState::PreOp => Some(SlaveState::SafeOp),
            SlaveState::SafeOp => Some(SlaveState::Op),
            _ => None,
        }
    }
}

/// The contents of the AL control register, and of the AL status register.
#[derive(Clone, Copy, Debug, PartialEq, Eq, Structural)]
pub struct AlControl {
    /// The state asked for, or reported.
    pub state: SlaveState,
    /// In the control register: acknowledge an error. In the status register:
    /// an error is pending.
    pub error: bool,
}

impl AlControl {
    /// What the bytes of the AL status register say: the state in the low
    /// four bits of the first byte, the error flag in the bit above them.
    pub open spec fn spec_parse(bytes: Seq<u8>) -> Option<AlControl> {
        if bytes.len() < 2 {
            None
        } else {
            Some(
                AlControl {
                    state: SlaveState::spec_from_code(bytes[0] % 16),
                    error: (bytes[0] / 16) % 2 == 1,
                },
            )
        }
    }

    /// Reads the two bytes of the AL status register. Returns `None` where
    /// `bytes` holds fewer.
    pub fn parse(bytes: &[u8]) -> (control: Option<AlControl>)
        ensures
            control == Self::spec_parse(bytes@),
    {
        if bytes.len() < 2 {
            None
        } else {
            Some(
                AlControl {
                    state: SlaveState::from_code(bytes[0] % 16),
                    error: (bytes[0] / 16) % 2 == 1,
                },
            )
        }
    }

    /// A request for `state` that acknowledges nothing.
    pub fn new(state: SlaveState) -> (control: AlControl)
        ensures
            control == (AlControl { state, error: false }),
    {
        AlControl { state, error: false }
    }
}

/// The AL status code that a slave reports with an error.
#[derive(Clone, Copy, Debug, PartialEq, Eq, Structural)]
pub struct AlStatusCode(pub u16);

impl AlStatusCode {
    /// What the bytes of the AL status code register say: a 16 bit number,
    /// least significant byte first.
    pub open spec fn spec_parse(bytes: Seq<u8>) -> Option<AlStatusCode> {
        if bytes.len() < 2 {
            None
        } else {
            Some(AlStatusCode(le16_at(bytes, 0)))
        }
    }

    /// Reads the two bytes of the AL status code register. Returns `None`
    /// where `bytes` holds fewer.
    pub fn parse(bytes: &[u8]) -> (code: Option<AlStatusCode>)
        ensures
            code == Self::spec_parse(bytes@),
    {
        if bytes.len() < 2 {
            None
        } else {
            Some(AlStatusCode(read_le16(bytes, 0)))
        }
    }
}

} // verus!
