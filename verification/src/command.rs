use crate::error::Error;
use vstd::prelude::*;

verus! {

/// The services that a PDU can ask of the slaves.
#[derive(Clone, Copy, Debug, PartialEq, Eq, Structural)]
#[allow(inconsistent_fields)]
pub enum Command {
    /// Broadcast read: every slave puts its register into the data. The
    /// working counter counts the slaves that did.
    Brd { address: u16, register: u16 },
    /// Broadcast write: every slave takes the data into its register.
    Bwr { address: u16, register: u16 },
    /// Read from the slave with the configured station address `address`.
    Fprd { address: u16, register: u16 },
    /// Write to the slave with the configured station address `address`.
    Fpwr { address: u16, register: u16 },
    /// Logical read and write: the exchange of a process data image that
    /// starts at the logical address `address`.
    Lrw { address: u32 },
}

/// The bytes of a 16 bit number, least significant byte first.
pub open spec fn le16(value: u16) -> Seq<u8> {
    seq![(value % 0x100) as u8, (value / 0x100) as u8]
}

/// The 16 bit number that `bytes` holds at `at`, least significant byte
/// first.
pub open spec fn le16_at(bytes: Seq<u8>, at: int) -> u16 {
    (bytes[at] + 0x100 * bytes[at + 1]) as u16
}

/// The bytes of a 32 bit number, least significant byte first.
pub open spec fn le32(value: u32) -> Seq<u8> {
    seq![
        (value % 0x100) as u8,
        ((value / 0x100) % 0x100) as u8,
        ((value / 0x1_0000) % 0x100) as u8,
        (value / 0x100_0000) as u8,
    ]
}

/// The 32 bit number that `bytes` holds at `at`, least significant byte
/// first.
pub open spec fn le32_at(bytes: Seq<u8>, at: int) -> u32 {
    (bytes[at] + 0x100 * bytes[at + 1] + 0x1_0000 * bytes[at + 2] + 0x100_0000 * bytes[at + 3]) as u32
}

/// Appends a 16 bit number to `out`, least significant byte first.
pub(crate) fn push_le16(out: &mut Vec<u8>, value: u16)
    ensures
        final(out)@ == old(out)@ + le16(value),
{
    out.push((value % 0x100) as u8);
    out.push((value / 0x100) as u8);
}

/// Appends a 32 bit number to `out`, least significant byte first.
pub(crate) fn push_le32(out: &mut Vec<u8>, value: u32)
    ensures
        final(out)@ == old(out)@ + le32(value),
{
    out.push((value % 0x100) as u8);
    out.push(((value / 0x100) % 0x100) as u8);
    out.push(((value / 0x1_0000) % 0x100) as u8);
    out.push((value / 0x100_0000) as u8);
}

/// Reads the 16 bit number at `at` of `bytes`.
pub(crate) fn read_le16(bytes: &[u8], at: usize) -> (value: u16)
    requires
        at + 2 <= bytes@.len(),
    ensures
        value == le16_at(bytes@, at as int),
{
    bytes[at] as u16 + 0x100 * (bytes[at + 1] as u16)
}

/// Reads the 32 bit number at `at` of `bytes`.
pub(crate) fn read_le32(bytes: &[u8], at: usize) -> (value: u32)
    requires
        at + 4 <= bytes@.len(),
    ensures
        value == le32_at(bytes@, at as int),
{
    bytes[at] as u32 + 0x100 * (bytes[at + 1] as u32) + 0x1_0000 * (bytes[at + 2] as u32)
        + 0x100_0000 * (bytes[at + 3] as u32)
}

impl Command {
    /// The command byte of the service.
    pub open spec fn spec_code(self) -> u8 {
        match self {
            Command::Fprd { .. } => 0x04,
            Command::Fpwr { .. } => 0x05,
            Command::Brd { .. } => 0x07,
            Command::Bwr { .. } => 0x08,
            Command::Lrw { .. } => 0x0c,
        }
    }

    /// The command byte of the service.
    #[verifier::when_used_as_spec(spec_code)]
    pub fn code(self) -> (code: u8)
        ensures
            code == self.spec_code(),
    {
        match self {
            Command::Fprd { .. } => 0x04,
            Command::Fpwr { .. } => 0x05,
            Command::Brd { .. } => 0x07,
            Command::Bwr { .. } => 0x08,
            Command::Lrw { .. } => 0x0c,
        }
    }

    /// The four address bytes of the service: the station address and the
    /// register, two bytes each, or the four bytes of the logical address.
    pub open spec fn address_bytes(self) -> Seq<u8> {
        match self {
            Command::Fprd { address, register } => le16(address) + le16(register),
            Command::Fpwr { address, register } => le16(address) + le16(register),
            Command::Brd { address, register } => le16(address) + le16(register),
            Command::Bwr { address, register } => le16(address) + le16(register),
            Command::Lrw { address } => le32(address),
        }
    }

    /// The service with the command byte `code` whose address bytes `bytes`
    /// holds at `at`, if the command byte is one of a service.
    pub open spec fn spec_parse(code: u8, bytes: Seq<u8>, at: int) -> Option<Command> {
        let address = le16_at(bytes, at);
        let register = le16_at(bytes, at + 2);
        if code == 0x04 {
            Some(Command::Fprd { address, register })
        } else if code == 0x05 {
            Some(Command::Fpwr { address, register })
        } else if code == 0x07 {
            Some(Command::Brd { address, register })
        } else if code == 0x08 {
            Some(Command::Bwr { address, register })
        } else if code == 0x0c {
            Some(Command::Lrw { address: le32_at(bytes, at) })
        } else {
            None
        }
    }

    /// Appends the four address bytes of the service to `out`.
    pub(crate) fn push_address(self, out: &mut Vec<u8>)
        ensures
            final(out)@ == old(out)@ + self.address_bytes(),
    {
        match self {
            Command::Fprd { address, register }
            | Command::Fpwr { address, register }
            | Command::Brd { address, register }
            | Command::Bwr { address, register } => {
                push_le16(out, address);
                push_le16(out, register);
            },
            Command::Lrw { address } => {
                push_le32(out, address);
            },
        }
    }

    /// Reads the service with the command byte `code` whose four address
    /// bytes start at `at` of `bytes`.
    pub(crate) fn parse(code: u8, bytes: &[u8], at: usize) -> (command: Option<Command>)
        requires
            at + 4 <= bytes@.len(),
        ensures
            command == Self::spec_parse(code, bytes@, at as int),
    {
        if code == 0x0c {
            return Some(Command::Lrw { address: read_le32(bytes, at) });
        }
        assert(bytes@.len() == bytes.len());
        let address = read_le16(bytes, at);
        let register = read_le16(bytes, at + 2);
        if code == 0x04 {
            Some(Command::Fprd { address, register })
        } else if code == 0x05 {
            Some(Command::Fpwr { address, register })
        } else if code == 0x07 {
            Some(Command::Brd { address, register })
        } else if code == 0x08 {
            Some(Command::Bwr { address, register })
        } else {
            None
        }
    }
}

/// Reading back the address bytes of a service gives the service.
pub proof fn lemma_command_round_trip(command: Command, bytes: Seq<u8>, at: int)
    requires
        0 <= at,
        at + 4 <= bytes.len(),
        bytes.subrange(at, at + 4) == command.address_bytes(),
    ensures
        Command::spec_parse(command.spec_code(), bytes, at) == Some(command),
{
    let address = command.address_bytes();
    let window = bytes.subrange(at, at + 4);
    assert(bytes[at] == window[0] == address[0]);
    assert(bytes[at + 1] == window[1] == address[1]);
    assert(bytes[at + 2] == window[2] == address[2]);
    assert(bytes[at + 3] == window[3] == address[3]);
}

/// The answer to a PDU: the data that came back and the number of slaves
/// that processed the PDU.
pub struct PduResponse {
    /// The data that came back.
    pub data: Vec<u8>,
    /// The working counter that came back.
    pub working_counter: u16,
}

impl PduResponse {
    /// The data of the answer, where as many slaves processed the PDU as
    /// `expected`; else the mismatch.
    pub fn wkc(self, expected: u16) -> (r: Result<Vec<u8>, Error>)
        ensures
            r == if self.working_counter == expected {
                Ok::<Vec<u8>, Error>(self.data)
            } else {
                Err::<Vec<u8>, Error>(
                    Error::WorkingCounter { expected, received: self.working_counter },
                )
            },
    {
        if self.working_counter == expected {
            Ok(self.data)
        } else {
            Err(Error::WorkingCounter { expected, received: self.working_counter })
        }
    }
}

} // verus!
