use vstd::prelude::*;

verus! {

/// The registers of a slave that this crate reads or writes.
#[derive(Clone, Copy, Debug, PartialEq, Eq, Structural)]
pub enum RegisterAddress {
    /// Application layer control: the state the master asks for.
    AlControl,
    /// Application layer status: the state the slave is in.
    AlStatus,
    /// Application layer status code.
    AlStatusCode,
    /// EEPROM (SII) configuration: who owns the EEPROM.
    SiiConfig,
    /// EEPROM (SII) control and status.
    SiiControl,
    /// EEPROM (SII) word address.
    SiiAddress,
    /// EEPROM (SII) data.
    SiiData,
    /// Configuration block of the FMMU with the given index.
    Fmmu(u8),
    /// Configuration block of the sync manager with the given index.
    SyncManager(u8),
}

impl RegisterAddress {
    /// The address of the register in the slave's memory.
    pub open spec fn spec_address(self) -> int {
        match self {
            RegisterAddress::AlControl => 0x0120,
            RegisterAddress::AlStatus => 0x0130,
            RegisterAddress::AlStatusCode => 0x0134,
            RegisterAddress::SiiConfig => 0x0500,
            RegisterAddress::SiiControl => 0x0502,
            RegisterAddress::SiiAddress => 0x0504,
            RegisterAddress::SiiData => 0x0508,
            RegisterAddress::Fmmu(index) => 0x0600 + 16 * index,
            RegisterAddress::SyncManager(index) => 0x0800 + 8 * index,
        }
    }

    /// The address of the register in the slave's memory.
    pub fn address(self) -> (address: u16)
        ensures
            address == self.spec_address(),
    {
        match self {
            RegisterAddress::AlControl => 0x0120,
            RegisterAddress::AlStatus => 0x0130,
            RegisterAddress::AlStatusCode => 0x0134,
            RegisterAddress::SiiConfig => 0x0500,
            RegisterAddress::SiiControl => 0x0502,
            RegisterAddress::SiiAddress => 0x0504,
            RegisterAddress::SiiData => 0x0508,
            RegisterAddress::Fmmu(index) => 0x0600 + 16 * (index as u16),
            RegisterAddress::SyncManager(index) => 0x0800 + 8 * (index as u16),
        }
    }
}

/// What is written to the registers of one sync manager.
#[derive(Clone, Copy, Debug, PartialEq, Eq, Structural)]
pub struct SyncManagerChannel {
    /// Physical start address of the memory window.
    pub physical_start_address: u16,
    /// Length of the window in bytes.
    pub length_bytes: u16,
    /// The control byte.
    pub control: u8,
    /// The status byte; the master writes zero.
    pub status: u8,
    /// Whether the sync manager is switched on.
    pub enable: bool,
}

/// What is written to the registers of one FMMU.
#[derive(Clone, Copy, Debug, PartialEq, Eq, Structural)]
pub struct Fmmu {
    /// Logical start address in the process data image.
    pub logical_start_address: u32,
    /// Length of the mapping in bytes.
    pub length_bytes: u16,
    /// First mapped bit in the first logical byte.
    pub logical_start_bit: u8,
    /// Last mapped bit in the last logical byte.
    pub logical_end_bit: u8,
    /// Physical start address in the slave's memory.
    pub physical_start_address: u16,
    /// First mapped bit in the first physical byte.
    pub physical_start_bit: u8,
    /// The mapping serves reads by the master.
    pub read_enable: bool,
    /// The mapping serves writes by the master.
    pub write_enable: bool,
    /// The mapping is switched on.
    pub enable: bool,
}

} // verus!
