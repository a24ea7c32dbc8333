use vstd::prelude::*;

verus! {

/// Bit of [`SyncManager::enable`] that switches the sync manager on.
pub const SYNC_MANAGER_ENABLE: u8 = 0x01;

/// Who may access the EEPROM of a slave.
#[derive(Clone, Copy, Debug, PartialEq, Eq, Structural)]
pub enum SiiOwner {
    /// The master reads the EEPROM through the SII registers.
    Master,
    /// The slave's own controller owns the EEPROM.
    Pdi,
}

impl SiiOwner {
    /// The value of the SII configuration register that selects this owner.
    pub open spec fn spec_register_value(self) -> u16 {
        match self {
            SiiOwner::Master => 0x0000,
            SiiOwner::Pdi => 0x0001,
        }
    }

    /// The value of the SII configuration register that selects this owner.
    #[verifier::when_used_as_spec(spec_register_value)]
    pub fn register_value(self) -> (value: u16)
        ensures
            value == self.spec_register_value(),
    {
        match self {
            SiiOwner::Master => 0x0000,
            SiiOwner::Pdi => 0x0001,
        }
    }
}

/// The kinds of category that an EEPROM can hold.
#[derive(Clone, Copy, Debug, PartialEq, Eq, Structural)]
pub enum CategoryType {
    /// The strings that other categories refer to.
    Strings,
    /// General information on the device.
    General,
    /// What each FMMU is meant for.
    Fmmu,
    /// The sync managers.
    SyncManager,
    /// The sync manager that each FMMU serves.
    FmmuExtended,
    /// The PDOs that the slave sends: inputs to the master.
    TxPdo,
    /// The PDOs that the slave receives: outputs of the master.
    RxPdo,
}

impl CategoryType {
    /// The number of the category type in the header of a category.
    pub open spec fn spec_code(self) -> u16 {
        match self {
            CategoryType::Strings => 10,
            CategoryType::General => 30,
            CategoryType::Fmmu => 40,
            CategoryType::SyncManager => 41,
            CategoryType::FmmuExtended => 42,
            CategoryType::TxPdo => 50,
            CategoryType::RxPdo => 51,
        }
    }

    /// The number of the category type in the header of a category.
    #[verifier::when_used_as_spec(spec_code)]
    pub fn code(self) -> (code: u16)
        ensures
            code == self.spec_code(),
    {
        match self {
            CategoryType::Strings => 10,
            CategoryType::General => 30,
            CategoryType::Fmmu => 40,
            CategoryType::SyncManager => 41,
            CategoryType::FmmuExtended => 42,
            CategoryType::TxPdo => 50,
            CategoryType::RxPdo => 51,
        }
    }
}

/// Where a category of the EEPROM lies.
#[derive(Clone, Copy, Debug, PartialEq, Eq, Structural)]
pub struct SiiCategory {
    /// Word address of the first data word of the category.
    pub start: u16,
    /// Length of the category data in 16 bit words.
    pub len_words: u16,
}

/// What a sync manager is used for.
#[derive(Clone, Copy, Debug, PartialEq, Eq, Structural)]
pub enum SyncManagerType {
    /// Not used, or of a kind this crate does not know.
    Unknown,
    /// Mailbox, master to slave.
    MailboxWrite,
    /// Mailbox, slave to master.
    MailboxRead,
    /// Process data written by the master (outputs).
    ProcessDataWrite,
    /// Process data read by the master (inputs).
    ProcessDataRead,
}

/// A sync manager as the EEPROM describes it.
#[derive(Clone, Copy, Debug, PartialEq, Eq, Structural)]
pub struct SyncManager {
    /// Physical start address of the memory window.
    pub start_addr: u16,
    /// Default length of the window in bytes.
    pub length: u16,
    /// The control byte, as it is written to the control register.
    pub control: u8,
    /// Enable flags; see [`SYNC_MANAGER_ENABLE`].
    pub enable: u8,
    /// What the window is used for.
    pub usage_type: SyncManagerType,
}

impl SyncManager {
    /// Whether the EEPROM asks for this sync manager to be switched on.
    pub open spec fn spec_is_enabled(&self) -> bool {
        self.enable % 2 == 1
    }

    /// Whether the EEPROM asks for this sync manager to be switched on.
    #[verifier::when_used_as_spec(spec_is_enabled)]
    pub fn is_enabled(&self) -> (on: bool)
        ensures
            on == self.spec_is_enabled(),
    {
        self.enable % 2 == 1
    }
}

/// What an FMMU of the slave is meant for.
#[derive(Clone, Copy, Debug, PartialEq, Eq, Structural)]
pub enum FmmuUsage {
    /// Not used.
    Unused,
    /// Maps outputs, written by the master.
    Outputs,
    /// Maps inputs, read by the master.
    Inputs,
    /// Maps the status of a sync manager.
    SyncManagerStatus,
}

/// An entry of the extended FMMU section: the sync manager an FMMU serves.
#[derive(Clone, Copy, Debug, PartialEq, Eq, Structural)]
pub struct FmmuEx {
    /// Index of the sync manager.
    pub sync_manager: u8,
}

/// A process data object, reduced to what the mapping needs.
#[derive(Clone, Copy, Debug, PartialEq, Eq, Structural)]
pub struct Pdo {
    /// Object index of the PDO.
    pub index: u16,
    /// Index of the sync manager the PDO is assigned to.
    pub sync_manager: u8,
    /// Length of all entries of the PDO together, in bits.
    pub bit_len: u16,
}

/// The mailbox section of the EEPROM.
#[derive(Clone, Copy, Debug, PartialEq, Eq, Structural)]
pub struct MailboxConfig {
    /// Physical address of the window the slave receives in.
    pub slave_receive_offset: u16,
    /// Size in bytes of the window the slave receives in.
    pub slave_receive_size: u16,
    /// Physical address of the window the slave sends from.
    pub slave_send_offset: u16,
    /// Size in bytes of the window the slave sends from.
    pub slave_send_size: u16,
}

impl MailboxConfig {
    /// A slave has a mailbox when both of its windows have a size.
    pub open spec fn spec_has_mailbox(&self) -> bool {
        self.slave_receive_size > 0 && self.slave_send_size > 0
    }

    /// A slave has a mailbox when both of its windows have a size.
    #[verifier::when_used_as_spec(spec_has_mailbox)]
    pub fn has_mailbox(&self) -> (has: bool)
        ensures
            has == self.spec_has_mailbox(),
    {
        self.slave_receive_size > 0 && self.slave_send_size > 0
    }
}

} // verus!
