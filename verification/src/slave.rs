use crate::command::Command;
use crate::eeprom::types::{
    FmmuEx, FmmuUsage, MailboxConfig, Pdo, SiiOwner, SyncManager, SyncManagerType,
};
use crate::eeprom::Eeprom;
use crate::error::Error;
use crate::pdi::{bytes_for_bits, PdiOffset, PdiSegment};
use crate::register::{Fmmu, RegisterAddress, SyncManagerChannel};
use crate::slave_state::{AlControl, AlStatusCode, SlaveState};
use crate::state_wait::{StateWait, WaitPhase};
use vstd::prelude::*;
use vstd::string::StringSliceAdditionalSpecFns;

verus! {

/// Who made a slave, and which device it is.
#[derive(Clone, Copy, Debug, PartialEq, Eq, Structural)]
pub struct SlaveIdentity {
    pub vendor_id: u32,
    pub product_id: u32,
    pub revision: u32,
    pub serial: u32,
}

/// The number that the first four of `bytes` hold, least significant byte
/// first.
pub open spec fn le_u32_value(bytes: Seq<u8>) -> u32 {
    (bytes[0] + 0x100 * bytes[1] + 0x1_0000 * bytes[2] + 0x100_0000 * bytes[3]) as u32
}

/// The identity that the first sixteen of `bytes` hold: vendor, product,
/// revision and serial number, four bytes each.
pub open spec fn identity_of(bytes: Seq<u8>) -> SlaveIdentity {
    SlaveIdentity {
        vendor_id: le_u32_value(bytes),
        product_id: le_u32_value(bytes.skip(4)),
        revision: le_u32_value(bytes.skip(8)),
        serial: le_u32_value(bytes.skip(12)),
    }
}

/// `nom::number::complete::le_u32` on a slice of bytes. With fewer than four
/// bytes it fails. Otherwise it returns the number that the first four bytes
/// hold, least significant byte first, and the bytes after them.
#[verifier::external_body]
fn le_u32<'a>(input: &'a [u8]) -> (parsed: Option<(&'a [u8], u32)>)
    ensures
        parsed is Some <==> input@.len() >= 4,
        parsed matches Some((rest, value)) ==> rest@ == input@.skip(4) && value == le_u32_value(
            input@,
        ),
{
    nom::number::complete::le_u32::<&[u8], nom::error::Error<&[u8]>>(input).ok()
}

/// The character for a digit below 16, with small letters from ten on.
pub open spec fn spec_digit(digit: int) -> char {
    if digit == 0 {
        '0'
    } else if digit == 1 {
        '1'
    } else if digit == 2 {
        '2'
    } else if digit == 3 {
        '3'
    } else if digit == 4 {
        '4'
    } else if digit == 5 {
        '5'
    } else if digit == 6 {
        '6'
    } else if digit == 7 {
        '7'
    } else if digit == 8 {
        '8'
    } else if digit == 9 {
        '9'
    } else if digit == 10 {
        'a'
    } else if digit == 11 {
        'b'
    } else if digit == 12 {
        'c'
    } else if digit == 13 {
        'd'
    } else if digit == 14 {
        'e'
    } else {
        'f'
    }
}

/// A 32 bit number in hexadecimal: `0x` and eight digits.
pub open spec fn hex_text(value: u32) -> Seq<char> {
    seq![
        '0',
        'x',
        spec_digit((value / 0x1000_0000) as int),
        spec_digit((value / 0x100_0000 % 16) as int),
        spec_digit((value / 0x10_0000 % 16) as int),
        spec_digit((value / 0x1_0000 % 16) as int),
        spec_digit((value / 0x1000 % 16) as int),
        spec_digit((value / 0x100 % 16) as int),
        spec_digit((value / 0x10 % 16) as int),
        spec_digit((value % 16) as int),
    ]
}

/// A number in decimal, without leading zeros.
pub open spec fn decimal_text(value: nat) -> Seq<char>
    decreases value,
{
    if value < 10 {
        seq![spec_digit(value as int)]
    } else {
        decimal_text(value / 10).push(spec_digit(value as int % 10))
    }
}

/// The text of an identity: its four numbers by name, vendor and product in
/// hexadecimal, revision and serial number in decimal.
pub open spec fn identity_text(identity: SlaveIdentity) -> Seq<char> {
    "SlaveIdentity { vendor_id: "@ + hex_text(identity.vendor_id) + ", product_id: "@ + hex_text(
        identity.product_id,
    ) + ", revision: "@ + decimal_text(identity.revision as nat) + ", serial: "@ + decimal_text(
        identity.serial as nat,
    ) + " }"@
}

/// `String::push`: appends one character to the text.
#[verifier::external_body]
fn push_char(text: &mut String, c: char)
    ensures
        final(text)@ == old(text)@.push(c),
{
    text.push(c)
}

/// `String::push_str`: appends a string slice to the text.
#[verifier::external_body]
fn push_text(text: &mut String, more: &str)
    ensures
        final(text)@ == old(text)@ + more@,
{
    text.push_str(more)
}

/// The character for a digit below 16.
fn digit(value: u32) -> (c: char)
    requires
        value < 16,
    ensures
        c == spec_digit(value as int),
{
    if value == 0 {
        '0'
    } else if value == 1 {
        '1'
    } else if value == 2 {
        '2'
    } else if value == 3 {
        '3'
    } else if value == 4 {
        '4'
    } else if value == 5 {
        '5'
    } else if value == 6 {
        '6'
    } else if value == 7 {
        '7'
    } else if value == 8 {
        '8'
    } else if value == 9 {
        '9'
    } else if value == 10 {
        'a'
    } else if value == 11 {
        'b'
    } else if value == 12 {
        'c'
    } else if value == 13 {
        'd'
    } else if value == 14 {
        'e'
    } else {
        'f'
    }
}

/// Appends `value` in hexadecimal to `text`.
fn push_hex(text: &mut String, value: u32)
    ensures
        final(text)@ == old(text)@ + hex_text(value),
{
    push_char(text, '0');
    push_char(text, 'x');
    push_char(text, digit(value / 0x1000_0000));
    push_char(text, digit(value / 0x100_0000 % 16));
    push_char(text, digit(value / 0x10_0000 % 16));
    push_char(text, digit(value / 0x1_0000 % 16));
    push_char(text, digit(value / 0x1000 % 16));
    push_char(text, digit(value / 0x100 % 16));
    push_char(text, digit(value / 0x10 % 16));
    push_char(text, digit(value % 16));
}

/// Appends `value` in decimal to `text`.
fn push_decimal(text: &mut String, value: u32)
    ensures
        final(text)@ == old(text)@ + decimal_text(value as nat),
    decreases value,
{
    if value >= 10 {
        push_decimal(text, value / 10);
    }
    push_char(text, digit(value % 10));
}

impl Default for SlaveIdentity {
    fn default() -> (identity: SlaveIdentity)
        ensures
            identity == (SlaveIdentity { vendor_id: 0, product_id: 0, revision: 0, serial: 0 }),
    {
        SlaveIdentity { vendor_id: 0, product_id: 0, revision: 0, serial: 0 }
    }
}

impl SlaveIdentity {
    /// The identity as text, with the vendor and the product in hexadecimal:
    /// `SlaveIdentity { vendor_id: 0x00000002, product_id: 0x04443052,
    /// revision: 1, serial: 2 }`.
    pub fn to_text(&self) -> (text: String)
        ensures
            text@ == identity_text(*self),
    {
        let mut text = String::new();
        push_text(&mut text, "SlaveIdentity { vendor_id: ");
        push_hex(&mut text, self.vendor_id);
        push_text(&mut text, ", product_id: ");
        push_hex(&mut text, self.product_id);
        push_text(&mut text, ", revision: ");
        push_decimal(&mut text, self.revision);
        push_text(&mut text, ", serial: ");
        push_decimal(&mut text, self.serial);
        push_text(&mut text, " }");
        text
    }

    /// Reads an identity from the start of `i`. Returns it with the bytes
    /// that follow it, or `None` where `i` holds fewer than sixteen bytes.
    pub fn parse<'a>(i: &'a [u8]) -> (parsed: Option<(&'a [u8], SlaveIdentity)>)
        ensures
            parsed is Some <==> i@.len() >= 16,
            parsed matches Some((rest, identity)) ==> rest@ == i@.skip(16) && identity
                == identity_of(i@),
    {
        let (i1, vendor_id) = match le_u32(i) {
            Some(parsed) => parsed,
            None => {
                return None;
            },
        };
        let (i2, product_id) = match le_u32(i1) {
            Some(parsed) => parsed,
            None => {
                return None;
            },
        };
        let (i3, revision) = match le_u32(i2) {
            Some(parsed) => parsed,
            None => {
                return None;
            },
        };
        let (i4, serial) = match le_u32(i3) {
            Some(parsed) => parsed,
            None => {
                return None;
            },
        };
        assert(i2@ == i@.skip(8));
        assert(i3@ == i@.skip(12));
        assert(i4@ == i@.skip(16));
        Some((i4, SlaveIdentity { vendor_id, product_id, revision, serial }))
    }
}

/// `heapless::String`, a string of at most `N` bytes. Nothing is known of
/// its inside.
#[verifier::external_type_specification]
#[verifier::external_body]
pub struct ExHeaplessString<const N: usize>(heapless::String<N>);

/// The text that a name holds.
pub uninterp spec fn name_text(name: heapless::String<64>) -> Seq<char>;

/// `heapless::String::from` for a string slice: a name with the text of
/// `text`. The text must fit in the 64 bytes of a name.
#[verifier::external_body]
fn name_from_str(text: &str) -> (name: heapless::String<64>)
    requires
        text.spec_bytes().len() <= 64,
    ensures
        name_text(name) == text@,
{
    heapless::String::from(text)
}

/// A slave on the network.
#[derive(Debug)]
pub struct Slave {
    /// Configured station address.
    pub configured_address: u16,
    /// Who made the slave, and which device it is.
    pub identity: SlaveIdentity,
    /// The name of the device, from its EEPROM.
    pub name: heapless::String<64>,
}

impl Slave {
    /// A slave with the given address, identity and name. A slave whose
    /// EEPROM holds no name is called `(unknown)`.
    pub fn new(
        configured_address: u16,
        identity: SlaveIdentity,
        name: Option<heapless::String<64>>,
    ) -> (slave: Slave)
        ensures
            slave.configured_address == configured_address,
            slave.identity == identity,
            name is Some ==> slave.name == name->0,
            name is None ==> name_text(slave.name) == "(unknown)"@,
    {
        let name = match name {
            Some(name) => name,
            None => {
                proof {
                    reveal_strlit("(unknown)");
                    vstd::string::is_ascii_spec_bytes("(unknown)");
                }
                name_from_str("(unknown)")
            },
        };
        Slave { configured_address, identity, name }
    }
}

/// Where the process data of one slave lies in the image of its group.
#[derive(Clone, Copy, Debug, PartialEq, Eq, Structural)]
pub struct IoRanges {
    /// The segment of the inputs, if the slave has any.
    pub input: Option<PdiSegment>,
    /// The segment of the outputs, if the slave has any.
    pub output: Option<PdiSegment>,
}

/// The direction of process data, seen from the master.
#[derive(Clone, Copy, Debug, PartialEq, Eq, Structural)]
pub enum PdoDirection {
    /// Inputs: the master reads what the slave produced.
    MasterRead,
    /// Outputs: the master writes what the slave consumes.
    MasterWrite,
}

impl PdoDirection {
    /// The kind of sync manager and the kind of FMMU that serve this direction.
    pub open spec fn spec_filter_terms(self) -> (SyncManagerType, FmmuUsage) {
        match self {
            PdoDirection::MasterRead => (SyncManagerType::ProcessDataRead, FmmuUsage::Inputs),
            PdoDirection::MasterWrite => (SyncManagerType::ProcessDataWrite, FmmuUsage::Outputs),
        }
    }

    /// The kind of sync manager and the kind of FMMU that serve this direction.
    #[verifier::when_used_as_spec(spec_filter_terms)]
    pub fn filter_terms(self) -> (terms: (SyncManagerType, FmmuUsage))
        ensures
            terms == self.spec_filter_terms(),
    {
        match self {
            PdoDirection::MasterRead => (SyncManagerType::ProcessDataRead, FmmuUsage::Inputs),
            PdoDirection::MasterWrite => (SyncManagerType::ProcessDataWrite, FmmuUsage::Outputs),
        }
    }
}

/// What is written to a register.
#[derive(Clone, Copy, Debug, PartialEq, Eq, Structural)]
pub enum RegisterValue {
    /// A plain 16 bit value.
    Word(u16),
    /// The AL control register.
    AlControl(AlControl),
    /// The configuration block of a sync manager.
    SyncManager(SyncManagerChannel),
    /// The configuration block of an FMMU.
    Fmmu(Fmmu),
}

/// One step of the configuration of a slave. The steps of a plan are carried
/// out in order; the first one that fails ends the configuration of the slave.
#[derive(Clone, Copy, Debug, PartialEq, Eq, Structural)]
pub enum SlaveStep {
    /// Write `value` to `register` of the slave with the configured station
    /// address `address`. One slave must have processed the write.
    Write { address: u16, register: RegisterAddress, value: RegisterValue },
    /// Poll the AL status register of the slave until it reports `state`.
    AwaitState { address: u16, state: SlaveState },
}

/// The bit length of the first `n` of `pdos` that are assigned to
/// `sync_manager`.
pub open spec fn pdo_bits(pdos: Seq<Pdo>, n: int, sync_manager: u8) -> nat
    decreases n,
{
    if n <= 0 {
        0
    } else {
        pdo_bits(pdos, n - 1, sync_manager) + if pdos[n - 1].sync_manager == sync_manager {
            pdos[n - 1].bit_len as nat
        } else {
            0
        }
    }
}

/// Whether the extended FMMU section names `sync_manager`.
pub open spec fn has_mapping(mappings: Seq<FmmuEx>, sync_manager: u8) -> bool {
    exists|i: int| 0 <= i < mappings.len() && (#[trigger] mappings[i]).sync_manager == sync_manager
}

/// The index of the FMMU at the position `position`: the position modulo
/// 256.
pub open spec fn fmmu_at(position: int) -> u8 {
    (position % 256) as u8
}

/// The position of the first of the first `n` FMMUs that is meant for
/// `wanted` and whose index is not among `taken`.
pub open spec fn first_free(
    usage: Seq<FmmuUsage>,
    n: int,
    wanted: FmmuUsage,
    taken: Seq<u8>,
) -> Option<int>
    decreases n,
{
    if n <= 0 {
        None
    } else {
        match first_free(usage, n - 1, wanted, taken) {
            Some(position) => Some(position),
            None => if usage[n - 1] == wanted && !taken.contains(fmmu_at(n - 1)) {
                Some(n - 1)
            } else {
                None
            },
        }
    }
}

/// The FMMU that maps `sync_manager`, where the FMMUs with the indices
/// `taken` map other sync managers of the slave already: where the extended
/// FMMU section names the sync manager, the FMMU with the sync manager's own
/// index; else the first FMMU that is meant for `wanted` and not taken; else
/// none.
pub open spec fn fmmu_index(
    mappings: Seq<FmmuEx>,
    usage: Seq<FmmuUsage>,
    sync_manager: u8,
    wanted: FmmuUsage,
    taken: Seq<u8>,
) -> Option<u8> {
    if has_mapping(mappings, sync_manager) {
        Some(sync_manager)
    } else {
        match first_free(usage, usage.len() as int, wanted, taken) {
            Some(position) => Some(fmmu_at(position)),
            None => None,
        }
    }
}

/// The configuration block of a sync manager described by `sync_manager`,
/// with a window of `length_bytes` bytes.
pub open spec fn sm_channel(sync_manager: SyncManager, length_bytes: u16) -> SyncManagerChannel {
    SyncManagerChannel {
        physical_start_address: sync_manager.start_addr,
        length_bytes,
        control: sync_manager.control,
        status: 0,
        enable: sync_manager.spec_is_enabled(),
    }
}

/// The FMMU block that maps `bits` bits at `offset` of the process data image
/// onto the window of `channel`.
pub open spec fn fmmu_block(
    offset: PdiOffset,
    bits: u16,
    channel: SyncManagerChannel,
    direction: PdoDirection,
) -> Fmmu {
    Fmmu {
        logical_start_address: offset.start_address,
        length_bytes: channel.length_bytes,
        logical_start_bit: 0,
        logical_end_bit: offset.spec_end_bit(bits) as u8,
        physical_start_address: channel.physical_start_address,
        physical_start_bit: 0,
        read_enable: direction == PdoDirection::MasterRead,
        write_enable: direction == PdoDirection::MasterWrite,
        enable: true,
    }
}

/// How far the mapping of one direction has come.
pub struct PdoMapping {
    /// The register writes so far.
    pub steps: Seq<SlaveStep>,
    /// Where the next segment starts.
    pub offset: PdiOffset,
    /// The bits mapped so far.
    pub total_bits: nat,
    /// The indices of the FMMUs that map a sync manager of the slave, in the
    /// order in which they were taken.
    pub taken: Seq<u8>,
    /// Whether a sync manager could not be mapped.
    pub failed: bool,
}

/// The mapping after the sync manager at the position `position` has been
/// looked at. The index of a sync manager is its position modulo 256. A sync
/// manager of another kind changes nothing. One of the right kind adds its
/// two register writes, takes its FMMU, and moves the offset on by its
/// bytes; it fails where its bits or the bits of the direction do not fit in
/// 16 bits, where no FMMU is left for it, or where the offset would leave
/// the 32 bit address space.
pub open spec fn map_sync_manager(
    address: u16,
    before: PdoMapping,
    position: int,
    sync_manager: SyncManager,
    pdos: Seq<Pdo>,
    mappings: Seq<FmmuEx>,
    usage: Seq<FmmuUsage>,
    direction: PdoDirection,
) -> PdoMapping {
    let (sm_type, fmmu_type) = direction.spec_filter_terms();
    let index = (position % 256) as u8;
    let bits = pdo_bits(pdos, pdos.len() as int, index);
    let fmmu = fmmu_index(mappings, usage, index, fmmu_type, before.taken);
    if before.failed || sync_manager.usage_type != sm_type {
        before
    } else if bits > u16::MAX || before.total_bits + bits > u16::MAX || fmmu is None
        || before.offset.spec_increment_byte_aligned(bits as u16) is None {
        PdoMapping { failed: true, ..before }
    } else {
        let channel = sm_channel(sync_manager, bytes_for_bits(bits as int) as u16);
        PdoMapping {
            steps: before.steps.push(
                SlaveStep::Write {
                    address,
                    register: RegisterAddress::SyncManager(index),
                    value: RegisterValue::SyncManager(channel),
                },
            ).push(
                SlaveStep::Write {
                    address,
                    register: RegisterAddress::Fmmu(fmmu->0),
                    value: RegisterValue::Fmmu(
                        fmmu_block(before.offset, bits as u16, channel, direction),
                    ),
                },
            ),
            offset: before.offset.spec_increment_byte_aligned(bits as u16)->0,
            total_bits: before.total_bits + bits,
            taken: before.taken.push(fmmu->0),
            failed: false,
        }
    }
}

/// The mapping after the first `n` sync managers have been looked at, in
/// order, starting at `offset`, with the FMMUs `taken` in use already.
pub open spec fn map_sync_managers(
    address: u16,
    sync_managers: Seq<SyncManager>,
    n: int,
    pdos: Seq<Pdo>,
    mappings: Seq<FmmuEx>,
    usage: Seq<FmmuUsage>,
    direction: PdoDirection,
    offset: PdiOffset,
    taken: Seq<u8>,
) -> PdoMapping
    decreases n,
{
    if n <= 0 {
        PdoMapping { steps: Seq::empty(), offset, total_bits: 0, taken, failed: false }
    } else {
        map_sync_manager(
            address,
            map_sync_managers(address, sync_managers, n - 1, pdos, mappings, usage, direction, offset, taken),
            n - 1,
            sync_managers[n - 1],
            pdos,
            mappings,
            usage,
            direction,
        )
    }
}

/// What a finished mapping hands back: the error where it failed, no segment
/// where no bit was mapped, else the bytes from `start` to where the mapping
/// ended.
pub open spec fn mapped_segment(start: PdiOffset, mapping: PdoMapping) -> Result<
    Option<PdiSegment>,
    Error,
> {
    if mapping.failed {
        Err(Error::Other)
    } else if mapping.total_bits > 0 {
        Ok(
            Some(
                PdiSegment {
                    bit_len: mapping.total_bits as usize,
                    start: start.start_address as usize,
                    end: mapping.offset.start_address as usize,
                },
            ),
        )
    } else {
        Ok(None)
    }
}

/// The two writes that hand the EEPROM of the slave at `address` to `mode`.
pub open spec fn eeprom_mode_steps(address: u16, mode: SiiOwner) -> Seq<SlaveStep> {
    seq![
        SlaveStep::Write {
            address,
            register: RegisterAddress::SiiConfig,
            value: RegisterValue::Word(2),
        },
        SlaveStep::Write {
            address,
            register: RegisterAddress::SiiConfig,
            value: RegisterValue::Word(mode.spec_register_value()),
        },
    ]
}

/// The steps that bring the slave at `address` to `state`: the request, then
/// the wait for the slave to report the state.
pub open spec fn state_steps(address: u16, state: SlaveState) -> Seq<SlaveStep> {
    seq![
        SlaveStep::Write {
            address,
            register: RegisterAddress::AlControl,
            value: RegisterValue::AlControl(AlControl { state, error: false }),
        },
        SlaveStep::AwaitState { address, state },
    ]
}

/// The writes that configure the mailbox sync managers among the first `n`
/// sync managers: the one the master writes to gets the size of the window the
/// slave receives in, the one the master reads from the size of the window
/// the slave sends from. The index of a sync manager is its position modulo
/// 256.
pub open spec fn mailbox_steps(
    address: u16,
    sync_managers: Seq<SyncManager>,
    n: int,
    mailbox_config: MailboxConfig,
) -> Seq<SlaveStep>
    decreases n,
{
    if n <= 0 {
        Seq::empty()
    } else {
        let before = mailbox_steps(address, sync_managers, n - 1, mailbox_config);
        let sync_manager = sync_managers[n - 1];
        let register = RegisterAddress::SyncManager(((n - 1) % 256) as u8);
        match sync_manager.usage_type {
            SyncManagerType::MailboxWrite => before.push(
                SlaveStep::Write {
                    address,
                    register,
                    value: RegisterValue::SyncManager(
                        sm_channel(sync_manager, mailbox_config.slave_receive_size),
                    ),
                },
            ),
            SyncManagerType::MailboxRead => before.push(
                SlaveStep::Write {
                    address,
                    register,
                    value: RegisterValue::SyncManager(
                        sm_channel(sync_manager, mailbox_config.slave_send_size),
                    ),
                },
            ),
            _ => before,
        }
    }
}

/// The steps from `Init` to `PreOp`: the master takes the EEPROM, the mailbox
/// sync managers are configured where the slave has a mailbox, the EEPROM is
/// handed to the slave for the transition, and taken back after it.
pub open spec fn init_to_pre_op_steps(
    address: u16,
    sync_managers: Seq<SyncManager>,
    mailbox_config: MailboxConfig,
) -> Seq<SlaveStep> {
    eeprom_mode_steps(address, SiiOwner::Master) + (if mailbox_config.spec_has_mailbox() {
        mailbox_steps(address, sync_managers, sync_managers.len() as int, mailbox_config)
    } else {
        Seq::empty()
    }) + eeprom_mode_steps(address, SiiOwner::Pdi) + state_steps(address, SlaveState::PreOp)
        + eeprom_mode_steps(address, SiiOwner::Master)
}

/// The mapping of the outputs of a slave, which come first.
pub open spec fn outputs_mapping(
    address: u16,
    sync_managers: Seq<SyncManager>,
    master_write_pdos: Seq<Pdo>,
    mappings: Seq<FmmuEx>,
    usage: Seq<FmmuUsage>,
    offset: PdiOffset,
) -> PdoMapping {
    map_sync_managers(
        address,
        sync_managers,
        sync_managers.len() as int,
        master_write_pdos,
        mappings,
        usage,
        PdoDirection::MasterWrite,
        offset,
        Seq::empty(),
    )
}

/// The mapping of the inputs of a slave, which start where its outputs end.
pub open spec fn inputs_mapping(
    address: u16,
    sync_managers: Seq<SyncManager>,
    master_write_pdos: Seq<Pdo>,
    master_read_pdos: Seq<Pdo>,
    mappings: Seq<FmmuEx>,
    usage: Seq<FmmuUsage>,
    offset: PdiOffset,
) -> PdoMapping {
    map_sync_managers(
        address,
        sync_managers,
        sync_managers.len() as int,
        master_read_pdos,
        mappings,
        usage,
        PdoDirection::MasterRead,
        outputs_mapping(address, sync_managers, master_write_pdos, mappings, usage, offset).offset,
        outputs_mapping(address, sync_managers, master_write_pdos, mappings, usage, offset).taken,
    )
}

/// The steps from `PreOp` to `SafeOp`: the writes for the outputs, then those
/// for the inputs, and, where both could be mapped, the hand-over of the
/// EEPROM to the slave and the request for `SafeOp`.
pub open spec fn pre_op_to_safe_op_steps(
    address: u16,
    sync_managers: Seq<SyncManager>,
    master_write_pdos: Seq<Pdo>,
    master_read_pdos: Seq<Pdo>,
    mappings: Seq<FmmuEx>,
    usage: Seq<FmmuUsage>,
    offset: PdiOffset,
) -> Seq<SlaveStep> {
    let outputs = outputs_mapping(address, sync_managers, master_write_pdos, mappings, usage, offset);
    let inputs = inputs_mapping(
        address,
        sync_managers,
        master_write_pdos,
        master_read_pdos,
        mappings,
        usage,
        offset,
    );
    if outputs.failed {
        outputs.steps
    } else if inputs.failed {
        outputs.steps + inputs.steps
    } else {
        outputs.steps + inputs.steps + eeprom_mode_steps(address, SiiOwner::Pdi) + state_steps(
            address,
            SlaveState::SafeOp,
        )
    }
}

/// Where the process data of a slave lies in the image once both directions
/// are mapped.
#[derive(Clone, Copy, Debug, PartialEq, Eq, Structural)]
pub struct IoLayout {
    /// Where the segment of the next slave starts.
    pub offset: PdiOffset,
    /// The segment of the inputs, if the slave has any.
    pub inputs: Option<PdiSegment>,
    /// The segment of the outputs, if the slave has any.
    pub outputs: Option<PdiSegment>,
}

/// What the mapping of both directions hands back: the error where one of
/// them failed, else the two segments and the offset after them.
pub open spec fn pre_op_to_safe_op_layout(
    address: u16,
    sync_managers: Seq<SyncManager>,
    master_write_pdos: Seq<Pdo>,
    master_read_pdos: Seq<Pdo>,
    mappings: Seq<FmmuEx>,
    usage: Seq<FmmuUsage>,
    offset: PdiOffset,
) -> Result<IoLayout, Error> {
    let outputs = outputs_mapping(address, sync_managers, master_write_pdos, mappings, usage, offset);
    let inputs = inputs_mapping(
        address,
        sync_managers,
        master_write_pdos,
        master_read_pdos,
        mappings,
        usage,
        offset,
    );
    if outputs.failed || inputs.failed {
        Err(Error::Other)
    } else {
        Ok(
            IoLayout {
                offset: inputs.offset,
                inputs: mapped_segment(outputs.offset, inputs)->Ok_0,
                outputs: mapped_segment(offset, outputs)->Ok_0,
            },
        )
    }
}

/// The plan for the way of a slave from `PreOp` to `SafeOp`.
pub struct SafeOpPlan {
    /// The steps, in order. Where `layout` is an error these are the writes
    /// that come before the failure.
    pub steps: Vec<SlaveStep>,
    /// Where the process data of the slave lies.
    pub layout: Result<IoLayout, Error>,
}

/// The plan for one direction of the process data of a slave.
pub struct PdoPlan {
    /// The register writes, in order. Where `segment` is an error these are
    /// the writes that come before the failure.
    pub steps: Vec<SlaveStep>,
    /// Where the next segment starts.
    pub offset: PdiOffset,
    /// The indices of the FMMUs that are in use after the plan.
    pub taken: Vec<u8>,
    /// The segment of the process data image that the direction takes.
    pub segment: Result<Option<PdiSegment>, Error>,
}

/// The bits of the first `n` PDOs never exceed the bits of the first `m`,
/// for `n` up to `m`.
proof fn lemma_pdo_bits_grow(pdos: Seq<Pdo>, n: int, m: int, sync_manager: u8)
    requires
        0 <= n <= m,
    ensures
        pdo_bits(pdos, n, sync_manager) <= pdo_bits(pdos, m, sync_manager),
    decreases m,
{
    if n < m {
        lemma_pdo_bits_grow(pdos, n, m - 1, sync_manager);
    }
}

/// A position found among the first `n` FMMUs is the one found among the
/// first `m`, for `n` up to `m`.
proof fn lemma_first_free_stays(
    usage: Seq<FmmuUsage>,
    n: int,
    m: int,
    wanted: FmmuUsage,
    taken: Seq<u8>,
)
    requires
        0 <= n <= m,
        first_free(usage, n, wanted, taken) is Some,
    ensures
        first_free(usage, m, wanted, taken) == first_free(usage, n, wanted, taken),
    decreases m,
{
    if n < m {
        lemma_first_free_stays(usage, n, m - 1, wanted, taken);
    }
}

/// The bits of the PDOs assigned to `sync_manager`, where they fit in 16
/// bits.
pub fn sum_pdo_bits(pdos: &[Pdo], sync_manager: u8) -> (bits: Option<u16>)
    ensures
        bits == if pdo_bits(pdos@, pdos@.len() as int, sync_manager) <= u16::MAX {
            Some(pdo_bits(pdos@, pdos@.len() as int, sync_manager) as u16)
        } else {
            None
        },
{
    let mut total: u32 = 0;
    let mut i: usize = 0;
    while i < pdos.len()
        invariant
            i <= pdos@.len(),
            total == pdo_bits(pdos@, i as int, sync_manager),
            total <= u16::MAX,
        decreases pdos@.len() - i,
    {
        if pdos[i].sync_manager == sync_manager {
            total = total + pdos[i].bit_len as u32;
        }
        i = i + 1;
        if total > 0xffff {
            proof {
                lemma_pdo_bits_grow(pdos@, i as int, pdos@.len() as int, sync_manager);
            }
            return None;
        }
    }
    Some(total as u16)
}

/// Whether `index` is among `taken`.
pub fn is_taken(taken: &[u8], index: u8) -> (found: bool)
    ensures
        found == taken@.contains(index),
{
    let mut i: usize = 0;
    while i < taken.len()
        invariant
            i <= taken@.len(),
            forall|k: int| 0 <= k < i ==> taken@[k] != index,
        decreases taken@.len() - i,
    {
        if taken[i] == index {
            return true;
        }
        i = i + 1;
    }
    false
}

/// The FMMU that maps `sync_manager`, where the FMMUs `taken` are in use
/// already; see [`fmmu_index`].
pub fn find_fmmu(
    mappings: &[FmmuEx],
    usage: &[FmmuUsage],
    sync_manager: u8,
    wanted: FmmuUsage,
    taken: &[u8],
) -> (index: Option<u8>)
    ensures
        index == fmmu_index(mappings@, usage@, sync_manager, wanted, taken@),
{
    let mut i: usize = 0;
    while i < mappings.len()
        invariant
            i <= mappings@.len(),
            forall|k: int| 0 <= k < i ==> (#[trigger] mappings@[k]).sync_manager != sync_manager,
        decreases mappings@.len() - i,
    {
        if mappings[i].sync_manager == sync_manager {
            return Some(sync_manager);
        }
        i = i + 1;
    }
    let mut j: usize = 0;
    while j < usage.len()
        invariant
            j <= usage@.len(),
            !has_mapping(mappings@, sync_manager),
            first_free(usage@, j as int, wanted, taken@) is None,
        decreases usage@.len() - j,
    {
        let index = (j % 256) as u8;
        if usage[j] == wanted && !is_taken(taken, index) {
            proof {
                lemma_first_free_stays(usage@, j + 1, usage@.len() as int, wanted, taken@);
            }
            return Some(index);
        }
        j = j + 1;
    }
    None
}

/// A handle on one slave, by its configured station address. Its methods plan
/// the register accesses that configure the slave.
#[derive(Clone, Copy, Debug, PartialEq, Eq, Structural)]
pub struct SlaveRef {
    /// The configured station address of the slave.
    pub configured_address: u16,
}

impl SlaveRef {
    /// A handle on the slave with the given configured station address.
    pub fn new(configured_address: u16) -> (slave: SlaveRef)
        ensures
            slave.configured_address == configured_address,
    {
        SlaveRef { configured_address }
    }

    /// The read of `register` of this slave: a read by configured station
    /// address, which exactly one slave must answer.
    pub fn read(&self, register: RegisterAddress) -> (command: Command)
        ensures
            command == (Command::Fprd {
                address: self.configured_address,
                register: register.spec_address() as u16,
            }),
    {
        Command::Fprd { address: self.configured_address, register: register.address() }
    }

    /// The write of `value` to `register` of this slave.
    pub fn write(&self, register: RegisterAddress, value: RegisterValue) -> (step: SlaveStep)
        ensures
            step == (SlaveStep::Write { address: self.configured_address, register, value }),
    {
        SlaveStep::Write { address: self.configured_address, register, value }
    }

    /// The write that configures the sync manager `sync_manager_index` as
    /// `sync_manager` describes it, with a window of `length_bytes` bytes.
    /// Returns the configuration block together with the write.
    pub fn write_sm_config(
        &self,
        sync_manager_index: u8,
        sync_manager: &SyncManager,
        length_bytes: u16,
    ) -> (planned: (SyncManagerChannel, SlaveStep))
        ensures
            planned.0 == sm_channel(*sync_manager, length_bytes),
            planned.1 == (SlaveStep::Write {
                address: self.configured_address,
                register: RegisterAddress::SyncManager(sync_manager_index),
                value: RegisterValue::SyncManager(planned.0),
            }),
    {
        let sm_config = SyncManagerChannel {
            physical_start_address: sync_manager.start_addr,
            length_bytes,
            control: sync_manager.control,
            status: 0,
            enable: sync_manager.is_enabled(),
        };
        let step = self.write(
            RegisterAddress::SyncManager(sync_manager_index),
            RegisterValue::SyncManager(sm_config),
        );
        (sm_config, step)
    }

    /// The two writes that hand the EEPROM of the slave to `mode`.
    pub fn set_eeprom_mode(&self, mode: SiiOwner) -> (steps: Vec<SlaveStep>)
        ensures
            steps@ == eeprom_mode_steps(self.configured_address, mode),
    {
        let mut steps: Vec<SlaveStep> = Vec::new();
        steps.push(self.write(RegisterAddress::SiiConfig, RegisterValue::Word(2)));
        steps.push(
            self.write(RegisterAddress::SiiConfig, RegisterValue::Word(mode.register_value())),
        );
        steps
    }

    /// The steps that bring the slave to `desired_state`: the write of the
    /// request to the AL control register, then the wait for the AL status
    /// register to report the state.
    pub fn request_slave_state(&self, desired_state: SlaveState) -> (steps: Vec<SlaveStep>)
        ensures
            steps@ == state_steps(self.configured_address, desired_state),
    {
        let mut steps: Vec<SlaveStep> = Vec::new();
        steps.push(
            self.write(
                RegisterAddress::AlControl,
                RegisterValue::AlControl(AlControl::new(desired_state)),
            ),
        );
        steps.push(SlaveStep::AwaitState { address: self.configured_address, state: desired_state });
        steps
    }

    /// The wait for the slave to report `desired_state`.
    pub fn wait_for_state(&self, desired_state: SlaveState) -> (wait: StateWait)
        ensures
            wait.address() == self.configured_address,
            wait.desired() == desired_state,
            wait.phase() == WaitPhase::Due,
    {
        StateWait::new(self.configured_address, desired_state)
    }

    /// The state and the status code of the slave, from the contents of its AL
    /// status register and of its AL status code register.
    pub fn status(&self, al_status: AlControl, code: AlStatusCode) -> (status: (
        SlaveState,
        AlStatusCode,
    ))
        ensures
            status == (al_status.state, code),
    {
        (al_status.state, code)
    }

    /// The EEPROM of the slave.
    pub fn eeprom(&self) -> (eeprom: Eeprom)
        ensures
            eeprom.configured_address == self.configured_address,
    {
        Eeprom::new(self.configured_address)
    }

    /// The writes that configure the mailbox sync managers of the slave. A
    /// slave without a mailbox gets none.
    pub fn configure_mailboxes(
        &self,
        sync_managers: &[SyncManager],
        mailbox_config: &MailboxConfig,
    ) -> (steps: Vec<SlaveStep>)
        ensures
            steps@ == if mailbox_config.spec_has_mailbox() {
                mailbox_steps(
                    self.configured_address,
                    sync_managers@,
                    sync_managers@.len() as int,
                    *mailbox_config,
                )
            } else {
                Seq::empty()
            },
    {
        let mut steps: Vec<SlaveStep> = Vec::new();
        if !mailbox_config.has_mailbox() {
            return steps;
        }
        let mut i: usize = 0;
        while i < sync_managers.len()
            invariant
                i <= sync_managers@.len(),
                steps@ == mailbox_steps(
                    self.configured_address,
                    sync_managers@,
                    i as int,
                    *mailbox_config,
                ),
            decreases sync_managers@.len() - i,
        {
            let sync_manager = &sync_managers[i];
            let sync_manager_index = (i % 256) as u8;
            match sync_manager.usage_type {
                SyncManagerType::MailboxWrite => {
                    let (_, step) = self.write_sm_config(
                        sync_manager_index,
                        sync_manager,
                        mailbox_config.slave_receive_size,
                    );
                    steps.push(step);
                },
                SyncManagerType::MailboxRead => {
                    let (_, step) = self.write_sm_config(
                        sync_manager_index,
                        sync_manager,
                        mailbox_config.slave_send_size,
                    );
                    steps.push(step);
                },
                _ => {},
            }
            i = i + 1;
        }
        steps
    }

    /// Plans the way from `Init` to `PreOp`, from the sync manager section and
    /// the mailbox section of the EEPROM.
    pub fn configure_from_eeprom_safe_op(
        &self,
        sync_managers: &[SyncManager],
        mailbox_config: &MailboxConfig,
    ) -> (steps: Vec<SlaveStep>)
        ensures
            steps@ == init_to_pre_op_steps(self.configured_address, sync_managers@, *mailbox_config),
    {
        let mut steps = self.set_eeprom_mode(SiiOwner::Master);
        let mut mailboxes = self.configure_mailboxes(sync_managers, mailbox_config);
        steps.append(&mut mailboxes);
        let mut to_pdi = self.set_eeprom_mode(SiiOwner::Pdi);
        steps.append(&mut to_pdi);
        let mut pre_op = self.request_slave_state(SlaveState::PreOp);
        steps.append(&mut pre_op);
        let mut to_master = self.set_eeprom_mode(SiiOwner::Master);
        steps.append(&mut to_master);
        steps
    }

    /// Plans the way from `PreOp` to `SafeOp`, from the sections of the
    /// EEPROM, with the process data of the slave starting at `offset` of
    /// the image. The outputs are laid out before the inputs.
    pub fn configure_from_eeprom_pre_op(
        &self,
        sync_managers: &[SyncManager],
        master_write_pdos: &[Pdo],
        master_read_pdos: &[Pdo],
        fmmu_usage: &[FmmuUsage],
        fmmu_sm_mappings: &[FmmuEx],
        offset: PdiOffset,
    ) -> (plan: SafeOpPlan)
        requires
            offset.wf(),
        ensures
            plan.steps@ == pre_op_to_safe_op_steps(
                self.configured_address,
                sync_managers@,
                master_write_pdos@,
                master_read_pdos@,
                fmmu_sm_mappings@,
                fmmu_usage@,
                offset,
            ),
            plan.layout == pre_op_to_safe_op_layout(
                self.configured_address,
                sync_managers@,
                master_write_pdos@,
                master_read_pdos@,
                fmmu_sm_mappings@,
                fmmu_usage@,
                offset,
            ),
    {
        let outputs = self.configure_pdos(
            sync_managers,
            master_write_pdos,
            fmmu_sm_mappings,
            fmmu_usage,
            PdoDirection::MasterWrite,
            offset,
            Vec::new(),
        );
        let mut steps = outputs.steps;
        let outputs_range = match outputs.segment {
            Ok(segment) => segment,
            Err(e) => {
                return SafeOpPlan { steps, layout: Err(e) };
            },
        };
        proof {
            lemma_mapping_offset_wf(
                self.configured_address,
                sync_managers@,
                sync_managers@.len() as int,
                master_write_pdos@,
                fmmu_sm_mappings@,
                fmmu_usage@,
                PdoDirection::MasterWrite,
                offset,
                Seq::empty(),
            );
        }
        let inputs = self.configure_pdos(
            sync_managers,
            master_read_pdos,
            fmmu_sm_mappings,
            fmmu_usage,
            PdoDirection::MasterRead,
            outputs.offset,
            outputs.taken,
        );
        let mut input_steps = inputs.steps;
        steps.append(&mut input_steps);
        let inputs_range = match inputs.segment {
            Ok(segment) => segment,
            Err(e) => {
                return SafeOpPlan { steps, layout: Err(e) };
            },
        };
        let mut to_pdi = self.set_eeprom_mode(SiiOwner::Pdi);
        steps.append(&mut to_pdi);
        let mut safe_op = self.request_slave_state(SlaveState::SafeOp);
        steps.append(&mut safe_op);
        SafeOpPlan {
            steps,
            layout: Ok(IoLayout { offset: inputs.offset, inputs: inputs_range, outputs: outputs_range }),
        }
    }

    /// Plans the sync managers and FMMUs for one direction of process data,
    /// starting at `offset` of the process data image.
    ///
    /// The sync managers are taken in order. Each one of the direction's kind
    /// gets a window of the bytes that its PDOs need and an FMMU that maps the
    /// window to the image at the running offset, which then moves on by
    /// those bytes. `taken` holds the indices of the FMMUs that map other
    /// sync managers of the slave already; no FMMU is chosen by its usage
    /// that is among them. The plan ends with `Error::Other` at the first
    /// such sync manager that cannot be mapped.
    pub fn configure_pdos(
        &self,
        sync_managers: &[SyncManager],
        pdos: &[Pdo],
        fmmu_sm_mappings: &[FmmuEx],
        fmmu_usage: &[FmmuUsage],
        direction: PdoDirection,
        offset: PdiOffset,
        taken: Vec<u8>,
    ) -> (plan: PdoPlan)
        requires
            offset.wf(),
        ensures
            plan.taken@ == map_sync_managers(
                self.configured_address,
                sync_managers@,
                sync_managers@.len() as int,
                pdos@,
                fmmu_sm_mappings@,
                fmmu_usage@,
                direction,
                offset,
                taken@,
            ).taken,
            plan.steps@ == map_sync_managers(
                self.configured_address,
                sync_managers@,
                sync_managers@.len() as int,
                pdos@,
                fmmu_sm_mappings@,
                fmmu_usage@,
                direction,
                offset,
                taken@,
            ).steps,
            plan.offset == map_sync_managers(
                self.configured_address,
                sync_managers@,
                sync_managers@.len() as int,
                pdos@,
                fmmu_sm_mappings@,
                fmmu_usage@,
                direction,
                offset,
                taken@,
            ).offset,
            plan.segment == mapped_segment(
                offset,
                map_sync_managers(
                    self.configured_address,
                    sync_managers@,
                    sync_managers@.len() as int,
                    pdos@,
                    fmmu_sm_mappings@,
                    fmmu_usage@,
                    direction,
                    offset,
                    taken@,
                ),
            ),
    {
        let start_offset = offset;
        let ghost start_taken = taken@;
        let mut taken = taken;
        let mut offset = offset;
        let mut total_bit_len: u16 = 0;
        let mut steps: Vec<SlaveStep> = Vec::new();
        let mut failed = false;
        let (sm_type, fmmu_type) = direction.filter_terms();
        let mut i: usize = 0;
        while i < sync_managers.len() && !failed
            invariant
                i <= sync_managers@.len(),
                (sm_type, fmmu_type) == direction.spec_filter_terms(),
                offset.wf(),
                ({
                    let mapping = map_sync_managers(
                        self.configured_address,
                        sync_managers@,
                        i as int,
                        pdos@,
                        fmmu_sm_mappings@,
                        fmmu_usage@,
                        direction,
                        start_offset,
                        start_taken,
                    );
                    &&& mapping.steps =~= steps@
                    &&& mapping.offset == offset
                    &&& mapping.total_bits == total_bit_len
                    &&& mapping.taken =~= taken@
                    &&& mapping.failed == failed
                }),
            decreases sync_managers@.len() - i,
        {
            let sync_manager = &sync_managers[i];
            if sync_manager.usage_type == sm_type {
                let sync_manager_index = (i % 256) as u8;
                let bit_len = sum_pdo_bits(pdos, sync_manager_index);
                let fmmu_index = find_fmmu(
                    fmmu_sm_mappings,
                    fmmu_usage,
                    sync_manager_index,
                    fmmu_type,
                    taken.as_slice(),
                );
                let mapped = match (bit_len, fmmu_index) {
                    (Some(bit_len), Some(fmmu_index)) => match (
                        total_bit_len.checked_add(bit_len),
                        offset.increment_byte_aligned(bit_len),
                    ) {
                        (Some(total), Some(next)) => Some((bit_len, fmmu_index, total, next)),
                        _ => None,
                    },
                    _ => None,
                };
                match mapped {
                    Some((bit_len, fmmu_index, total, next)) => {
                        let (sm_config, sm_step) = self.write_sm_config(
                            sync_manager_index,
                            sync_manager,
                            ((bit_len as u32 + 7) / 8) as u16,
                        );
                        let fmmu_config = Fmmu {
                            logical_start_address: offset.start_address,
                            length_bytes: sm_config.length_bytes,
                            logical_start_bit: 0,
                            logical_end_bit: offset.end_bit(bit_len),
                            physical_start_address: sm_config.physical_start_address,
                            physical_start_bit: 0,
                            read_enable: sm_type == SyncManagerType::ProcessDataRead,
                            write_enable: sm_type == SyncManagerType::ProcessDataWrite,
                            enable: true,
                        };
                        steps.push(sm_step);
                        steps.push(
                            self.write(
                                RegisterAddress::Fmmu(fmmu_index),
                                RegisterValue::Fmmu(fmmu_config),
                            ),
                        );
                        taken.push(fmmu_index);
                        total_bit_len = total;
                        offset = next;
                    },
                    None => {
                        failed = true;
                    },
                }
            }
            i = i + 1;
        }
        proof {
            lemma_failed_mapping_stays(
                self.configured_address,
                sync_managers@,
                i as int,
                sync_managers@.len() as int,
                pdos@,
                fmmu_sm_mappings@,
                fmmu_usage@,
                direction,
                start_offset,
                start_taken,
            );
        }
        let segment = if failed {
            Err(Error::Other)
        } else if total_bit_len > 0 {
            Ok(Some(start_offset.up_to(offset, total_bit_len as usize)))
        } else {
            Ok(None)
        };
        PdoPlan { steps, offset, taken, segment }
    }
}

/// Once the mapping has failed, or all sync managers have been looked at,
/// looking at more of them changes nothing.
proof fn lemma_failed_mapping_stays(
    address: u16,
    sync_managers: Seq<SyncManager>,
    n: int,
    m: int,
    pdos: Seq<Pdo>,
    mappings: Seq<FmmuEx>,
    usage: Seq<FmmuUsage>,
    direction: PdoDirection,
    offset: PdiOffset,
    taken: Seq<u8>,
)
    requires
        0 <= n <= m,
        n == m || map_sync_managers(
            address,
            sync_managers,
            n,
            pdos,
            mappings,
            usage,
            direction,
            offset,
            taken,
        ).failed,
    ensures
        map_sync_managers(address, sync_managers, m, pdos, mappings, usage, direction, offset, taken)
            == map_sync_managers(address, sync_managers, n, pdos, mappings, usage, direction, offset, taken),
    decreases m,
{
    if n < m {
        lemma_failed_mapping_stays(
            address,
            sync_managers,
            n,
            m - 1,
            pdos,
            mappings,
            usage,
            direction,
            offset,
            taken,
        );
    }
}

/// The running offset of a mapping stays valid.
proof fn lemma_mapping_offset_wf(
    address: u16,
    sync_managers: Seq<SyncManager>,
    n: int,
    pdos: Seq<Pdo>,
    mappings: Seq<FmmuEx>,
    usage: Seq<FmmuUsage>,
    direction: PdoDirection,
    offset: PdiOffset,
    taken: Seq<u8>,
)
    requires
        offset.wf(),
    ensures
        map_sync_managers(address, sync_managers, n, pdos, mappings, usage, direction, offset, taken).offset.wf(),
    decreases n,
{
    if n > 0 {
        lemma_mapping_offset_wf(address, sync_managers, n - 1, pdos, mappings, usage, direction, offset, taken);
    }
}

/// A mapping never moves the offset back: it moves the address on where bits
/// are mapped, and leaves it alone where none is.
pub(crate) proof fn lemma_mapping_offset_grows(
    address: u16,
    sync_managers: Seq<SyncManager>,
    n: int,
    pdos: Seq<Pdo>,
    mappings: Seq<FmmuEx>,
    usage: Seq<FmmuUsage>,
    direction: PdoDirection,
    offset: PdiOffset,
    taken: Seq<u8>,
)
    ensures
        ({
            let mapping = map_sync_managers(
                address,
                sync_managers,
                n,
                pdos,
                mappings,
                usage,
                direction,
                offset,
                taken,
            );
            &&& offset.start_address <= mapping.offset.start_address
            &&& mapping.total_bits == 0 ==> mapping.offset.start_address == offset.start_address
            &&& mapping.total_bits > 0 ==> mapping.offset.start_address > offset.start_address
            &&& mapping.offset.start_bit == 0 || mapping.offset.start_bit == offset.start_bit
        }),
    decreases n,
{
    if n > 0 {
        lemma_mapping_offset_grows(
            address,
            sync_managers,
            n - 1,
            pdos,
            mappings,
            usage,
            direction,
            offset,
            taken,
        );
    }
}

/// What the first free FMMU is: it lies among the first `n`, is meant for
/// `wanted`, is not taken, and no FMMU before it is all of that.
pub proof fn lemma_first_free(usage: Seq<FmmuUsage>, n: int, wanted: FmmuUsage, taken: Seq<u8>)
    ensures
        first_free(usage, n, wanted, taken) matches Some(position) ==> {
            &&& 0 <= position < n
            &&& usage[position] == wanted
            &&& !taken.contains(fmmu_at(position))
            &&& forall|earlier: int|
                0 <= earlier < position ==> !(usage[earlier] == wanted && !taken.contains(
                    #[trigger] fmmu_at(earlier),
                ))
        },
        first_free(usage, n, wanted, taken) is None ==> forall|position: int|
            0 <= position < n ==> !(usage[position] == wanted && !taken.contains(
                #[trigger] fmmu_at(position),
            )),
    decreases n,
{
    if n > 0 {
        lemma_first_free(usage, n - 1, wanted, taken);
    }
}

/// An FMMU that is chosen by its usage maps no other sync manager of the
/// slave: it is not among the FMMUs taken before.
pub proof fn lemma_chosen_fmmu_is_free(
    mappings: Seq<FmmuEx>,
    usage: Seq<FmmuUsage>,
    sync_manager: u8,
    wanted: FmmuUsage,
    taken: Seq<u8>,
)
    requires
        !has_mapping(mappings, sync_manager),
    ensures
        fmmu_index(mappings, usage, sync_manager, wanted, taken) matches Some(index)
            ==> !taken.contains(index),
{
    lemma_first_free(usage, usage.len() as int, wanted, taken);
}

/// Whether the FMMU writes among `steps` are, in order, those of the FMMUs
/// `fmmus`: each sync manager that is mapped has two steps, the second of
/// which writes its FMMU.
pub open spec fn writes_fmmus(steps: Seq<SlaveStep>, fmmus: Seq<u8>) -> bool {
    &&& steps.len() == 2 * fmmus.len()
    &&& forall|k: int|
        0 <= k < fmmus.len() ==> (#[trigger] steps[2 * k + 1] matches SlaveStep::Write {
            register,
            ..
        } && register == RegisterAddress::Fmmu(fmmus[k]))
}

/// Where the extended FMMU section is empty, no FMMU is written twice: the
/// FMMUs taken by a mapping are those taken before and, behind them, those
/// that its steps write, and no two of them are the same.
pub proof fn lemma_fmmus_are_not_reused(
    address: u16,
    sync_managers: Seq<SyncManager>,
    n: int,
    pdos: Seq<Pdo>,
    usage: Seq<FmmuUsage>,
    direction: PdoDirection,
    offset: PdiOffset,
    taken: Seq<u8>,
)
    requires
        taken.no_duplicates(),
    ensures
        ({
            let mapping = map_sync_managers(
                address,
                sync_managers,
                n,
                pdos,
                Seq::empty(),
                usage,
                direction,
                offset,
                taken,
            );
            &&& mapping.taken.no_duplicates()
            &&& taken.len() <= mapping.taken.len()
            &&& mapping.taken.take(taken.len() as int) == taken
            &&& writes_fmmus(mapping.steps, mapping.taken.skip(taken.len() as int))
        }),
    decreases n,
{
    let none = Seq::<FmmuEx>::empty();
    let mapping = map_sync_managers(
        address,
        sync_managers,
        n,
        pdos,
        none,
        usage,
        direction,
        offset,
        taken,
    );
    if n <= 0 {
        assert(mapping.taken.take(taken.len() as int) =~= taken);
        assert(mapping.taken.skip(taken.len() as int) =~= Seq::<u8>::empty());
    } else {
        lemma_fmmus_are_not_reused(
            address,
            sync_managers,
            n - 1,
            pdos,
            usage,
            direction,
            offset,
            taken,
        );
        let before = map_sync_managers(
            address,
            sync_managers,
            n - 1,
            pdos,
            none,
            usage,
            direction,
            offset,
            taken,
        );
        if mapping.taken != before.taken {
            let index = fmmu_at(n - 1);
            let fmmu = fmmu_index(none, usage, index, direction.spec_filter_terms().1, before.taken);
            assert(!has_mapping(none, index));
            lemma_chosen_fmmu_is_free(
                none,
                usage,
                index,
                direction.spec_filter_terms().1,
                before.taken,
            );
            assert(mapping.taken == before.taken.push(fmmu->0));
            assert(mapping.taken.take(taken.len() as int) =~= before.taken.take(
                taken.len() as int,
            ));
            let fewer = before.taken.skip(taken.len() as int);
            let more = mapping.taken.skip(taken.len() as int);
            assert(more =~= fewer.push(fmmu->0));
            assert forall|k: int| 0 <= k < more.len() implies (#[trigger] mapping.steps[2 * k
                + 1] matches SlaveStep::Write { register, .. } && register
                == RegisterAddress::Fmmu(more[k])) by {
                if k < fewer.len() {
                    assert(mapping.steps[2 * k + 1] == before.steps[2 * k + 1]);
                }
            }
        }
    }
}

} // verus!
