use ethercrab::eeprom::types::{
    FmmuEx, FmmuUsage, MailboxConfig, Pdo, SiiOwner, SyncManager, SyncManagerType,
};
use ethercrab::error::Error;
use ethercrab::pdi::{PdiOffset, PdiSegment};
use ethercrab::register::{Fmmu, RegisterAddress, SyncManagerChannel};
use ethercrab::slave::{
    find_fmmu, is_taken, sum_pdo_bits, IoLayout, PdoDirection, RegisterValue, Slave, SlaveIdentity,
    SlaveRef, SlaveStep,
};
use ethercrab::slave_state::{AlControl, AlStatusCode, SlaveState};

const ADDRESS: u16 = 0x1001;

fn sync_manager(usage_type: SyncManagerType, start_addr: u16) -> SyncManager {
    SyncManager { start_addr, length: 0, control: 0x26, enable: 0x01, usage_type }
}

fn sync_managers() -> Vec<SyncManager> {
    vec![
        sync_manager(SyncManagerType::MailboxWrite, 0x1000),
        sync_manager(SyncManagerType::MailboxRead, 0x1080),
        sync_manager(SyncManagerType::ProcessDataWrite, 0x1100),
        sync_manager(SyncManagerType::ProcessDataRead, 0x1180),
    ]
}

fn pdo(sync_manager: u8, bit_len: u16) -> Pdo {
    Pdo { index: 0x1a00, sync_manager, bit_len }
}

fn write(register: RegisterAddress, value: RegisterValue) -> SlaveStep {
    SlaveStep::Write { address: ADDRESS, register, value }
}

fn word(value: u16) -> SlaveStep {
    write(RegisterAddress::SiiConfig, RegisterValue::Word(value))
}

fn channel(start: u16, length_bytes: u16) -> SyncManagerChannel {
    SyncManagerChannel {
        physical_start_address: start,
        length_bytes,
        control: 0x26,
        status: 0,
        enable: true,
    }
}

fn at(start_address: u32) -> PdiOffset {
    PdiOffset { start_address, start_bit: 0 }
}

#[test]
fn identity_is_read_least_significant_byte_first() {
    let bytes: Vec<u8> = vec![
        0x02, 0x00, 0x00, 0x00, 0x52, 0x30, 0x44, 0x04, 0x00, 0x00, 0x11, 0x00, 0x78, 0x56, 0x34,
        0x12, 0xaa,
    ];
    let (rest, identity) = SlaveIdentity::parse(&bytes).unwrap();
    assert_eq!(rest, &[0xaa][..]);
    assert_eq!(identity.vendor_id, 0x0000_0002);
    assert_eq!(identity.product_id, 0x0444_3052);
    assert_eq!(identity.revision, 0x0011_0000);
    assert_eq!(identity.serial, 0x1234_5678);
}

#[test]
fn identity_needs_sixteen_bytes() {
    let bytes: Vec<u8> = vec![0u8; 15];
    assert!(SlaveIdentity::parse(&bytes).is_none());
    assert!(SlaveIdentity::parse(&[]).is_none());
    let (rest, identity) = SlaveIdentity::parse(&[0xff; 16]).unwrap();
    assert!(rest.is_empty());
    assert_eq!(identity.serial, 0xffff_ffff);
    assert_eq!(SlaveIdentity::default().vendor_id, 0);
}

#[test]
fn slave_ref_keeps_its_address() {
    let slave = SlaveRef::new(0x1001);
    assert_eq!(slave.configured_address, 0x1001);
    assert_eq!(slave.eeprom().configured_address, 0x1001);
}

#[test]
fn slave_without_a_name_is_unknown() {
    let slave = Slave::new(0x1003, SlaveIdentity::default(), None);
    assert_eq!(slave.name.as_str(), "(unknown)");
    assert_eq!(slave.configured_address, 0x1003);
    let named = Slave::new(0x1004, SlaveIdentity::default(), Some("EL2004".into()));
    assert_eq!(named.name.as_str(), "EL2004");
}

#[test]
fn eeprom_is_handed_over_with_two_writes() {
    let slave = SlaveRef::new(ADDRESS);
    assert_eq!(slave.set_eeprom_mode(SiiOwner::Master), vec![word(2), word(0)]);
    assert_eq!(slave.set_eeprom_mode(SiiOwner::Pdi), vec![word(2), word(1)]);
}

#[test]
fn state_is_requested_and_then_awaited() {
    let slave = SlaveRef::new(ADDRESS);
    assert_eq!(
        slave.request_slave_state(SlaveState::SafeOp),
        vec![
            write(
                RegisterAddress::AlControl,
                RegisterValue::AlControl(AlControl { state: SlaveState::SafeOp, error: false })
            ),
            SlaveStep::AwaitState { address: ADDRESS, state: SlaveState::SafeOp },
        ]
    );
}

#[test]
fn status_pairs_state_and_code() {
    let slave = SlaveRef::new(ADDRESS);
    let status = slave.status(AlControl { state: SlaveState::PreOp, error: true }, AlStatusCode(0x001e));
    assert_eq!(status, (SlaveState::PreOp, AlStatusCode(0x001e)));
}

#[test]
fn states_follow_each_other() {
    assert_eq!(SlaveState::Init.next(), Some(SlaveState::PreOp));
    assert_eq!(SlaveState::PreOp.next(), Some(SlaveState::SafeOp));
    assert_eq!(SlaveState::SafeOp.next(), Some(SlaveState::Op));
    assert_eq!(SlaveState::Op.next(), None);
    assert_eq!(SlaveState::Bootstrap.next(), None);
}

#[test]
fn al_status_is_read_from_its_low_byte() {
    assert_eq!(AlControl::parse(&[0x04, 0x00]), Some(AlControl { state: SlaveState::SafeOp, error: false }));
    assert_eq!(AlControl::parse(&[0x12, 0x00]), Some(AlControl { state: SlaveState::PreOp, error: true }));
    assert_eq!(AlControl::parse(&[0x08, 0xff]), Some(AlControl { state: SlaveState::Op, error: false }));
    assert_eq!(AlControl::parse(&[0x01, 0x00, 0x00]).unwrap().state, SlaveState::Init);
    assert_eq!(AlControl::parse(&[0x03, 0x00]).unwrap().state, SlaveState::Bootstrap);
    assert_eq!(AlControl::parse(&[0x07, 0x00]).unwrap().state, SlaveState::Unknown);
    assert_eq!(AlControl::parse(&[0x04]), None);
}

#[test]
fn registers_have_their_addresses() {
    assert_eq!(RegisterAddress::AlControl.address(), 0x0120);
    assert_eq!(RegisterAddress::AlStatus.address(), 0x0130);
    assert_eq!(RegisterAddress::AlStatusCode.address(), 0x0134);
    assert_eq!(RegisterAddress::SiiConfig.address(), 0x0500);
    assert_eq!(RegisterAddress::SiiControl.address(), 0x0502);
    assert_eq!(RegisterAddress::SiiAddress.address(), 0x0504);
    assert_eq!(RegisterAddress::SiiData.address(), 0x0508);
    assert_eq!(RegisterAddress::Fmmu(0).address(), 0x0600);
    assert_eq!(RegisterAddress::Fmmu(3).address(), 0x0630);
    assert_eq!(RegisterAddress::Fmmu(255).address(), 0x15f0);
    assert_eq!(RegisterAddress::SyncManager(2).address(), 0x0810);
    assert_eq!(RegisterAddress::SyncManager(255).address(), 0x0ff8);
}

#[test]
fn direction_names_its_sync_manager_and_fmmu() {
    assert_eq!(
        PdoDirection::MasterRead.filter_terms(),
        (SyncManagerType::ProcessDataRead, FmmuUsage::Inputs)
    );
    assert_eq!(
        PdoDirection::MasterWrite.filter_terms(),
        (SyncManagerType::ProcessDataWrite, FmmuUsage::Outputs)
    );
}

#[test]
fn offsets_move_by_whole_bytes() {
    assert_eq!(at(10).increment_byte_aligned(0), Some(at(10)));
    assert_eq!(at(10).increment_byte_aligned(1), Some(at(11)));
    assert_eq!(at(10).increment_byte_aligned(8), Some(at(11)));
    assert_eq!(at(10).increment_byte_aligned(9), Some(at(12)));
    assert_eq!(at(0).increment_byte_aligned(0xffff), Some(at(8192)));
    assert_eq!(
        PdiOffset { start_address: 1, start_bit: 3 }.increment_byte_aligned(4),
        Some(at(2))
    );
    assert_eq!(at(u32::MAX).increment_byte_aligned(1), None);
    assert_eq!(at(u32::MAX).increment_byte_aligned(0), Some(at(u32::MAX)));
    assert_eq!(at(0).end_bit(0), 0);
    assert_eq!(at(0).end_bit(1), 0);
    assert_eq!(at(0).end_bit(8), 7);
    assert_eq!(at(0).end_bit(12), 3);
    assert_eq!(PdiOffset { start_address: 0, start_bit: 2 }.end_bit(3), 4);
    let segment = at(4).up_to(at(9), 33);
    assert_eq!(segment, PdiSegment { bit_len: 33, start: 4, end: 9 });
    assert_eq!(segment.len(), 5);
    assert_eq!(segment.bytes(), 4..9);
    assert_eq!(PdiSegment { bit_len: 0, start: 9, end: 4 }.len(), 0);
}

#[test]
fn sync_manager_config_follows_the_eeprom() {
    let slave = SlaveRef::new(ADDRESS);
    let mut described = sync_manager(SyncManagerType::ProcessDataRead, 0x1180);
    let (config, step) = slave.write_sm_config(3, &described, 6);
    assert_eq!(config, channel(0x1180, 6));
    assert_eq!(step, write(RegisterAddress::SyncManager(3), RegisterValue::SyncManager(config)));
    described.enable = 0x02;
    let (config, _) = slave.write_sm_config(3, &described, 6);
    assert!(!config.enable);
}

#[test]
fn pdo_bits_are_summed_per_sync_manager() {
    let pdos = vec![pdo(3, 16), pdo(2, 8), pdo(3, 1), pdo(3, 0)];
    assert_eq!(sum_pdo_bits(&pdos, 3), Some(17));
    assert_eq!(sum_pdo_bits(&pdos, 2), Some(8));
    assert_eq!(sum_pdo_bits(&pdos, 0), Some(0));
    assert_eq!(sum_pdo_bits(&[pdo(1, 0xffff)], 1), Some(0xffff));
    assert_eq!(sum_pdo_bits(&[pdo(1, 0xffff), pdo(1, 1)], 1), None);
    assert_eq!(sum_pdo_bits(&[pdo(1, 0xffff), pdo(2, 1)], 1), Some(0xffff));
}

#[test]
fn fmmu_comes_from_the_extended_section_or_from_the_usage() {
    let usage = vec![FmmuUsage::Outputs, FmmuUsage::Inputs, FmmuUsage::Inputs];
    // Named in the extended section: the FMMU of the sync manager's own index.
    assert_eq!(find_fmmu(&[FmmuEx { sync_manager: 3 }], &usage, 3, FmmuUsage::Inputs, &[]), Some(3));
    assert_eq!(find_fmmu(&[FmmuEx { sync_manager: 3 }], &[], 3, FmmuUsage::Inputs, &[]), Some(3));
    // Else the first FMMU of the kind.
    assert_eq!(find_fmmu(&[FmmuEx { sync_manager: 2 }], &usage, 3, FmmuUsage::Inputs, &[]), Some(1));
    assert_eq!(find_fmmu(&[], &usage, 3, FmmuUsage::Outputs, &[]), Some(0));
    assert_eq!(find_fmmu(&[], &usage, 3, FmmuUsage::SyncManagerStatus, &[]), None);
    assert_eq!(find_fmmu(&[], &[], 3, FmmuUsage::Inputs, &[]), None);
}

#[test]
fn inputs_get_a_sync_manager_and_an_fmmu() {
    let slave = SlaveRef::new(ADDRESS);
    let plan = slave.configure_pdos(
        &sync_managers(),
        &[pdo(3, 16), pdo(3, 4)],
        &[],
        &[FmmuUsage::Outputs, FmmuUsage::Inputs],
        PdoDirection::MasterRead,
        at(0x100),
        vec![],
    );
    let config = channel(0x1180, 3);
    assert_eq!(
        plan.steps,
        vec![
            write(RegisterAddress::SyncManager(3), RegisterValue::SyncManager(config)),
            write(
                RegisterAddress::Fmmu(1),
                RegisterValue::Fmmu(Fmmu {
                    logical_start_address: 0x100,
                    length_bytes: 3,
                    logical_start_bit: 0,
                    logical_end_bit: 3,
                    physical_start_address: 0x1180,
                    physical_start_bit: 0,
                    read_enable: true,
                    write_enable: false,
                    enable: true,
                })
            ),
        ]
    );
    assert_eq!(plan.offset, at(0x103));
    assert_eq!(plan.segment, Ok(Some(PdiSegment { bit_len: 20, start: 0x100, end: 0x103 })));
}

#[test]
fn each_sync_manager_of_the_direction_gets_its_bytes() {
    let slave = SlaveRef::new(ADDRESS);
    let sms = vec![
        sync_manager(SyncManagerType::ProcessDataWrite, 0x1100),
        sync_manager(SyncManagerType::ProcessDataRead, 0x1180),
        sync_manager(SyncManagerType::ProcessDataWrite, 0x1200),
    ];
    let plan = slave.configure_pdos(
        &sms,
        &[pdo(0, 9), pdo(2, 32), pdo(1, 8)],
        &[FmmuEx { sync_manager: 2 }],
        &[FmmuUsage::Inputs, FmmuUsage::Outputs],
        PdoDirection::MasterWrite,
        at(0),
        vec![],
    );
    let fmmu = |start: u32, len: u16, end_bit: u8, physical: u16| {
        RegisterValue::Fmmu(Fmmu {
            logical_start_address: start,
            length_bytes: len,
            logical_start_bit: 0,
            logical_end_bit: end_bit,
            physical_start_address: physical,
            physical_start_bit: 0,
            read_enable: false,
            write_enable: true,
            enable: true,
        })
    };
    assert_eq!(
        plan.steps,
        vec![
            write(RegisterAddress::SyncManager(0), RegisterValue::SyncManager(channel(0x1100, 2))),
            write(RegisterAddress::Fmmu(1), fmmu(0, 2, 0, 0x1100)),
            write(RegisterAddress::SyncManager(2), RegisterValue::SyncManager(channel(0x1200, 4))),
            write(RegisterAddress::Fmmu(2), fmmu(2, 4, 7, 0x1200)),
        ]
    );
    assert_eq!(plan.offset, at(6));
    assert_eq!(plan.segment, Ok(Some(PdiSegment { bit_len: 41, start: 0, end: 6 })));
}

#[test]
fn direction_without_bits_has_no_segment() {
    let slave = SlaveRef::new(ADDRESS);
    let plan = slave.configure_pdos(
        &sync_managers(),
        &[],
        &[],
        &[FmmuUsage::Outputs, FmmuUsage::Inputs],
        PdoDirection::MasterWrite,
        at(7),
        vec![],
    );
    assert_eq!(plan.segment, Ok(None));
    assert_eq!(plan.offset, at(7));
    assert_eq!(plan.steps.len(), 2);

    let none = slave.configure_pdos(&[], &[pdo(0, 8)], &[], &[], PdoDirection::MasterWrite, at(7), vec![]);
    assert_eq!(none.segment, Ok(None));
    assert!(none.steps.is_empty());
}

#[test]
fn sync_manager_without_fmmu_cannot_be_mapped() {
    let slave = SlaveRef::new(ADDRESS);
    let sms = vec![
        sync_manager(SyncManagerType::ProcessDataRead, 0x1180),
        sync_manager(SyncManagerType::ProcessDataRead, 0x1200),
    ];
    // The first sync manager is named in the extended section, the second has no FMMU.
    let plan = slave.configure_pdos(
        &sms,
        &[pdo(0, 8), pdo(1, 8)],
        &[FmmuEx { sync_manager: 0 }],
        &[FmmuUsage::Outputs],
        PdoDirection::MasterRead,
        at(0),
        vec![],
    );
    assert_eq!(plan.segment, Err(Error::Other));
    // The writes for the first one come before the failure.
    assert_eq!(plan.steps.len(), 2);
}

#[test]
fn lengths_beyond_sixteen_bits_cannot_be_mapped() {
    let slave = SlaveRef::new(ADDRESS);
    let sms = vec![sync_manager(SyncManagerType::ProcessDataRead, 0x1180)];
    let usage = [FmmuUsage::Inputs];
    let fits = slave.configure_pdos(&sms, &[pdo(0, 0xffff)], &[], &usage, PdoDirection::MasterRead, at(0), vec![]);
    assert_eq!(fits.segment, Ok(Some(PdiSegment { bit_len: 0xffff, start: 0, end: 8192 })));
    let over = slave.configure_pdos(
        &sms,
        &[pdo(0, 0xffff), pdo(0, 1)],
        &[],
        &usage,
        PdoDirection::MasterRead,
        at(0),
        vec![],
    );
    assert_eq!(over.segment, Err(Error::Other));
    assert!(over.steps.is_empty());
    let end_of_space = slave.configure_pdos(
        &sms,
        &[pdo(0, 16)],
        &[],
        &usage,
        PdoDirection::MasterRead,
        at(u32::MAX - 1),
        vec![],
    );
    assert_eq!(end_of_space.segment, Err(Error::Other));
}

#[test]
fn mailboxes_get_the_sizes_of_the_mailbox_section() {
    let slave = SlaveRef::new(ADDRESS);
    let mailbox = MailboxConfig {
        slave_receive_offset: 0x1000,
        slave_receive_size: 128,
        slave_send_offset: 0x1080,
        slave_send_size: 64,
    };
    assert!(mailbox.has_mailbox());
    assert_eq!(
        slave.configure_mailboxes(&sync_managers(), &mailbox),
        vec![
            write(RegisterAddress::SyncManager(0), RegisterValue::SyncManager(channel(0x1000, 128))),
            write(RegisterAddress::SyncManager(1), RegisterValue::SyncManager(channel(0x1080, 64))),
        ]
    );
    let none = MailboxConfig { slave_send_size: 0, ..mailbox };
    assert!(!none.has_mailbox());
    assert!(slave.configure_mailboxes(&sync_managers(), &none).is_empty());
}

#[test]
fn way_to_pre_op_hands_the_eeprom_back_and_forth() {
    let slave = SlaveRef::new(ADDRESS);
    let mailbox = MailboxConfig {
        slave_receive_offset: 0x1000,
        slave_receive_size: 128,
        slave_send_offset: 0x1080,
        slave_send_size: 64,
    };
    let steps = slave.configure_from_eeprom_safe_op(&sync_managers(), &mailbox);
    let mut expected = vec![word(2), word(0)];
    expected.extend(slave.configure_mailboxes(&sync_managers(), &mailbox));
    expected.extend(vec![word(2), word(1)]);
    expected.extend(slave.request_slave_state(SlaveState::PreOp));
    expected.extend(vec![word(2), word(0)]);
    assert_eq!(steps.len(), 10);
    assert_eq!(steps, expected);
}

#[test]
fn way_to_safe_op_lays_outputs_before_inputs() {
    let slave = SlaveRef::new(ADDRESS);
    let usage = [FmmuUsage::Outputs, FmmuUsage::Inputs];
    let plan = slave.configure_from_eeprom_pre_op(
        &sync_managers(),
        &[pdo(2, 12)],
        &[pdo(3, 16), pdo(3, 16)],
        &usage,
        &[],
        at(0x20),
    );
    assert_eq!(
        plan.layout,
        Ok(IoLayout {
            offset: at(0x26),
            inputs: Some(PdiSegment { bit_len: 32, start: 0x22, end: 0x26 }),
            outputs: Some(PdiSegment { bit_len: 12, start: 0x20, end: 0x22 }),
        })
    );
    let outputs = slave.configure_pdos(&sync_managers(), &[pdo(2, 12)], &[], &usage, PdoDirection::MasterWrite, at(0x20), vec![]);
    let inputs = slave.configure_pdos(&sync_managers(), &[pdo(3, 16), pdo(3, 16)], &[], &usage, PdoDirection::MasterRead, at(0x22), vec![]);
    let mut expected = outputs.steps;
    expected.extend(inputs.steps);
    expected.extend(vec![word(2), word(1)]);
    expected.extend(slave.request_slave_state(SlaveState::SafeOp));
    assert_eq!(plan.steps.len(), 8);
    assert_eq!(plan.steps, expected);
}

#[test]
fn way_to_safe_op_ends_where_a_direction_fails() {
    let slave = SlaveRef::new(ADDRESS);
    // Outputs can be mapped, inputs find no FMMU.
    let plan = slave.configure_from_eeprom_pre_op(
        &sync_managers(),
        &[pdo(2, 8)],
        &[pdo(3, 8)],
        &[FmmuUsage::Outputs],
        &[],
        at(0),
    );
    assert_eq!(plan.layout, Err(Error::Other));
    assert_eq!(plan.steps.len(), 2);
    assert!(plan.steps.iter().all(|step| !matches!(step, SlaveStep::AwaitState { .. })));
}

#[test]
fn index_of_a_sync_manager_is_its_position_modulo_256() {
    let slave = SlaveRef::new(ADDRESS);
    let mut sms = vec![sync_manager(SyncManagerType::Unknown, 0); 256];
    sms.push(sync_manager(SyncManagerType::MailboxRead, 0x1080));
    sms.push(sync_manager(SyncManagerType::ProcessDataRead, 0x1180));
    let mailbox = MailboxConfig {
        slave_receive_offset: 0x1000,
        slave_receive_size: 128,
        slave_send_offset: 0x1080,
        slave_send_size: 64,
    };
    assert_eq!(
        slave.configure_mailboxes(&sms, &mailbox),
        vec![write(RegisterAddress::SyncManager(0), RegisterValue::SyncManager(channel(0x1080, 64)))]
    );
    let plan = slave.configure_pdos(
        &sms,
        &[pdo(1, 8), pdo(0, 16)],
        &[],
        &[FmmuUsage::Inputs],
        PdoDirection::MasterRead,
        at(0),
        vec![],
    );
    assert_eq!(plan.segment, Ok(Some(PdiSegment { bit_len: 8, start: 0, end: 1 })));
    assert_eq!(
        plan.steps[0],
        write(RegisterAddress::SyncManager(1), RegisterValue::SyncManager(channel(0x1180, 1)))
    );
}

#[test]
fn each_sync_manager_gets_an_fmmu_of_its_own() {
    let slave = SlaveRef::new(ADDRESS);
    let sms = vec![
        sync_manager(SyncManagerType::MailboxWrite, 0x1000),
        sync_manager(SyncManagerType::MailboxRead, 0x1080),
        sync_manager(SyncManagerType::ProcessDataRead, 0x1100),
        sync_manager(SyncManagerType::ProcessDataRead, 0x1180),
    ];
    let plan = slave.configure_pdos(
        &sms,
        &[pdo(2, 8), pdo(3, 8)],
        &[],
        &[FmmuUsage::Inputs, FmmuUsage::Inputs],
        PdoDirection::MasterRead,
        at(0),
        vec![],
    );
    let registers: Vec<RegisterAddress> = plan
        .steps
        .iter()
        .map(|step| match step {
            SlaveStep::Write { register, .. } => *register,
            SlaveStep::AwaitState { .. } => panic!("a mapping waits for nothing"),
        })
        .collect();
    assert_eq!(
        registers,
        vec![
            RegisterAddress::SyncManager(2),
            RegisterAddress::Fmmu(0),
            RegisterAddress::SyncManager(3),
            RegisterAddress::Fmmu(1),
        ]
    );
    assert_eq!(plan.taken, vec![0, 1]);
    assert_eq!(plan.segment, Ok(Some(PdiSegment { bit_len: 16, start: 0, end: 2 })));
}

#[test]
fn sync_manager_fails_where_no_fmmu_is_left() {
    let slave = SlaveRef::new(ADDRESS);
    let sms = vec![
        sync_manager(SyncManagerType::ProcessDataRead, 0x1100),
        sync_manager(SyncManagerType::ProcessDataRead, 0x1180),
    ];
    let plan = slave.configure_pdos(
        &sms,
        &[pdo(0, 8), pdo(1, 8)],
        &[],
        &[FmmuUsage::Outputs, FmmuUsage::Inputs],
        PdoDirection::MasterRead,
        at(0),
        vec![],
    );
    // The one FMMU for inputs maps the first sync manager.
    assert_eq!(plan.segment, Err(Error::Other));
    assert_eq!(plan.steps.len(), 2);
    assert_eq!(plan.taken, vec![1]);
}

#[test]
fn fmmu_that_is_taken_is_not_chosen_by_its_usage() {
    let usage = [FmmuUsage::Inputs, FmmuUsage::Outputs, FmmuUsage::Inputs];
    assert_eq!(find_fmmu(&[], &usage, 5, FmmuUsage::Inputs, &[]), Some(0));
    assert_eq!(find_fmmu(&[], &usage, 5, FmmuUsage::Inputs, &[0]), Some(2));
    assert_eq!(find_fmmu(&[], &usage, 5, FmmuUsage::Inputs, &[2, 0]), None);
    assert_eq!(find_fmmu(&[], &usage, 5, FmmuUsage::Outputs, &[0, 2]), Some(1));
    // The extended section names the FMMU whatever is taken.
    assert_eq!(find_fmmu(&[FmmuEx { sync_manager: 0 }], &usage, 0, FmmuUsage::Inputs, &[0]), Some(0));
    assert!(is_taken(&[3, 1], 1));
    assert!(!is_taken(&[3, 1], 2));
    assert!(!is_taken(&[], 0));
}

#[test]
fn fmmus_of_the_outputs_are_taken_when_the_inputs_are_mapped() {
    let slave = SlaveRef::new(ADDRESS);
    // The extended section gives FMMU 2 to the outputs; by their usage the
    // inputs would get FMMU 2 as well, and get FMMU 3 instead.
    let usage = [FmmuUsage::Unused, FmmuUsage::Unused, FmmuUsage::Inputs, FmmuUsage::Inputs];
    let plan = slave.configure_from_eeprom_pre_op(
        &sync_managers(),
        &[pdo(2, 8)],
        &[pdo(3, 8)],
        &usage,
        &[FmmuEx { sync_manager: 2 }],
        at(0),
    );
    assert!(plan.layout.is_ok());
    let fmmus: Vec<RegisterAddress> = plan
        .steps
        .iter()
        .filter_map(|step| match step {
            SlaveStep::Write { register: RegisterAddress::Fmmu(index), .. } => {
                Some(RegisterAddress::Fmmu(*index))
            }
            _ => None,
        })
        .collect();
    assert_eq!(fmmus, vec![RegisterAddress::Fmmu(2), RegisterAddress::Fmmu(3)]);
}

#[test]
fn state_codes_go_both_ways() {
    let states = [
        (SlaveState::Init, 0x01),
        (SlaveState::PreOp, 0x02),
        (SlaveState::Bootstrap, 0x03),
        (SlaveState::SafeOp, 0x04),
        (SlaveState::Op, 0x08),
        (SlaveState::Unknown, 0x00),
    ];
    for (state, code) in states {
        assert_eq!(state.code(), code);
        assert_eq!(SlaveState::from_code(code), state);
    }
    assert_eq!(SlaveState::from_code(0x0f), SlaveState::Unknown);
    assert_eq!(AlStatusCode::parse(&[0x1e, 0x00]), Some(AlStatusCode(0x001e)));
    assert_eq!(AlStatusCode::parse(&[0x34, 0x12, 0xff]), Some(AlStatusCode(0x1234)));
    assert_eq!(AlStatusCode::parse(&[0x34]), None);
}

#[test]
fn identity_prints_vendor_and_product_in_hexadecimal() {
    let identity = SlaveIdentity {
        vendor_id: 0x0000_0002,
        product_id: 0x0444_3052,
        revision: 0x0011_0000,
        serial: 0x1234_5678,
    };
    assert_eq!(
        identity.to_text(),
        "SlaveIdentity { vendor_id: 0x00000002, product_id: 0x04443052, revision: 1114112, serial: 305419896 }"
    );
    assert_eq!(
        SlaveIdentity::default().to_text(),
        "SlaveIdentity { vendor_id: 0x00000000, product_id: 0x00000000, revision: 0, serial: 0 }"
    );
    let greatest = SlaveIdentity {
        vendor_id: u32::MAX,
        product_id: 0xdead_beef,
        revision: u32::MAX,
        serial: 10,
    };
    assert_eq!(
        greatest.to_text(),
        "SlaveIdentity { vendor_id: 0xffffffff, product_id: 0xdeadbeef, revision: 4294967295, serial: 10 }"
    );
}
