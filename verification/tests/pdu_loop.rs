use ethercrab::command::Command;
use ethercrab::error::Error;
use ethercrab::frame::{decode_frame, encode_frame, Pdu};
use ethercrab::pdu_loop::{PduLoop, PollOutcome, SlotState};

const READ: Command = Command::Fprd { address: 0x1001, register: 0x0130 };

/// The frame in which the slaves answer: it comes from another address than
/// the master's.
fn answer_frame(pdus: &[Pdu]) -> Vec<u8> {
    let mut frame = encode_frame(pdus).unwrap();
    frame[6] = 0x12;
    frame
}

fn answer(index: u8, data: Vec<u8>, working_counter: u16) -> Pdu {
    Pdu { command: READ, index, data, working_counter }
}

fn ready(outcome: PollOutcome) -> (Vec<u8>, u16) {
    match outcome {
        PollOutcome::Ready(response) => (response.data, response.working_counter),
        PollOutcome::Pending => panic!("pending"),
        PollOutcome::Vacant => panic!("vacant"),
    }
}

#[test]
fn new_table_is_empty() {
    let table = PduLoop::<4, 16>::new();
    assert_eq!(table.len(), 4);
    for index in 0..4 {
        assert_eq!(table.state(index), SlotState::Empty);
    }
    assert_eq!(table.state(4), SlotState::Empty);
}

#[test]
fn indices_count_up_and_wrap_at_the_table_size() {
    let mut table = PduLoop::<3, 16>::new();
    assert_eq!(table.request(READ, &[0, 0]), Ok(0));
    assert_eq!(table.request(READ, &[0, 0]), Ok(1));
    assert_eq!(table.request(READ, &[0, 0]), Ok(2));
    table.release(0);
    assert_eq!(table.request(READ, &[0, 0]), Ok(0));
    assert_eq!(table.state(0), SlotState::SendPending);
}

#[test]
fn index_counter_wraps_at_eight_bits() {
    let mut table = PduLoop::<3, 16>::new();
    // Requests 0 to 255 get the indices 0, 1, 2, 0, ... and the last one 255 % 3 == 0.
    for count in 0..256usize {
        let index = table.request(READ, &[]).unwrap();
        assert_eq!(index as usize, count % 3);
        table.release(index);
    }
    // The counter is back at 0, so index 0 comes twice in a row.
    assert_eq!(table.request(READ, &[]), Ok(0));
}

#[test]
fn request_on_busy_slot_fails_and_keeps_the_slot() {
    let mut table = PduLoop::<1, 16>::new();
    assert_eq!(table.request(READ, &[1, 2, 3]), Ok(0));
    assert_eq!(
        table.request(Command::Bwr { address: 0, register: 0x0120 }, &[9, 9]),
        Err(Error::IndexInUse)
    );
    // Too long and busy: the contention comes first.
    assert_eq!(table.request(READ, &[0; 17]), Err(Error::IndexInUse));
    assert_eq!(table.state(0), SlotState::SendPending);
    let frame = table.next_frame().unwrap();
    let sent = decode_frame(&frame).unwrap();
    assert_eq!(sent.len(), 1);
    assert_eq!(sent[0].command, READ);
    assert_eq!(sent[0].data, vec![1, 2, 3]);

    // Also while the answer is awaited, and while it waits to be fetched.
    assert_eq!(table.request(READ, &[7]), Err(Error::IndexInUse));
    assert_eq!(table.state(0), SlotState::AwaitingResponse);
    table.receive(&answer_frame(&[answer(0, vec![4, 5, 6], 1)])).unwrap();
    assert_eq!(table.request(READ, &[7]), Err(Error::IndexInUse));
    assert_eq!(ready(table.poll(0)), (vec![4, 5, 6], 1));
    assert_eq!(table.request(READ, &[7]), Ok(0));
}

#[test]
fn request_with_too_much_data_fails() {
    let mut table = PduLoop::<2, 4>::new();
    assert_eq!(table.request(READ, &[0; 5]), Err(Error::PduTooLong));
    assert_eq!(table.state(0), SlotState::Empty);
    // The index is used up all the same.
    assert_eq!(table.request(READ, &[0; 4]), Ok(1));
}

#[test]
fn next_frame_carries_all_pending_requests() {
    let mut table = PduLoop::<4, 16>::new();
    assert!(table.next_frame().is_none());
    table.request(READ, &[1]).unwrap();
    table.request(Command::Lrw { address: 0x10 }, &[2, 3]).unwrap();
    let frame = table.next_frame().unwrap();
    let sent = decode_frame(&frame).unwrap();
    assert_eq!(sent.len(), 2);
    assert_eq!((sent[0].index, sent[0].command, sent[0].data.clone()), (0, READ, vec![1]));
    assert_eq!(
        (sent[1].index, sent[1].command, sent[1].data.clone()),
        (1, Command::Lrw { address: 0x10 }, vec![2, 3])
    );
    assert_eq!(sent[0].working_counter, 0);
    assert_eq!(table.state(0), SlotState::AwaitingResponse);
    assert_eq!(table.state(1), SlotState::AwaitingResponse);
    assert_eq!(table.state(2), SlotState::Empty);
    assert!(table.next_frame().is_none());
}

#[test]
fn next_frame_takes_what_fits_and_leaves_the_rest() {
    let mut table = PduLoop::<3, 1000>::new();
    table.request(READ, &[1; 1000]).unwrap();
    table.request(READ, &[2; 1000]).unwrap();
    table.request(READ, &[3; 400]).unwrap();
    // 1012 bytes for the first; the second would make 2024; the third makes 1424.
    let first = decode_frame(&table.next_frame().unwrap()).unwrap();
    assert_eq!(first.iter().map(|pdu| pdu.index).collect::<Vec<u8>>(), vec![0, 2]);
    assert_eq!(table.state(1), SlotState::SendPending);
    let second = decode_frame(&table.next_frame().unwrap()).unwrap();
    assert_eq!(second.iter().map(|pdu| pdu.index).collect::<Vec<u8>>(), vec![1]);
    assert!(table.next_frame().is_none());
}

#[test]
fn answers_are_matched_by_index_in_any_order() {
    let mut table = PduLoop::<4, 16>::new();
    for data in [[10u8, 0], [11, 0], [12, 0]] {
        table.request(READ, &data).unwrap();
    }
    table.next_frame().unwrap();
    // The answers arrive in another order than the requests went out.
    table.receive(&answer_frame(&[answer(2, vec![2, 2], 1)])).unwrap();
    table.receive(&answer_frame(&[answer(0, vec![0, 0], 3), answer(1, vec![1, 1], 2)])).unwrap();
    assert_eq!(ready(table.poll(1)), (vec![1, 1], 2));
    assert_eq!(ready(table.poll(2)), (vec![2, 2], 1));
    assert_eq!(ready(table.poll(0)), (vec![0, 0], 3));
    for index in 0..4 {
        assert_eq!(table.state(index), SlotState::Empty);
    }
}

#[test]
fn poll_wakes_the_caller_that_waits() {
    let mut table = PduLoop::<4, 16>::new();
    table.request(READ, &[0, 0]).unwrap();
    table.request(READ, &[0, 0]).unwrap();
    assert!(matches!(table.poll(0), PollOutcome::Pending));
    table.next_frame().unwrap();
    assert!(matches!(table.poll(0), PollOutcome::Pending));
    // Only the caller of request 0 has asked to be woken.
    let wakes = table.receive(&answer_frame(&[answer(1, vec![1, 1], 1), answer(0, vec![2, 2], 1)]));
    assert_eq!(wakes, Ok(vec![0]));
    assert_eq!(ready(table.poll(0)), (vec![2, 2], 1));
    assert!(matches!(table.poll(0), PollOutcome::Vacant));
    assert!(matches!(table.poll(200), PollOutcome::Vacant));
}

#[test]
fn unexpected_answers_are_dropped() {
    let mut table = PduLoop::<4, 16>::new();
    table.request(READ, &[1, 1]).unwrap();
    table.request(READ, &[2, 2]).unwrap();
    table.next_frame().unwrap();
    table.request(READ, &[3, 3]).unwrap();

    // Slot 3 is empty, slot 2 is not sent yet, index 9 is outside the table.
    for index in [3u8, 2, 9] {
        assert_eq!(table.receive(&answer_frame(&[answer(index, vec![7, 7], 1)])), Ok(vec![]));
    }
    // Another command, or another length, than the request had.
    let other = Pdu { command: Command::Brd { address: 0x1001, register: 0x0130 }, index: 0, data: vec![7, 7], working_counter: 1 };
    assert_eq!(table.receive(&answer_frame(&[other])), Ok(vec![]));
    assert_eq!(table.receive(&answer_frame(&[answer(0, vec![7], 1)])), Ok(vec![]));

    assert_eq!(table.state(0), SlotState::AwaitingResponse);
    assert_eq!(table.state(1), SlotState::AwaitingResponse);
    assert_eq!(table.state(2), SlotState::SendPending);
    assert_eq!(table.state(3), SlotState::Empty);

    // The slots still get their own answers, and request 2 is still sent as it was.
    table.receive(&answer_frame(&[answer(1, vec![5, 5], 1)])).unwrap();
    assert_eq!(ready(table.poll(1)), (vec![5, 5], 1));
    let sent = decode_frame(&table.next_frame().unwrap()).unwrap();
    assert_eq!((sent[0].index, sent[0].data.clone()), (2, vec![3, 3]));
    // An answer that comes twice is dropped the second time.
    table.receive(&answer_frame(&[answer(0, vec![6, 6], 1)])).unwrap();
    assert_eq!(table.receive(&answer_frame(&[answer(0, vec![8, 8], 1)])), Ok(vec![]));
    assert_eq!(ready(table.poll(0)), (vec![6, 6], 1));
}

#[test]
fn own_frames_and_other_protocols_are_ignored() {
    let mut table = PduLoop::<2, 16>::new();
    table.request(READ, &[0, 0]).unwrap();
    let sent = table.next_frame().unwrap();
    // The frame of the master itself, back before a slave touched it.
    assert_eq!(table.receive(&sent), Ok(vec![]));
    assert_eq!(table.state(0), SlotState::AwaitingResponse);

    let mut arp = answer_frame(&[answer(0, vec![1, 1], 1)]);
    arp[12] = 0x08;
    arp[13] = 0x06;
    assert_eq!(table.receive(&arp), Ok(vec![]));
    assert_eq!(table.state(0), SlotState::AwaitingResponse);
}

#[test]
fn malformed_frames_fail_and_change_nothing() {
    let mut table = PduLoop::<2, 16>::new();
    table.request(READ, &[0, 0]).unwrap();
    table.request(READ, &[0, 0]).unwrap();
    table.next_frame().unwrap();
    assert_eq!(table.receive(&[0u8; 13]), Err(Error::InvalidFrame));
    // The first PDU is fine, the second is cut off: neither is taken.
    let frame = answer_frame(&[answer(0, vec![1, 1], 1), answer(1, vec![2, 2], 1)]);
    let mut cut = frame[..frame.len() - 3].to_vec();
    cut[14] = (cut.len() - 16) as u8;
    assert_eq!(table.receive(&cut), Err(Error::InvalidFrame));
    assert_eq!(table.state(0), SlotState::AwaitingResponse);
    assert_eq!(table.state(1), SlotState::AwaitingResponse);
    assert_eq!(table.receive(&frame), Ok(vec![]));
    assert_eq!(table.state(0), SlotState::Received);
    assert_eq!(table.state(1), SlotState::Received);
}

#[test]
fn timeout_frees_the_slot_and_late_answers_are_dropped() {
    let mut table = PduLoop::<2, 16>::new();
    table.request(READ, &[0, 0]).unwrap();
    table.next_frame().unwrap();
    assert_eq!(table.timeout(0), Error::Timeout);
    assert_eq!(table.state(0), SlotState::Empty);
    // The answer comes after the timeout.
    assert_eq!(table.receive(&answer_frame(&[answer(0, vec![1, 1], 1)])), Ok(vec![]));
    assert_eq!(table.state(0), SlotState::Empty);
    assert!(matches!(table.poll(0), PollOutcome::Vacant));
    // The timeout comes after the answer was fetched, or twice.
    table.release(0);
    table.release(77);
    assert_eq!(table.state(0), SlotState::Empty);
    table.request(READ, &[0, 0]).unwrap();
    assert_eq!(table.state(1), SlotState::SendPending);
}
