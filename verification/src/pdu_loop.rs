use crate::command::{Command, PduResponse};
use crate::error::Error;
use crate::frame::{
    decode_frame, encode_pdu, frame_bytes, master_address, parse_frame, payload_len, pdu_views,
    pdus_bytes, start_frame, PduView, ETHERNET_HEADER_LEN, ETHERTYPE_HIGH,
    ETHERTYPE_LOW, MASTER_ADDRESS_BYTE, MAX_FRAME_PAYLOAD, PDU_OVERHEAD,
};
use vstd::prelude::*;

verus! {

/// Where an exchange stands.
#[derive(Clone, Copy, Debug, PartialEq, Eq, Structural)]
pub enum SlotState {
    /// No exchange uses the slot.
    Empty,
    /// The request waits to be sent.
    SendPending,
    /// The request was sent and its answer is awaited.
    AwaitingResponse,
    /// The answer is there and waits to be fetched.
    Received,
}

/// One slot of the table: at most one exchange at a time.
pub struct PduSlot {
    /// Where the exchange stands.
    pub state: SlotState,
    /// The service of the request.
    pub command: Command,
    /// The data of the request, and after it of the answer.
    pub data: Vec<u8>,
    /// The working counter of the answer.
    pub working_counter: u16,
    /// Whether the caller asked to be woken when the answer is there.
    pub waiting: bool,
}

/// A slot with its data as a sequence.
pub struct SlotView {
    pub state: SlotState,
    pub command: Command,
    pub data: Seq<u8>,
    pub working_counter: u16,
    pub waiting: bool,
}

impl View for PduSlot {
    type V = SlotView;

    open spec fn view(&self) -> SlotView {
        SlotView {
            state: self.state,
            command: self.command,
            data: self.data@,
            working_counter: self.working_counter,
            waiting: self.waiting,
        }
    }
}

impl SlotView {
    /// The slot after its exchange has ended.
    pub open spec fn cleared(self) -> SlotView {
        SlotView {
            state: SlotState::Empty,
            data: Seq::empty(),
            working_counter: 0,
            waiting: false,
            ..self
        }
    }

    /// Whether `pdu` answers the request in the slot: the slot awaits an
    /// answer, and the PDU has the command byte and the length of the
    /// request.
    pub open spec fn answered_by(self, pdu: PduView) -> bool {
        &&& self.state == SlotState::AwaitingResponse
        &&& self.command.spec_code() == pdu.command.spec_code()
        &&& self.data.len() == pdu.data.len()
    }
}

/// The table of exchanges.
pub struct TableView {
    /// The slots, by index.
    pub slots: Seq<SlotView>,
    /// The number of requests made so far, modulo 256.
    pub counter: u8,
}

/// What `poll` finds in a slot.
pub enum PollOutcome {
    /// The answer.
    Ready(PduResponse),
    /// The answer is not there yet. The caller is woken when it is.
    Pending,
    /// The slot holds no exchange.
    Vacant,
}

/// What `poll` finds in a slot, with the data as a sequence.
pub enum PollView {
    Ready { data: Seq<u8>, working_counter: u16 },
    Pending,
    Vacant,
}

impl View for PollOutcome {
    type V = PollView;

    open spec fn view(&self) -> PollView {
        match self {
            PollOutcome::Ready(response) => PollView::Ready {
                data: response.data@,
                working_counter: response.working_counter,
            },
            PollOutcome::Pending => PollView::Pending,
            PollOutcome::Vacant => PollView::Vacant,
        }
    }
}

/// What a received frame is to the table.
pub enum Inbound {
    /// Not a well formed frame.
    Invalid,
    /// A frame of another protocol, or a frame of the master itself that
    /// came back before any slave touched it.
    Ignored,
    /// An EtherCAT frame with these PDUs.
    Pdus(Seq<PduView>),
}

/// What the frame `bytes` is to the table.
pub open spec fn inbound(bytes: Seq<u8>) -> Inbound {
    if bytes.len() < ETHERNET_HEADER_LEN {
        Inbound::Invalid
    } else if bytes[12] != ETHERTYPE_HIGH || bytes[13] != ETHERTYPE_LOW || bytes.subrange(6, 12)
        == master_address() {
        Inbound::Ignored
    } else {
        match parse_frame(bytes) {
            None => Inbound::Invalid,
            Some(pdus) => Inbound::Pdus(pdus),
        }
    }
}

impl TableView {
    /// The index that the next request gets: the count of requests modulo
    /// the size of the table.
    pub open spec fn next_index(self) -> int {
        self.counter as int % self.slots.len() as int
    }

    /// What a request gets: the contention error where the slot of its index
    /// is in use, the length error where its data is longer than `max_data`,
    /// else its index.
    pub open spec fn request_result(self, data: Seq<u8>, max_data: int) -> Result<u8, Error> {
        if self.slots[self.next_index()].state != SlotState::Empty {
            Err(Error::IndexInUse)
        } else if data.len() > max_data {
            Err(Error::PduTooLong)
        } else {
            Ok(self.next_index() as u8)
        }
    }

    /// The table after a request: the count goes up, and wraps at 8 bits.
    /// Where the request got an index, the slot of that index holds it and
    /// waits to be sent. No other slot changes.
    pub open spec fn after_request(self, command: Command, data: Seq<u8>, max_data: int) -> TableView {
        TableView {
            counter: if self.counter == u8::MAX {
                0u8
            } else {
                (self.counter + 1) as u8
            },
            slots: if self.request_result(data, max_data) is Ok {
                self.slots.update(
                    self.next_index(),
                    SlotView {
                        state: SlotState::SendPending,
                        command,
                        data,
                        working_counter: 0,
                        waiting: false,
                    },
                )
            } else {
                self.slots
            },
        }
    }

    /// What `poll` answers for the slot `index`.
    pub open spec fn poll_result(self, index: u8) -> PollView {
        if index >= self.slots.len() {
            PollView::Vacant
        } else {
            let slot = self.slots[index as int];
            match slot.state {
                SlotState::Empty => PollView::Vacant,
                SlotState::Received => PollView::Ready {
                    data: slot.data,
                    working_counter: slot.working_counter,
                },
                _ => PollView::Pending,
            }
        }
    }

    /// The table after `poll` on the slot `index`: a slot whose answer was
    /// fetched is empty again; a slot whose answer is not there yet remembers
    /// that its caller waits.
    pub open spec fn after_poll(self, index: u8) -> TableView {
        if index >= self.slots.len() {
            self
        } else {
            let slot = self.slots[index as int];
            match slot.state {
                SlotState::Empty => self,
                SlotState::Received => self.released(index),
                _ => TableView {
                    slots: self.slots.update(index as int, SlotView { waiting: true, ..slot }),
                    ..self
                },
            }
        }
    }

    /// Whether an answer PDU finds its slot.
    pub open spec fn accepts(self, pdu: PduView) -> bool {
        pdu.index < self.slots.len() && self.slots[pdu.index as int].answered_by(pdu)
    }

    /// The table after one PDU of a received frame has been looked at. A PDU
    /// that answers the request in the slot of its index puts its data and
    /// working counter there; any other PDU is dropped and changes nothing.
    pub open spec fn deliver(self, pdu: PduView) -> TableView {
        if self.accepts(pdu) {
            TableView {
                slots: self.slots.update(
                    pdu.index as int,
                    SlotView {
                        state: SlotState::Received,
                        data: pdu.data,
                        working_counter: pdu.working_counter,
                        waiting: false,
                        ..self.slots[pdu.index as int]
                    },
                ),
                ..self
            }
        } else {
            self
        }
    }

    /// The table after the first `n` of `pdus` have been looked at, in order.
    pub open spec fn deliver_all(self, pdus: Seq<PduView>, n: int) -> TableView
        decreases n,
    {
        if n <= 0 {
            self
        } else {
            self.deliver_all(pdus, n - 1).deliver(pdus[n - 1])
        }
    }

    /// The indices of the callers to wake after the first `n` of `pdus` have
    /// been looked at: those whose answer arrived while they waited.
    pub open spec fn wakes(self, pdus: Seq<PduView>, n: int) -> Seq<u8>
        decreases n,
    {
        if n <= 0 {
            Seq::empty()
        } else {
            let before = self.deliver_all(pdus, n - 1);
            if before.accepts(pdus[n - 1]) && before.slots[pdus[n - 1].index as int].waiting {
                self.wakes(pdus, n - 1).push(pdus[n - 1].index)
            } else {
                self.wakes(pdus, n - 1)
            }
        }
    }

    /// Number of bytes that the requests chosen among the first `n` slots
    /// take in the next frame.
    pub open spec fn chosen_len(self, n: int) -> int
        decreases n, 0int,
    {
        if n <= 0 {
            0
        } else if self.is_chosen(n - 1) {
            self.chosen_len(n - 1) + PDU_OVERHEAD + self.slots[n - 1].data.len()
        } else {
            self.chosen_len(n - 1)
        }
    }

    /// Whether the request in slot `i` goes into the next frame: it waits to
    /// be sent, and fits behind the requests chosen from the slots before it.
    pub open spec fn is_chosen(self, i: int) -> bool
        decreases i, 1int,
    {
        if i < 0 {
            false
        } else {
            self.slots[i].state == SlotState::SendPending && self.chosen_len(i) + PDU_OVERHEAD
                + self.slots[i].data.len() <= MAX_FRAME_PAYLOAD
        }
    }

    /// The PDU that carries the request in slot `i`.
    pub open spec fn request_pdu(self, i: int) -> PduView {
        PduView {
            command: self.slots[i].command,
            index: i as u8,
            data: self.slots[i].data,
            working_counter: 0,
        }
    }

    /// The PDUs of the next frame: the requests chosen among the first `n`
    /// slots, by index.
    pub open spec fn outgoing(self, n: int) -> Seq<PduView>
        decreases n,
    {
        if n <= 0 {
            Seq::empty()
        } else if self.is_chosen(n - 1) {
            self.outgoing(n - 1).push(self.request_pdu(n - 1))
        } else {
            self.outgoing(n - 1)
        }
    }

    /// The table after the next frame has been put together: the requests
    /// in it await their answers.
    pub open spec fn after_send(self) -> TableView {
        TableView {
            slots: Seq::new(
                self.slots.len(),
                |i: int|
                    if self.is_chosen(i) {
                        SlotView { state: SlotState::AwaitingResponse, ..self.slots[i] }
                    } else {
                        self.slots[i]
                    },
            ),
            ..self
        }
    }

    /// The table after the exchange in slot `index` has been given up. An
    /// index outside the table changes nothing.
    pub open spec fn released(self, index: u8) -> TableView {
        if index < self.slots.len() {
            TableView { slots: self.slots.update(index as int, self.slots[index as int].cleared()), ..self }
        } else {
            self
        }
    }
}

/// The table of PDU exchanges in flight: `MAX_FRAMES` slots, each with room
/// for `MAX_PDU_DATA` bytes of data.
pub struct PduLoop<const MAX_FRAMES: usize, const MAX_PDU_DATA: usize> {
    slots: Vec<PduSlot>,
    counter: u8,
}

impl<const MAX_FRAMES: usize, const MAX_PDU_DATA: usize> View for PduLoop<MAX_FRAMES, MAX_PDU_DATA> {
    type V = TableView;

    closed spec fn view(&self) -> TableView {
        TableView { slots: Seq::new(self.slots@.len(), |i: int| self.slots@[i]@), counter: self.counter }
    }
}

impl<const MAX_FRAMES: usize, const MAX_PDU_DATA: usize> PduLoop<MAX_FRAMES, MAX_PDU_DATA> {
    /// The sizes that a table can have: at least one slot and at most 256,
    /// one for each index, and data that fits in a frame.
    pub open spec fn valid_sizes() -> bool {
        &&& 0 < MAX_FRAMES <= 256
        &&& MAX_PDU_DATA + PDU_OVERHEAD <= MAX_FRAME_PAYLOAD
    }

    /// A table has its `MAX_FRAMES` slots, and no slot holds more data than
    /// `MAX_PDU_DATA` bytes.
    pub open spec fn wf(&self) -> bool {
        &&& Self::valid_sizes()
        &&& self@.slots.len() == MAX_FRAMES
        &&& forall|i: int| 0 <= i < MAX_FRAMES ==> (#[trigger] self@.slots[i]).data.len() <= MAX_PDU_DATA
    }

    /// A table with all slots empty.
    pub fn new() -> (table: Self)
        requires
            Self::valid_sizes(),
        ensures
            table.wf(),
            table@.counter == 0,
            forall|i: int| 0 <= i < MAX_FRAMES ==> (#[trigger] table@.slots[i]).state == SlotState::Empty,
    {
        let mut slots: Vec<PduSlot> = Vec::new();
        let mut i: usize = 0;
        while i < MAX_FRAMES
            invariant
                i <= MAX_FRAMES,
                slots@.len() == i,
                forall|k: int| 0 <= k < i ==> (#[trigger] slots@[k])@.state == SlotState::Empty,
                forall|k: int| 0 <= k < i ==> (#[trigger] slots@[k])@.data.len() == 0,
            decreases MAX_FRAMES - i,
        {
            slots.push(
                PduSlot {
                    state: SlotState::Empty,
                    command: Command::Brd { address: 0, register: 0 },
                    data: Vec::new(),
                    working_counter: 0,
                    waiting: false,
                },
            );
            i = i + 1;
        }
        PduLoop { slots, counter: 0 }
    }

    /// Starts an exchange: takes the next index and puts the request in its
    /// slot, to be sent. Fails with `IndexInUse` where the slot still holds
    /// an exchange, which then stays as it is, and with `PduTooLong` where
    /// `data` is longer than `MAX_PDU_DATA`.
    pub fn request(&mut self, command: Command, data: &[u8]) -> (r: Result<u8, Error>)
        requires
            old(self).wf(),
        ensures
            final(self).wf(),
            r == old(self)@.request_result(data@, MAX_PDU_DATA as int),
            final(self)@ == old(self)@.after_request(command, data@, MAX_PDU_DATA as int),
    {
        let index = self.counter as usize % MAX_FRAMES;
        self.counter = self.counter.wrapping_add(1);
        if self.slots[index].state != SlotState::Empty {
            assert(self@.slots =~= old(self)@.slots);
            return Err(Error::IndexInUse);
        }
        if data.len() > MAX_PDU_DATA {
            assert(self@.slots =~= old(self)@.slots);
            return Err(Error::PduTooLong);
        }
        let mut copy: Vec<u8> = Vec::new();
        let mut i: usize = 0;
        while i < data.len()
            invariant
                i <= data@.len(),
                copy@ == data@.take(i as int),
            decreases data@.len() - i,
        {
            copy.push(data[i]);
            i = i + 1;
        }
        assert(data@.take(data@.len() as int) == data@);
        let slot = &mut self.slots[index];
        slot.state = SlotState::SendPending;
        slot.command = command;
        slot.data = copy;
        slot.working_counter = 0;
        slot.waiting = false;
        assert(self@.slots =~= old(self)@.after_request(command, data@, MAX_PDU_DATA as int).slots);
        Ok(index as u8)
    }

    /// Number of slots in the table.
    pub fn len(&self) -> (len: usize)
        requires
            self.wf(),
        ensures
            len == MAX_FRAMES,
            len == self@.slots.len(),
    {
        self.slots.len()
    }

    /// Where the exchange in slot `index` stands. A slot outside the table
    /// counts as empty.
    pub fn state(&self, index: u8) -> (state: SlotState)
        requires
            self.wf(),
        ensures
            state == if index < MAX_FRAMES {
                self@.slots[index as int].state
            } else {
                SlotState::Empty
            },
    {
        if (index as usize) < self.slots.len() {
            self.slots[index as usize].state
        } else {
            SlotState::Empty
        }
    }

    /// Looks for the answer to the request with the given index. An answer
    /// that is there is handed out and its slot is empty again. Where the
    /// answer is not there yet, the slot remembers that its caller waits.
    pub fn poll(&mut self, index: u8) -> (r: PollOutcome)
        requires
            old(self).wf(),
        ensures
            final(self).wf(),
            r@ == old(self)@.poll_result(index),
            final(self)@ == old(self)@.after_poll(index),
    {
        let i = index as usize;
        if i >= self.slots.len() {
            return PollOutcome::Vacant;
        }
        match self.slots[i].state {
            SlotState::Empty => PollOutcome::Vacant,
            SlotState::Received => {
                let slot = &mut self.slots[i];
                let mut data: Vec<u8> = Vec::new();
                std::mem::swap(&mut slot.data, &mut data);
                let working_counter = slot.working_counter;
                slot.state = SlotState::Empty;
                slot.working_counter = 0;
                slot.waiting = false;
                assert(self@.slots =~= old(self)@.after_poll(index).slots);
                PollOutcome::Ready(PduResponse { data, working_counter })
            },
            _ => {
                let slot = &mut self.slots[i];
                slot.waiting = true;
                assert(self@.slots =~= old(self)@.after_poll(index).slots);
                PollOutcome::Pending
            },
        }
    }

    /// Gives up the exchange in slot `index`, whatever its state: the slot is
    /// empty afterwards. On a slot that is empty already this changes
    /// nothing.
    pub fn release(&mut self, index: u8)
        requires
            old(self).wf(),
        ensures
            final(self).wf(),
            final(self)@ == old(self)@.released(index),
    {
        let i = index as usize;
        if i < self.slots.len() {
            let slot = &mut self.slots[i];
            slot.state = SlotState::Empty;
            slot.data = Vec::new();
            slot.working_counter = 0;
            slot.waiting = false;
            assert(self@.slots =~= old(self)@.released(index).slots);
        }
    }

    /// Ends the wait for the answer to the request with the given index:
    /// the slot is given up and the request has failed with `Timeout`.
    pub fn timeout(&mut self, index: u8) -> (e: Error)
        requires
            old(self).wf(),
        ensures
            final(self).wf(),
            e == Error::Timeout,
            final(self)@ == old(self)@.released(index),
    {
        self.release(index);
        Error::Timeout
    }

    /// Puts the next frame together from the requests that wait to be sent,
    /// taken by index as long as they fit in the frame. The requests in the
    /// frame await their answers afterwards. Returns `None` where no request
    /// waits to be sent.
    pub fn next_frame(&mut self) -> (frame: Option<Vec<u8>>)
        requires
            old(self).wf(),
        ensures
            final(self).wf(),
            final(self)@ == old(self)@.after_send(),
            frame is Some <==> old(self)@.outgoing(MAX_FRAMES as int).len() > 0,
            frame matches Some(bytes) ==> bytes@ == frame_bytes(
                old(self)@.outgoing(MAX_FRAMES as int),
            ),
    {
        let ghost before = self@;
        let mut chosen: Vec<usize> = Vec::new();
        let mut used: usize = 0;
        let mut i: usize = 0;
        while i < self.slots.len()
            invariant
                old(self).wf(),
                before == old(self)@,
                self.slots@.len() == MAX_FRAMES,
                self.counter == old(self).counter,
                i <= MAX_FRAMES,
                used == before.chosen_len(i as int),
                used <= MAX_FRAME_PAYLOAD,
                chosen@.len() == before.outgoing(i as int).len(),
                forall|k: int|
                    0 <= k < chosen@.len() ==> (#[trigger] chosen@[k]) < i && before.request_pdu(
                        chosen@[k] as int,
                    ) == before.outgoing(i as int)[k],
                forall|j: int|
                    0 <= j < i ==> (#[trigger] self.slots@[j])@ == before.after_send().slots[j],
                forall|j: int| i <= j < MAX_FRAMES ==> (#[trigger] self.slots@[j])@ == before.slots[j],
            decreases MAX_FRAMES - i,
        {
            let len = self.slots[i].data.len();
            if self.slots[i].state == SlotState::SendPending && used + PDU_OVERHEAD + len
                <= MAX_FRAME_PAYLOAD {
                let slot = &mut self.slots[i];
                slot.state = SlotState::AwaitingResponse;
                chosen.push(i);
                used = used + PDU_OVERHEAD + len;
            }
            i = i + 1;
        }
        assert(self@.slots =~= before.after_send().slots);
        let ghost outgoing = before.outgoing(MAX_FRAMES as int);
        if chosen.len() == 0 {
            return None;
        }
        proof {
            lemma_outgoing_len(before, MAX_FRAMES as int);
        }
        let mut out = start_frame(used);
        let mut k: usize = 0;
        while k < chosen.len()
            invariant
                old(self).wf(),
                before == old(self)@,
                self@ == before.after_send(),
                self.slots@.len() == MAX_FRAMES,
                outgoing == before.outgoing(MAX_FRAMES as int),
                k <= chosen@.len() == outgoing.len(),
                forall|k: int|
                    0 <= k < chosen@.len() ==> (#[trigger] chosen@[k]) < MAX_FRAMES
                        && before.request_pdu(chosen@[k] as int) == outgoing[k],
                out@ == crate::frame::frame_header(used as int) + pdus_bytes(outgoing, k as int),
            decreases chosen@.len() - k,
        {
            let index = chosen[k];
            let slot = &self.slots[index];
            assert(slot@ == self@.slots[index as int]);
            encode_pdu(
                &mut out,
                slot.command,
                index as u8,
                slot.data.as_slice(),
                0,
                k + 1 < chosen.len(),
            );
            k = k + 1;
        }
        Some(out)
    }

    /// Takes in a received frame. Each PDU of the frame that answers a
    /// request in the table puts its data and working counter into the
    /// request's slot; any other PDU is dropped. Returns the indices of the
    /// callers to wake.
    ///
    /// A frame of another protocol, and a frame that the master sent itself,
    /// changes nothing. A frame that is not well formed fails with
    /// `InvalidFrame` and changes nothing.
    pub fn receive(&mut self, frame: &[u8]) -> (r: Result<Vec<u8>, Error>)
        requires
            old(self).wf(),
        ensures
            final(self).wf(),
            match inbound(frame@) {
                Inbound::Invalid => r == Err::<Vec<u8>, Error>(Error::InvalidFrame) && final(self)@
                    == old(self)@,
                Inbound::Ignored => r is Ok && r->Ok_0@.len() == 0 && final(self)@ == old(self)@,
                Inbound::Pdus(pdus) => r is Ok && r->Ok_0@ == old(self)@.wakes(
                    pdus,
                    pdus.len() as int,
                ) && final(self)@ == old(self)@.deliver_all(pdus, pdus.len() as int),
            },
    {
        let mut wakes: Vec<u8> = Vec::new();
        if frame.len() < ETHERNET_HEADER_LEN {
            return Err(Error::InvalidFrame);
        }
        if frame[12] != ETHERTYPE_HIGH || frame[13] != ETHERTYPE_LOW || is_from_master(frame) {
            return Ok(wakes);
        }
        let pdus = match decode_frame(frame) {
            Ok(pdus) => pdus,
            Err(_) => {
                return Err(Error::InvalidFrame);
            },
        };
        let ghost views = pdu_views(pdus@);
        let mut k: usize = 0;
        while k < pdus.len()
            invariant
                old(self).wf(),
                self.wf(),
                views == pdu_views(pdus@),
                k <= pdus@.len(),
                self@ == old(self)@.deliver_all(views, k as int),
                wakes@ == old(self)@.wakes(views, k as int),
            decreases pdus@.len() - k,
        {
            let pdu = &pdus[k];
            let ghost now = self@;
            assert(pdu@ == views[k as int]);
            let i = pdu.index as usize;
            if i < self.slots.len() {
                assert(self.slots@[i as int]@ == now.slots[i as int]);
                if self.slots[i].state == SlotState::AwaitingResponse && self.slots[i].command.code()
                    == pdu.command.code() && self.slots[i].data.len() == pdu.data.len() {
                    let data = vstd::slice::slice_to_vec(pdu.data.as_slice());
                    let slot = &mut self.slots[i];
                    if slot.waiting {
                        wakes.push(pdu.index);
                    }
                    slot.state = SlotState::Received;
                    slot.data = data;
                    slot.working_counter = pdu.working_counter;
                    slot.waiting = false;
                    assert(self@.slots =~= now.deliver(pdu@).slots);
                }
            }
            k = k + 1;
        }
        Ok(wakes)
    }
}

/// Whether the Ethernet source address of `frame` is that of the master.
fn is_from_master(frame: &[u8]) -> (own: bool)
    requires
        frame@.len() >= 12,
    ensures
        own == (frame@.subrange(6, 12) == master_address()),
{
    let mut k: usize = 0;
    while k < 6
        invariant
            k <= 6,
            frame@.len() >= 12,
            forall|j: int| 6 <= j < 6 + k ==> #[trigger] frame@[j] == MASTER_ADDRESS_BYTE,
        decreases 6 - k,
    {
        if frame[6 + k] != MASTER_ADDRESS_BYTE {
            assert(frame@.subrange(6, 12)[k as int] != master_address()[k as int]);
            return false;
        }
        k = k + 1;
    }
    assert(frame@.subrange(6, 12) =~= master_address());
    true
}

/// The bytes of the first `n` PDUs depend on those PDUs only.
proof fn lemma_payload_len_prefix(a: Seq<PduView>, b: Seq<PduView>, n: int)
    requires
        0 <= n <= a.len(),
        n <= b.len(),
        forall|i: int| 0 <= i < n ==> a[i] == b[i],
    ensures
        payload_len(a, n) == payload_len(b, n),
    decreases n,
{
    if n > 0 {
        lemma_payload_len_prefix(a, b, n - 1);
    }
}

/// The PDUs of the next frame take the bytes that were counted when they
/// were chosen.
proof fn lemma_outgoing_len(table: TableView, n: int)
    requires
        0 <= n,
    ensures
        payload_len(table.outgoing(n), table.outgoing(n).len() as int) == table.chosen_len(n),
    decreases n,
{
    if n > 0 {
        lemma_outgoing_len(table, n - 1);
        if table.is_chosen(n - 1) {
            let fewer = table.outgoing(n - 1);
            lemma_payload_len_prefix(fewer, table.outgoing(n), fewer.len() as int);
        }
    }
}

/// A request on an index whose slot is not empty fails with the contention
/// error, and leaves every slot, the one in use among them, as it was.
pub proof fn lemma_request_on_busy_slot(
    table: TableView,
    command: Command,
    data: Seq<u8>,
    max_data: int,
)
    requires
        table.slots.len() > 0,
        table.slots[table.next_index()].state != SlotState::Empty,
    ensures
        table.request_result(data, max_data) == Err::<u8, Error>(Error::IndexInUse),
        table.after_request(command, data, max_data).slots == table.slots,
{
}

/// An answer whose index has no slot that awaits an answer is dropped: the
/// table stays as it was. An answer that finds its slot changes no other.
pub proof fn lemma_answer_touches_its_slot_only(table: TableView, pdu: PduView)
    ensures
        !(pdu.index < table.slots.len() && table.slots[pdu.index as int].state
            == SlotState::AwaitingResponse) ==> table.deliver(pdu) == table,
        table.deliver(pdu).slots.len() == table.slots.len(),
        forall|j: int|
            0 <= j < table.slots.len() && j != pdu.index ==> #[trigger] table.deliver(pdu).slots[j]
                == table.slots[j],
{
}

/// Answers to different requests can arrive in either order.
pub proof fn lemma_answers_commute(table: TableView, first: PduView, second: PduView)
    requires
        first.index != second.index,
    ensures
        table.deliver(first).deliver(second) == table.deliver(second).deliver(first),
{
    let one = table.deliver(first).deliver(second);
    let other = table.deliver(second).deliver(first);
    assert(one.slots =~= other.slots);
}

/// Delivering answers changes no slot but those of their indices.
proof fn lemma_deliver_all_keeps_others(table: TableView, pdus: Seq<PduView>, n: int, j: int)
    requires
        0 <= n <= pdus.len(),
        0 <= j < table.slots.len(),
        forall|i: int| 0 <= i < n ==> (#[trigger] pdus[i]).index != j,
    ensures
        table.deliver_all(pdus, n).slots.len() == table.slots.len(),
        table.deliver_all(pdus, n).slots[j] == table.slots[j],
    decreases n,
{
    if n > 0 {
        lemma_deliver_all_keeps_others(table, pdus, n - 1, j);
        assert(pdus[n - 1].index != j);
    } else {
    }
    lemma_deliver_all_len(table, pdus, n);
}

/// Delivering answers keeps the number of slots.
proof fn lemma_deliver_all_len(table: TableView, pdus: Seq<PduView>, n: int)
    ensures
        table.deliver_all(pdus, n).slots.len() == table.slots.len(),
    decreases n,
{
    if n > 0 {
        lemma_deliver_all_len(table, pdus, n - 1);
    }
}

/// Each request gets the answer that carries its index, in whatever order
/// the answers arrive: after answers with distinct indices, each to a
/// request that awaits it, have been taken in, `poll` on the index of any of
/// them hands out the data and the working counter of that answer.
pub proof fn lemma_each_request_gets_its_answer(table: TableView, pdus: Seq<PduView>, k: int)
    requires
        0 <= k < pdus.len(),
        forall|i: int| 0 <= i < pdus.len() ==> table.accepts(#[trigger] pdus[i]),
        forall|i: int, j: int|
            0 <= i < j < pdus.len() ==> (#[trigger] pdus[i]).index != (#[trigger] pdus[j]).index,
    ensures
        table.deliver_all(pdus, pdus.len() as int).poll_result(pdus[k].index) == (PollView::Ready {
            data: pdus[k].data,
            working_counter: pdus[k].working_counter,
        }),
{
    let index = pdus[k].index as int;
    // The answers before the k-th leave its slot alone,
    lemma_deliver_all_keeps_others(table, pdus, k, index);
    let before = table.deliver_all(pdus, k);
    assert(before.accepts(pdus[k]));
    let with_answer = table.deliver_all(pdus, k + 1);
    assert(with_answer.slots[index].state == SlotState::Received);
    // and so do the answers after it.
    let later = pdus.skip(k + 1);
    lemma_deliver_all_splits(table, pdus, k + 1, pdus.len() as int);
    assert forall|i: int| 0 <= i < later.len() implies (#[trigger] later[i]).index != index by {
        assert(later[i] == pdus[k + 1 + i]);
    }
    lemma_deliver_all_len(table, pdus, k + 1);
    lemma_deliver_all_keeps_others(with_answer, later, later.len() as int, index);
}

/// Delivering the first `m` answers is delivering the first `n` of them and
/// then the rest.
proof fn lemma_deliver_all_splits(table: TableView, pdus: Seq<PduView>, n: int, m: int)
    requires
        0 <= n <= m <= pdus.len(),
    ensures
        table.deliver_all(pdus, m) == table.deliver_all(pdus, n).deliver_all(pdus.skip(n), m - n),
    decreases m,
{
    if n < m {
        lemma_deliver_all_splits(table, pdus, n, m - 1);
        assert(pdus.skip(n)[m - n - 1] == pdus[m - 1]);
    }
}

/// Whether a slot may go from the state `from` to the state `to` while its
/// exchange runs: it stays where it is, or takes the next step of empty,
/// waiting to be sent, awaiting the answer, answered, and empty again.
pub open spec fn moves_forward(from: SlotState, to: SlotState) -> bool {
    ||| from == to
    ||| from == SlotState::Empty && to == SlotState::SendPending
    ||| from == SlotState::SendPending && to == SlotState::AwaitingResponse
    ||| from == SlotState::AwaitingResponse && to == SlotState::Received
    ||| from == SlotState::Received && to == SlotState::Empty
}

/// The exchanges run in one direction: a request, a frame that is put
/// together, an answer that is taken in and a poll move a slot forward or
/// leave it where it is. Only giving up an exchange takes a slot back, and
/// then to empty.
pub proof fn lemma_slots_move_forward(
    table: TableView,
    command: Command,
    data: Seq<u8>,
    max_data: int,
    pdu: PduView,
    index: u8,
    j: int,
)
    requires
        0 <= j < table.slots.len(),
    ensures
        moves_forward(
            table.slots[j].state,
            table.after_request(command, data, max_data).slots[j].state,
        ),
        moves_forward(table.slots[j].state, table.after_send().slots[j].state),
        moves_forward(table.slots[j].state, table.deliver(pdu).slots[j].state),
        moves_forward(table.slots[j].state, table.after_poll(index).slots[j].state),
        table.released(index).slots[j].state == table.slots[j].state || table.released(
            index,
        ).slots[j].state == SlotState::Empty,
{
}

/// No request waits forever to be sent: where a request waits, the next
/// frame carries at least one.
pub proof fn lemma_pending_request_is_sent(table: TableView, max_data: int, i: int)
    requires
        0 <= i < table.slots.len(),
        table.slots[i].state == SlotState::SendPending,
        max_data + PDU_OVERHEAD <= MAX_FRAME_PAYLOAD,
        forall|j: int| 0 <= j < table.slots.len() ==> (#[trigger] table.slots[j]).data.len() <= max_data,
    ensures
        table.outgoing(table.slots.len() as int).len() > 0,
{
    lemma_first_pending_is_chosen(table, max_data, i);
    let first = choose|f: int| 0 <= f <= i && table.is_chosen(f);
    lemma_outgoing_grows(table, first + 1, table.slots.len() as int);
}

/// Among the slots up to one whose request waits to be sent, one is chosen.
proof fn lemma_first_pending_is_chosen(table: TableView, max_data: int, i: int)
    requires
        0 <= i < table.slots.len(),
        table.slots[i].state == SlotState::SendPending,
        max_data + PDU_OVERHEAD <= MAX_FRAME_PAYLOAD,
        forall|j: int| 0 <= j < table.slots.len() ==> (#[trigger] table.slots[j]).data.len() <= max_data,
    ensures
        exists|f: int| 0 <= f <= i && table.is_chosen(f),
    decreases i,
{
    if table.chosen_len(i) == 0 {
        assert(table.is_chosen(i));
    } else {
        lemma_chosen_len_has_witness(table, i);
    }
}

/// Where the chosen requests take bytes, one was chosen.
proof fn lemma_chosen_len_has_witness(table: TableView, n: int)
    requires
        table.chosen_len(n) != 0,
    ensures
        exists|f: int| 0 <= f < n && table.is_chosen(f),
    decreases n,
{
    if n > 0 && !table.is_chosen(n - 1) {
        lemma_chosen_len_has_witness(table, n - 1);
        let f = choose|f: int| 0 <= f < n - 1 && table.is_chosen(f);
        assert(0 <= f < n && table.is_chosen(f));
    } else if n > 0 {
        assert(table.is_chosen(n - 1));
    }
}

/// The chosen requests among more slots are at least as many.
proof fn lemma_outgoing_grows(table: TableView, n: int, m: int)
    requires
        0 < n <= m,
        table.is_chosen(n - 1),
    ensures
        table.outgoing(m).len() > 0,
    decreases m,
{
    if n < m {
        lemma_outgoing_grows(table, n, m - 1);
    }
}

} // verus!
