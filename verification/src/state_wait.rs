use crate::command::Command;
use crate::error::Error;
use crate::pdu_loop::{PduLoop, PollOutcome, PollView, TableView};
use crate::register::RegisterAddress;
use crate::slave::SlaveRef;
use crate::slave_state::{AlControl, SlaveState};
use vstd::prelude::*;

verus! {

/// Milliseconds between two reads of the AL status register.
pub const POLL_DELAY_MS: u64 = 10;

/// Milliseconds after which a slave that has not reached its state has
/// failed to.
pub const STATE_TIMEOUT_MS: u64 = 1000;

/// Where the wait for a state stands.
#[derive(Clone, Copy, Debug, PartialEq, Eq)]
pub enum WaitPhase {
    /// The next read of the AL status register is due.
    Due,
    /// A read of the AL status register is in flight under this index.
    Polling { index: u8 },
    /// The wait has ended with this result.
    Finished(Result<(), Error>),
}

/// What the caller of a wait does next.
#[derive(Clone, Copy, Debug, PartialEq, Eq)]
pub enum WaitStep {
    /// Wait for the answer to the PDU with this index, then go on.
    AwaitAnswer { index: u8 },
    /// Wait for this many milliseconds, then go on.
    Delay { millis: u64 },
    /// The wait has ended with this result.
    Done(Result<(), Error>),
}

/// The read of the AL status register of the slave at `address`.
pub open spec fn status_read(address: u16) -> Command {
    Command::Fprd { address, register: 0x0130 }
}

/// The two bytes that a read of the AL status register sends.
pub open spec fn status_request() -> Seq<u8> {
    seq![0u8, 0u8]
}

/// What an answer to a read of the AL status register means for a wait for
/// `desired`: an error where not exactly one slave answered or the answer is
/// too short, the end of the wait where the slave is in the state, and
/// another read after a delay where it is not.
pub open spec fn judge(desired: SlaveState, data: Seq<u8>, working_counter: u16) -> WaitPhase {
    if working_counter != 1 {
        WaitPhase::Finished(Err(Error::WorkingCounter { expected: 1, received: working_counter }))
    } else {
        match AlControl::spec_parse(data) {
            None => WaitPhase::Finished(Err(Error::InvalidFrame)),
            Some(status) => if status.state == desired {
                WaitPhase::Finished(Ok(()))
            } else {
                WaitPhase::Due
            },
        }
    }
}

/// The phase of a wait for `desired` after it has gone on from `phase`, with
/// the table in the state `table`.
pub open spec fn next_phase(
    phase: WaitPhase,
    desired: SlaveState,
    table: TableView,
    max_data: int,
) -> WaitPhase {
    match phase {
        WaitPhase::Finished(result) => phase,
        WaitPhase::Due => match table.request_result(status_request(), max_data) {
            Ok(index) => WaitPhase::Polling { index },
            Err(e) => WaitPhase::Finished(Err(e)),
        },
        WaitPhase::Polling { index } => match table.poll_result(index) {
            PollView::Pending => phase,
            PollView::Vacant => WaitPhase::Finished(Err(Error::Timeout)),
            PollView::Ready { data, working_counter } => judge(desired, data, working_counter),
        },
    }
}

/// The table after a wait has gone on from `phase`.
pub open spec fn next_table(phase: WaitPhase, address: u16, table: TableView, max_data: int) -> TableView {
    match phase {
        WaitPhase::Finished(_) => table,
        WaitPhase::Due => table.after_request(status_read(address), status_request(), max_data),
        WaitPhase::Polling { index } => table.after_poll(index),
    }
}

/// What the caller does in the phase `phase`.
pub open spec fn step_of(phase: WaitPhase) -> WaitStep {
    match phase {
        WaitPhase::Due => WaitStep::Delay { millis: POLL_DELAY_MS },
        WaitPhase::Polling { index } => WaitStep::AwaitAnswer { index },
        WaitPhase::Finished(result) => WaitStep::Done(result),
    }
}

/// The wait for a slave to report a state: the AL status register of the
/// slave is read again and again, with a delay in between, until it reports
/// the state.
pub struct StateWait {
    address: u16,
    desired: SlaveState,
    phase: WaitPhase,
}

impl StateWait {
    /// The configured station address of the slave.
    pub closed spec fn address(&self) -> u16 {
        self.address
    }

    /// The state that is waited for.
    pub closed spec fn desired(&self) -> SlaveState {
        self.desired
    }

    /// Where the wait stands.
    pub closed spec fn phase(&self) -> WaitPhase {
        self.phase
    }

    /// A wait for the slave at `address` to report `desired`. Its first read
    /// is due.
    pub fn new(address: u16, desired: SlaveState) -> (wait: StateWait)
        ensures
            wait.address() == address,
            wait.desired() == desired,
            wait.phase() == WaitPhase::Due,
    {
        StateWait { address, desired, phase: WaitPhase::Due }
    }

    /// The result of the wait, once it has ended.
    pub fn result(&self) -> (result: Option<Result<(), Error>>)
        ensures
            result == match self.phase() {
                WaitPhase::Finished(result) => Some(result),
                _ => None::<Result<(), Error>>,
            },
    {
        match self.phase {
            WaitPhase::Finished(result) => Some(result),
            _ => None,
        }
    }

    /// Goes on with the wait. Where a read is due, the read is started.
    /// Where a read is in flight, its answer is looked for: the wait ends
    /// where the slave reports the state, or where the read failed; else the
    /// next read is due after a delay.
    pub fn advance<const MAX_FRAMES: usize, const MAX_PDU_DATA: usize>(
        &mut self,
        pdu_loop: &mut PduLoop<MAX_FRAMES, MAX_PDU_DATA>,
    ) -> (step: WaitStep)
        requires
            old(pdu_loop).wf(),
        ensures
            final(pdu_loop).wf(),
            final(self).address() == old(self).address(),
            final(self).desired() == old(self).desired(),
            final(self).phase() == next_phase(
                old(self).phase(),
                old(self).desired(),
                old(pdu_loop)@,
                MAX_PDU_DATA as int,
            ),
            final(pdu_loop)@ == next_table(
                old(self).phase(),
                old(self).address(),
                old(pdu_loop)@,
                MAX_PDU_DATA as int,
            ),
            step == step_of(final(self).phase()),
    {
        match self.phase {
            WaitPhase::Finished(result) => WaitStep::Done(result),
            WaitPhase::Due => {
                let mut request: Vec<u8> = Vec::new();
                request.push(0);
                request.push(0);
                assert(request@ == status_request());
                let command = SlaveRef::new(self.address).read(RegisterAddress::AlStatus);
                match pdu_loop.request(command, request.as_slice()) {
                    Ok(index) => {
                        self.phase = WaitPhase::Polling { index };
                        WaitStep::AwaitAnswer { index }
                    },
                    Err(e) => {
                        self.phase = WaitPhase::Finished(Err(e));
                        WaitStep::Done(Err(e))
                    },
                }
            },
            WaitPhase::Polling { index } => {
                match pdu_loop.poll(index) {
                    PollOutcome::Pending => WaitStep::AwaitAnswer { index },
                    PollOutcome::Vacant => {
                        self.phase = WaitPhase::Finished(Err(Error::Timeout));
                        WaitStep::Done(Err(Error::Timeout))
                    },
                    PollOutcome::Ready(response) => {
                        if response.working_counter != 1 {
                            let e = Error::WorkingCounter {
                                expected: 1,
                                received: response.working_counter,
                            };
                            self.phase = WaitPhase::Finished(Err(e));
                            return WaitStep::Done(Err(e));
                        }
                        match AlControl::parse(response.data.as_slice()) {
                            None => {
                                self.phase = WaitPhase::Finished(Err(Error::InvalidFrame));
                                WaitStep::Done(Err(Error::InvalidFrame))
                            },
                            Some(status) => {
                                if status.state == self.desired {
                                    self.phase = WaitPhase::Finished(Ok(()));
                                    WaitStep::Done(Ok(()))
                                } else {
                                    self.phase = WaitPhase::Due;
                                    WaitStep::Delay { millis: POLL_DELAY_MS }
                                }
                            },
                        }
                    },
                }
            },
        }
    }

    /// Ends the wait because its time is up. A wait that has not ended yet
    /// fails with `StateTransitionTimeout`, and the slot of a read in
    /// flight is given up. A wait that has ended keeps its result, and the
    /// table stays as it is.
    pub fn timed_out<const MAX_FRAMES: usize, const MAX_PDU_DATA: usize>(
        &mut self,
        pdu_loop: &mut PduLoop<MAX_FRAMES, MAX_PDU_DATA>,
    ) -> (result: Result<(), Error>)
        requires
            old(pdu_loop).wf(),
        ensures
            final(pdu_loop).wf(),
            final(self).address() == old(self).address(),
            final(self).desired() == old(self).desired(),
            final(self).phase() == WaitPhase::Finished(result),
            result == match old(self).phase() {
                WaitPhase::Finished(result) => result,
                _ => Err::<(), Error>(Error::StateTransitionTimeout),
            },
            final(pdu_loop)@ == match old(self).phase() {
                WaitPhase::Polling { index } => old(pdu_loop)@.released(index),
                _ => old(pdu_loop)@,
            },
    {
        match self.phase {
            WaitPhase::Finished(result) => result,
            WaitPhase::Due => {
                self.phase = WaitPhase::Finished(Err(Error::StateTransitionTimeout));
                Err(Error::StateTransitionTimeout)
            },
            WaitPhase::Polling { index } => {
                pdu_loop.release(index);
                self.phase = WaitPhase::Finished(Err(Error::StateTransitionTimeout));
                Err(Error::StateTransitionTimeout)
            },
        }
    }
}

/// A wait whose time is up while its read is in flight fails with
/// `StateTransitionTimeout` and leaves the slot of the read empty, whatever
/// became of the read.
pub proof fn lemma_timeout_frees_the_slot(table: TableView, index: u8)
    requires
        index < table.slots.len(),
    ensures
        table.released(index).slots[index as int].state == crate::pdu_loop::SlotState::Empty,
        table.released(index).released(index) == table.released(index),
        forall|j: int|
            0 <= j < table.slots.len() && j != index ==> #[trigger] table.released(index).slots[j]
                == table.slots[j],
{
    assert(table.released(index).released(index).slots =~= table.released(index).slots);
}

} // verus!
