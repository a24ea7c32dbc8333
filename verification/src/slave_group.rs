use crate::command::{Command, PduResponse};
use crate::eeprom::types::{FmmuEx, FmmuUsage, Pdo, SyncManager};
use crate::error::{Error, Item};
use crate::pdi::{PdiOffset, PdiSegment};
use crate::pdu_loop::PduLoop;
use crate::slave::{
    lemma_mapping_offset_grows, pre_op_to_safe_op_layout, pre_op_to_safe_op_steps, IoLayout,
    IoRanges, SafeOpPlan, Slave, SlaveRef,
};
use vstd::prelude::*;

verus! {

/// Number of bytes of a segment that may be missing.
pub open spec fn segment_len(segment: Option<PdiSegment>) -> nat {
    match segment {
        Some(segment) => segment.spec_len() as nat,
        None => 0,
    }
}

/// 1 for a segment, 0 for none.
pub open spec fn segment_count(segment: Option<PdiSegment>) -> nat {
    match segment {
        Some(_) => 1,
        None => 0,
    }
}

/// Number of bytes that the first `n` slaves take in the image.
pub open spec fn layout_end(segments: Seq<IoRanges>, n: int) -> nat
    decreases n,
{
    if n <= 0 {
        0
    } else {
        layout_end(segments, n - 1) + segment_len(segments[n - 1].output) + segment_len(
            segments[n - 1].input,
        )
    }
}

/// Number of bytes that the inputs of the first `n` slaves take.
pub open spec fn inputs_len(segments: Seq<IoRanges>, n: int) -> nat
    decreases n,
{
    if n <= 0 {
        0
    } else {
        inputs_len(segments, n - 1) + segment_len(segments[n - 1].input)
    }
}

/// Number of bytes that the outputs of the first `n` slaves take.
pub open spec fn outputs_len(segments: Seq<IoRanges>, n: int) -> nat
    decreases n,
{
    if n <= 0 {
        0
    } else {
        outputs_len(segments, n - 1) + segment_len(segments[n - 1].output)
    }
}

/// The working counter that an exchange with the first `n` slaves brings
/// back: one for each slave with inputs and one for each slave with
/// outputs.
pub open spec fn expected_working_counter(segments: Seq<IoRanges>, n: int) -> nat
    decreases n,
{
    if n <= 0 {
        0
    } else {
        expected_working_counter(segments, n - 1) + segment_count(segments[n - 1].input)
            + segment_count(segments[n - 1].output)
    }
}

/// Whether the segments of the slave `k` lie where the layout puts them: its
/// outputs right behind the slaves before it, its inputs right behind its
/// outputs.
pub open spec fn placed(segments: Seq<IoRanges>, k: int) -> bool {
    &&& segments[k].output matches Some(outputs) ==> outputs.start == layout_end(segments, k)
        && outputs.start <= outputs.end
    &&& segments[k].input matches Some(inputs) ==> inputs.start == layout_end(segments, k)
        + segment_len(segments[k].output) && inputs.start <= inputs.end
}

/// Whether byte `p` of the image belongs to the inputs of one of the first
/// `n` slaves.
pub open spec fn is_input(segments: Seq<IoRanges>, n: int, p: int) -> bool
    decreases n,
{
    if n <= 0 {
        false
    } else {
        is_input(segments, n - 1, p) || (segments[n - 1].input matches Some(inputs)
            && inputs.start <= p < inputs.end)
    }
}

/// The state of a group.
pub struct GroupView {
    /// The slaves, in the order in which they joined.
    pub slaves: Seq<Slave>,
    /// The segments of the slaves that have their place in the image, in the
    /// order of the slaves.
    pub segments: Seq<IoRanges>,
    /// The buffer of the process data image.
    pub pdi: Seq<u8>,
    /// Number of bytes of the image that hold inputs.
    pub read_pdi_len: nat,
    /// Number of bytes of the image that are in use.
    pub pdi_len: nat,
    /// Logical address of the first byte of the image.
    pub start_address: u32,
    /// The working counter that the exchange of the image brings back.
    pub group_working_counter: u16,
    /// Number of slaves whose process data has a place in the image.
    pub configured: nat,
}

impl GroupView {
    /// The rules that a group keeps: it has room for its slaves and for its
    /// image; the slaves from the first on have their place, one behind the
    /// other in the image; the lengths and the working counter are those of
    /// the segments.
    pub open spec fn wf(self, max_slaves: usize, max_pdi: usize) -> bool {
        &&& max_slaves <= 0x7fff
        &&& self.slaves.len() <= max_slaves
        &&& self.pdi.len() == max_pdi
        &&& self.configured == self.segments.len()
        &&& self.configured <= self.slaves.len()
        &&& forall|k: int| 0 <= k < self.configured ==> placed(self.segments, k)
        &&& self.pdi_len == layout_end(self.segments, self.configured as int)
        &&& self.pdi_len <= max_pdi
        &&& self.start_address + self.pdi_len <= u32::MAX
        &&& self.read_pdi_len == inputs_len(self.segments, self.configured as int)
        &&& self.group_working_counter == expected_working_counter(
            self.segments,
            self.configured as int,
        )
    }

    /// The segments of the slave `index`: none for a slave that has no place
    /// in the image.
    pub open spec fn ranges(self, index: int) -> IoRanges {
        if 0 <= index < self.segments.len() {
            self.segments[index]
        } else {
            IoRanges { input: None, output: None }
        }
    }

    /// The offset at which the process data of the next slave starts.
    pub open spec fn offset(self) -> PdiOffset {
        PdiOffset { start_address: (self.start_address + self.pdi_len) as u32, start_bit: 0 }
    }

    /// What becomes of the layout planned for the next slave: an image that
    /// would grow beyond `max_pdi` bytes is refused.
    pub open spec fn accepted(self, planned: Result<IoLayout, Error>, max_pdi: usize) -> Result<
        IoLayout,
        Error,
    > {
        match planned {
            Err(e) => Err(e),
            Ok(layout) => if layout.offset.start_address - self.start_address > max_pdi {
                Err(Error::Capacity(Item::Pdi))
            } else {
                Ok(layout)
            },
        }
    }

    /// A segment of the logical address space as a segment of the buffer of
    /// the group.
    pub open spec fn rebased(self, segment: Option<PdiSegment>) -> Option<PdiSegment> {
        match segment {
            Some(segment) => Some(
                PdiSegment {
                    bit_len: segment.bit_len,
                    start: (segment.start - self.start_address) as usize,
                    end: (segment.end - self.start_address) as usize,
                },
            ),
            None => None,
        }
    }

    /// The group after the next slave has been given the layout `layout`:
    /// the slave has its segments, and the image, its input part and the
    /// working counter have grown by them. An error changes nothing.
    pub open spec fn configured_with(self, layout: Result<IoLayout, Error>) -> GroupView {
        match layout {
            Err(_) => self,
            Ok(layout) => GroupView {
                segments: self.segments.push(
                    IoRanges {
                        input: self.rebased(layout.inputs),
                        output: self.rebased(layout.outputs),
                    },
                ),
                pdi_len: (layout.offset.start_address - self.start_address) as nat,
                read_pdi_len: self.read_pdi_len + segment_len(self.rebased(layout.inputs)),
                group_working_counter: (self.group_working_counter + segment_count(layout.inputs)
                    + segment_count(layout.outputs)) as u16,
                configured: self.configured + 1,
                ..self
            },
        }
    }

    /// The group after the slave that was configured last has lost its place
    /// again: the image, its input part and the working counter are those of
    /// the slaves before it.
    pub open spec fn without_last(self) -> GroupView {
        if self.configured == 0 {
            self
        } else {
            let last = self.configured - 1;
            GroupView {
                segments: self.segments.drop_last(),
                pdi_len: layout_end(self.segments, last),
                read_pdi_len: inputs_len(self.segments, last),
                group_working_counter: expected_working_counter(self.segments, last) as u16,
                configured: last as nat,
                ..self
            }
        }
    }

    /// The image after an exchange that brought back `data`: the bytes of
    /// the inputs of the slaves are those of `data`, all others stay.
    pub open spec fn exchanged(self, data: Seq<u8>) -> Seq<u8> {
        Seq::new(
            self.pdi.len(),
            |p: int|
                if is_input(self.segments, self.configured as int, p) {
                    data[p]
                } else {
                    self.pdi[p]
                },
        )
    }
}

/// A group of slaves that share one process data image of at most `MAX_PDI`
/// bytes. The group has room for `MAX_SLAVES` slaves.
pub struct SlaveGroup<const MAX_SLAVES: usize, const MAX_PDI: usize> {
    slaves: Vec<Slave>,
    pdi: Vec<u8>,
    read_pdi_len: usize,
    pdi_len: usize,
    start_address: u32,
    group_working_counter: u16,
    segments: Vec<IoRanges>,
}

impl<const MAX_SLAVES: usize, const MAX_PDI: usize> View for SlaveGroup<MAX_SLAVES, MAX_PDI> {
    type V = GroupView;

    closed spec fn view(&self) -> GroupView {
        GroupView {
            slaves: self.slaves@,
            segments: self.segments@,
            pdi: self.pdi@,
            read_pdi_len: self.read_pdi_len as nat,
            pdi_len: self.pdi_len as nat,
            start_address: self.start_address,
            group_working_counter: self.group_working_counter,
            configured: self.segments@.len(),
        }
    }
}

/// The layout of the first `n` slaves depends on those slaves only.
proof fn lemma_layout_prefix(a: Seq<IoRanges>, b: Seq<IoRanges>, n: int)
    requires
        0 <= n <= a.len(),
        n <= b.len(),
        forall|k: int| 0 <= k < n ==> a[k] == b[k],
    ensures
        layout_end(a, n) == layout_end(b, n),
        inputs_len(a, n) == inputs_len(b, n),
        outputs_len(a, n) == outputs_len(b, n),
        expected_working_counter(a, n) == expected_working_counter(b, n),
        forall|k: int| 0 <= k < n ==> placed(a, k) == placed(b, k),
    decreases n,
{
    if n > 0 {
        lemma_layout_prefix(a, b, n - 1);
        assert forall|k: int| 0 <= k < n implies placed(a, k) == placed(b, k) by {
            lemma_layout_prefix(a, b, k);
        }
    }
}

/// Each slave starts where the slaves before it end, so the ends grow.
proof fn lemma_layout_end_grows(segments: Seq<IoRanges>, n: int, m: int)
    requires
        0 <= n <= m,
    ensures
        layout_end(segments, n) <= layout_end(segments, m),
    decreases m,
{
    if n < m {
        lemma_layout_end_grows(segments, n, m - 1);
    }
}

/// The image of a group is made up of the segments of its slaves: the
/// segments lie within the image, no two of them have a byte in common, and
/// the bytes of the input segments and of the output segments together are
/// the bytes of the image.
pub proof fn lemma_segments_partition(
    group: GroupView,
    max_slaves: usize,
    max_pdi: usize,
    a: int,
    b: int,
)
    requires
        group.wf(max_slaves, max_pdi),
        0 <= a <= b < group.slaves.len(),
    ensures
        inputs_len(group.segments, group.configured as int) + outputs_len(
            group.segments,
            group.configured as int,
        ) == group.pdi_len,
        inputs_len(group.segments, group.configured as int) == group.read_pdi_len,
        group.ranges(a).input matches Some(inputs) ==> inputs.end <= group.pdi_len,
        group.ranges(a).output matches Some(outputs) ==> outputs.end <= group.pdi_len,
        group.ranges(a).input is Some && group.ranges(a).output is Some ==> group.ranges(
            a,
        ).input->0.disjoint(&group.ranges(a).output->0),
        a < b ==> forall|first: PdiSegment, second: PdiSegment|
            (group.ranges(a).input == Some(first) || group.ranges(a).output == Some(first)) && (
            group.ranges(b).input == Some(second) || group.ranges(b).output == Some(second))
                ==> #[trigger] first.disjoint(&second),
{
    let segments = group.segments;
    let n = group.configured as int;
    lemma_lengths_add_up(segments, n);
    if a < n {
        assert(placed(segments, a));
        lemma_layout_end_grows(segments, a + 1, n);
        if a < b && b < n {
            assert(placed(segments, b));
            lemma_layout_end_grows(segments, a + 1, b);
        }
    }
}

/// Taking back the place of a slave undoes its configuration: the group is
/// as it was before the slave got its place.
pub proof fn lemma_take_back_undoes(
    group: GroupView,
    max_slaves: usize,
    max_pdi: usize,
    layout: IoLayout,
)
    requires
        group.wf(max_slaves, max_pdi),
    ensures
        group.configured_with(Ok(layout)).without_last() == group,
{
    let with = group.configured_with(Ok(layout));
    let back = with.without_last();
    let k = group.configured as int;
    lemma_layout_prefix(group.segments, with.segments, k);
    assert(back.segments =~= group.segments);
}

/// The bytes of the inputs and of the outputs of the first `n` slaves
/// together are the bytes of those slaves.
proof fn lemma_lengths_add_up(segments: Seq<IoRanges>, n: int)
    ensures
        inputs_len(segments, n) + outputs_len(segments, n) == layout_end(segments, n),
    decreases n,
{
    if n > 0 {
        lemma_lengths_add_up(segments, n - 1);
    }
}

impl<const MAX_SLAVES: usize, const MAX_PDI: usize> SlaveGroup<MAX_SLAVES, MAX_PDI> {
    /// Whether the group keeps its rules; see [`GroupView::wf`].
    pub open spec fn wf(&self) -> bool {
        self@.wf(MAX_SLAVES, MAX_PDI)
    }

    /// A group without slaves whose image starts at the logical address
    /// `start_address`.
    pub fn starting_at(start_address: u32) -> (group: Self)
        requires
            MAX_SLAVES <= 0x7fff,
        ensures
            group.wf(),
            group@.slaves.len() == 0,
            group@.pdi == Seq::new(MAX_PDI as nat, |i: int| 0u8),
            group@.read_pdi_len == 0,
            group@.pdi_len == 0,
            group@.start_address == start_address,
            group@.group_working_counter == 0,
            group@.configured == 0,
    {
        let mut pdi: Vec<u8> = Vec::new();
        let mut i: usize = 0;
        while i < MAX_PDI
            invariant
                i <= MAX_PDI,
                pdi@ == Seq::new(i as nat, |k: int| 0u8),
            decreases MAX_PDI - i,
        {
            pdi.push(0);
            i = i + 1;
        }
        SlaveGroup {
            slaves: Vec::new(),
            pdi,
            read_pdi_len: 0,
            pdi_len: 0,
            start_address,
            group_working_counter: 0,
            segments: Vec::new(),
        }
    }

    /// A group without slaves whose image starts at the logical address 0.
    pub fn new() -> (group: Self)
        requires
            MAX_SLAVES <= 0x7fff,
        ensures
            group.wf(),
            group@.slaves.len() == 0,
            group@.pdi == Seq::new(MAX_PDI as nat, |i: int| 0u8),
            group@.read_pdi_len == 0,
            group@.pdi_len == 0,
            group@.start_address == 0,
            group@.group_working_counter == 0,
            group@.configured == 0,
    {
        Self::starting_at(0)
    }

    /// Adds a slave to the group, behind the slaves that are in it. The slave
    /// gets its place in the image when it is configured. Fails with
    /// `Capacity(Item::Slave)` where the group is full, and then changes
    /// nothing.
    pub fn push(&mut self, slave: Slave) -> (r: Result<(), Error>)
        requires
            old(self).wf(),
        ensures
            final(self).wf(),
            r == if old(self)@.slaves.len() < MAX_SLAVES {
                Ok::<(), Error>(())
            } else {
                Err::<(), Error>(Error::Capacity(Item::Slave))
            },
            final(self)@ == if old(self)@.slaves.len() < MAX_SLAVES {
                GroupView { slaves: old(self)@.slaves.push(slave), ..old(self)@ }
            } else {
                old(self)@
            },
    {
        if self.slaves.len() >= MAX_SLAVES {
            return Err(Error::Capacity(Item::Slave));
        }
        self.slaves.push(slave);
        Ok(())
    }

    /// The slaves of the group, in the order in which they joined.
    pub fn slaves(&self) -> (slaves: &[Slave])
        ensures
            slaves@ == self@.slaves,
    {
        self.slaves.as_slice()
    }

    /// Number of slaves, from the first on, that have their place in the
    /// image.
    pub fn configured(&self) -> (count: usize)
        ensures
            count == self@.configured,
    {
        self.segments.len()
    }

    /// The segments of the slave `index` in the image: none for a slave that
    /// has no place in the image.
    pub fn io_segments(&self, index: usize) -> (ranges: IoRanges)
        ensures
            ranges == self@.ranges(index as int),
    {
        if index < self.segments.len() {
            self.segments[index]
        } else {
            IoRanges { input: None, output: None }
        }
    }

    /// Number of bytes of the image that hold inputs.
    pub fn read_pdi_len(&self) -> (len: usize)
        ensures
            len == self@.read_pdi_len,
    {
        self.read_pdi_len
    }

    /// Number of bytes of the image that are in use.
    pub fn pdi_len(&self) -> (len: usize)
        ensures
            len == self@.pdi_len,
    {
        self.pdi_len
    }

    /// The working counter that the exchange of the image brings back.
    pub fn group_working_counter(&self) -> (counter: u16)
        ensures
            counter == self@.group_working_counter,
    {
        self.group_working_counter
    }

    /// The bytes of the image that are in use.
    pub fn pdi(&self) -> (pdi: &[u8])
        requires
            self.wf(),
        ensures
            pdi@ == self@.pdi.take(self@.pdi_len as int),
    {
        vstd::slice::slice_subrange(self.pdi.as_slice(), 0, self.pdi_len)
    }
}

/// One slave of a group with its part of the process data image.
pub struct GroupSlave<'a> {
    /// The slave.
    pub slave: SlaveRef,
    /// The inputs of the slave, if it has any.
    pub inputs: Option<&'a [u8]>,
    /// The outputs of the slave, if it has any.
    pub outputs: Option<&'a mut [u8]>,
}

/// The working counter of the first `n` slaves is at most two for each.
proof fn lemma_working_counter_bound(segments: Seq<IoRanges>, n: int)
    requires
        0 <= n,
    ensures
        expected_working_counter(segments, n) <= 2 * n,
    decreases n,
{
    if n > 0 {
        lemma_working_counter_bound(segments, n - 1);
    }
}

impl<const MAX_SLAVES: usize, const MAX_PDI: usize> SlaveGroup<MAX_SLAVES, MAX_PDI> {
    /// Plans the way from `PreOp` to `SafeOp` for the next slave that has no
    /// place in the image yet, from the sections of its EEPROM, and gives
    /// the slave its place: its outputs, then its inputs, right behind the
    /// slaves before it. Returns `None` where every slave has its place.
    ///
    /// Where the plan fails the group stays as it was. It fails with
    /// `Capacity(Item::Pdi)` where the image would grow beyond `MAX_PDI`
    /// bytes; the plan then holds no step, as the slave is refused before
    /// anything is written to it. Where a step of the plan fails when it is
    /// carried out, [`SlaveGroup::take_back`] takes the place back.
    pub fn configure_next(
        &mut self,
        sync_managers: &[SyncManager],
        master_write_pdos: &[Pdo],
        master_read_pdos: &[Pdo],
        fmmu_usage: &[FmmuUsage],
        fmmu_sm_mappings: &[FmmuEx],
    ) -> (plan: Option<SafeOpPlan>)
        requires
            old(self).wf(),
        ensures
            final(self).wf(),
            plan is None <==> old(self)@.configured == old(self)@.slaves.len(),
            plan is None ==> final(self)@ == old(self)@,
            plan matches Some(plan) ==> ({
                let address = old(self)@.slaves[old(self)@.configured as int].configured_address;
                &&& plan.steps@ == if plan.layout == Err::<IoLayout, Error>(
                    Error::Capacity(Item::Pdi),
                ) {
                    Seq::empty()
                } else {
                    pre_op_to_safe_op_steps(
                        address,
                        sync_managers@,
                        master_write_pdos@,
                        master_read_pdos@,
                        fmmu_sm_mappings@,
                        fmmu_usage@,
                        old(self)@.offset(),
                    )
                }
                &&& plan.layout == old(self)@.accepted(
                    pre_op_to_safe_op_layout(
                        address,
                        sync_managers@,
                        master_write_pdos@,
                        master_read_pdos@,
                        fmmu_sm_mappings@,
                        fmmu_usage@,
                        old(self)@.offset(),
                    ),
                    MAX_PDI,
                )
                &&& final(self)@ == old(self)@.configured_with(plan.layout)
            }),
    {
        if self.segments.len() >= self.slaves.len() {
            return None;
        }
        let ghost before = self@;
        let index = self.segments.len();
        let address = self.slaves[index].configured_address;
        let start = self.start_address;
        let offset = PdiOffset { start_address: start + self.pdi_len as u32, start_bit: 0 };
        let plan = SlaveRef::new(address).configure_from_eeprom_pre_op(
            sync_managers,
            master_write_pdos,
            master_read_pdos,
            fmmu_usage,
            fmmu_sm_mappings,
            offset,
        );
        let layout = match plan.layout {
            Ok(layout) => layout,
            Err(_) => {
                return Some(plan);
            },
        };
        proof {
            let outputs = crate::slave::outputs_mapping(
                address,
                sync_managers@,
                master_write_pdos@,
                fmmu_sm_mappings@,
                fmmu_usage@,
                offset,
            );
            lemma_mapping_offset_grows(
                address,
                sync_managers@,
                sync_managers@.len() as int,
                master_write_pdos@,
                fmmu_sm_mappings@,
                fmmu_usage@,
                crate::slave::PdoDirection::MasterWrite,
                offset,
                Seq::empty(),
            );
            lemma_mapping_offset_grows(
                address,
                sync_managers@,
                sync_managers@.len() as int,
                master_read_pdos@,
                fmmu_sm_mappings@,
                fmmu_usage@,
                crate::slave::PdoDirection::MasterRead,
                outputs.offset,
                outputs.taken,
            );
        }
        let end = (layout.offset.start_address - start) as usize;
        if end > MAX_PDI {
            return Some(SafeOpPlan { steps: Vec::new(), layout: Err(Error::Capacity(Item::Pdi)) });
        }
        let inputs = match layout.inputs {
            Some(segment) => Some(
                PdiSegment {
                    bit_len: segment.bit_len,
                    start: segment.start - start as usize,
                    end: segment.end - start as usize,
                },
            ),
            None => None,
        };
        let outputs = match layout.outputs {
            Some(segment) => Some(
                PdiSegment {
                    bit_len: segment.bit_len,
                    start: segment.start - start as usize,
                    end: segment.end - start as usize,
                },
            ),
            None => None,
        };
        let added: u16 = (if inputs.is_some() {
            1u16
        } else {
            0u16
        }) + (if outputs.is_some() {
            1u16
        } else {
            0u16
        });
        let input_bytes: usize = match inputs {
            Some(segment) => segment.len(),
            None => 0,
        };
        proof {
            lemma_working_counter_bound(before.segments, index as int);
            lemma_lengths_add_up(before.segments, index as int);
        }
        self.segments.push(IoRanges { input: inputs, output: outputs });
        self.pdi_len = end;
        self.read_pdi_len = self.read_pdi_len + input_bytes;
        self.group_working_counter = self.group_working_counter + added;
        proof {
            let after = before.configured_with(Ok(layout));
            assert(self@.segments =~= after.segments);
            lemma_layout_prefix(before.segments, after.segments, index as int);
            assert(placed(after.segments, index as int));
            assert forall|k: int| 0 <= k < index + 1 implies placed(after.segments, k) by {
                if k < index {
                    assert(placed(before.segments, k));
                }
            }
        }
        Some(plan)
    }

    /// Takes back the place of the slave that was configured last, for a
    /// slave whose configuration failed when it was carried out. The slave
    /// can then be configured again. Returns whether a slave had a place.
    pub fn take_back(&mut self) -> (taken: bool)
        requires
            old(self).wf(),
        ensures
            final(self).wf(),
            taken == (old(self)@.configured > 0),
            final(self)@ == old(self)@.without_last(),
    {
        let ghost before = self@;
        let ranges = match self.segments.pop() {
            Some(ranges) => ranges,
            None => {
                return false;
            },
        };
        let ghost last = before.configured - 1;
        proof {
            assert(ranges == before.segments[last]);
            assert(placed(before.segments, last));
            lemma_lengths_add_up(before.segments, last);
            lemma_lengths_add_up(before.segments, last + 1);
        }
        let input_bytes: usize = match ranges.input {
            Some(segment) => segment.len(),
            None => 0,
        };
        let output_bytes: usize = match ranges.output {
            Some(segment) => segment.len(),
            None => 0,
        };
        let counted: u16 = (if ranges.input.is_some() {
            1u16
        } else {
            0u16
        }) + (if ranges.output.is_some() {
            1u16
        } else {
            0u16
        });
        self.pdi_len = self.pdi_len - input_bytes - output_bytes;
        self.read_pdi_len = self.read_pdi_len - input_bytes;
        self.group_working_counter = self.group_working_counter - counted;
        proof {
            let after = before.without_last();
            assert(self@.segments =~= after.segments);
            lemma_layout_prefix(before.segments, after.segments, last);
            lemma_working_counter_bound(before.segments, last);
        }
        true
    }

    /// The slave at `index` with its inputs and outputs in the image, or
    /// `None` where the group has no such slave. A slave that has no place
    /// in the image has neither. What is written to the outputs is written
    /// to the image. The group keeps its rules as long as
    /// the outputs keep their length, which a slice does.
    pub fn slave<'a>(&'a mut self, index: usize) -> (view: Option<GroupSlave<'a>>)
        requires
            old(self).wf(),
        ensures
            view is Some <==> index < old(self)@.slaves.len(),
            view is None ==> final(self)@ == old(self)@,
            view matches Some(found) ==> ({
                let slave = old(self)@.slaves[index as int];
                let ranges = old(self)@.ranges(index as int);
                &&& found.slave.configured_address == slave.configured_address
                &&& found.inputs is Some <==> ranges.input is Some
                &&& found.outputs is Some <==> ranges.output is Some
                &&& ranges.input matches Some(range) ==> found.inputs->0@ == old(
                    self,
                )@.pdi.subrange(range.start as int, range.end as int)
                &&& ranges.output matches Some(range) ==> found.outputs->0@ == old(
                    self,
                )@.pdi.subrange(range.start as int, range.end as int)
                &&& final(self)@.pdi == match ranges.output {
                    Some(range) => old(self)@.pdi.subrange(0, range.start as int)
                        + final(found.outputs->0)@
                        + old(self)@.pdi.subrange(range.end as int, MAX_PDI as int),
                    None => old(self)@.pdi,
                }
                &&& (GroupView { pdi: old(self)@.pdi, ..final(self)@ }) == old(self)@
                &&& (found.outputs is Some ==> final(found.outputs->0)@.len()
                    == found.outputs->0@.len()) ==> final(self).wf()
            }),
    {
        if index >= self.slaves.len() {
            return None;
        }
        let slave = SlaveRef::new(self.slaves[index].configured_address);
        let ranges = self.io_segments(index);
        proof {
            if index < self.segments@.len() {
                assert(placed(self@.segments, index as int));
                lemma_layout_end_grows(self@.segments, index + 1, self.segments@.len() as int);
            }
        }
        let ghost before = self.pdi@;
        match (ranges.input, ranges.output) {
            (Some(inputs), Some(outputs)) => {
                let all = self.pdi.as_mut_slice();
                let (head, tail) = all.split_at_mut(outputs.end);
                let (_, out) = head.split_at_mut(outputs.start);
                let tail: &[u8] = tail;
                let ins = vstd::slice::slice_subrange(
                    tail,
                    inputs.start - outputs.end,
                    inputs.end - outputs.end,
                );
                assert(ins@ =~= before.subrange(inputs.start as int, inputs.end as int));
                Some(GroupSlave { slave, inputs: Some(ins), outputs: Some(out) })
            },
            (None, Some(outputs)) => {
                let all = self.pdi.as_mut_slice();
                let (head, _) = all.split_at_mut(outputs.end);
                let (_, out) = head.split_at_mut(outputs.start);
                Some(GroupSlave { slave, inputs: None, outputs: Some(out) })
            },
            (Some(inputs), None) => {
                let ins = vstd::slice::slice_subrange(self.pdi.as_slice(), inputs.start, inputs.end);
                Some(GroupSlave { slave, inputs: Some(ins), outputs: None })
            },
            (None, None) => Some(GroupSlave { slave, inputs: None, outputs: None }),
        }
    }

    /// Starts the exchange of the image: one logical read and write of all
    /// its bytes, at the logical address of the group. Returns the index of
    /// the request, or the error of the table.
    pub fn tx_rx<const MAX_FRAMES: usize, const MAX_PDU_DATA: usize>(
        &self,
        pdu_loop: &mut PduLoop<MAX_FRAMES, MAX_PDU_DATA>,
    ) -> (r: Result<u8, Error>)
        requires
            self.wf(),
            old(pdu_loop).wf(),
        ensures
            final(pdu_loop).wf(),
            r == old(pdu_loop)@.request_result(
                self@.pdi.take(self@.pdi_len as int),
                MAX_PDU_DATA as int,
            ),
            final(pdu_loop)@ == old(pdu_loop)@.after_request(
                Command::Lrw { address: self@.start_address },
                self@.pdi.take(self@.pdi_len as int),
                MAX_PDU_DATA as int,
            ),
    {
        pdu_loop.request(Command::Lrw { address: self.start_address }, self.pdi())
    }

    /// Ends the exchange of the image with the answer to it: the inputs of
    /// the slaves are taken from the answer, whatever its working counter.
    /// Fails with `WorkingCounter` where other slaves took part than the
    /// group expects, and with `InvalidFrame`, and no change, where the
    /// answer has not the length of the image.
    pub fn rx(&mut self, response: &PduResponse) -> (r: Result<(), Error>)
        requires
            old(self).wf(),
        ensures
            final(self).wf(),
            r == if response.data@.len() != old(self)@.pdi_len {
                Err::<(), Error>(Error::InvalidFrame)
            } else if response.working_counter != old(self)@.group_working_counter {
                Err::<(), Error>(
                    Error::WorkingCounter {
                        expected: old(self)@.group_working_counter,
                        received: response.working_counter,
                    },
                )
            } else {
                Ok::<(), Error>(())
            },
            final(self)@ == if response.data@.len() != old(self)@.pdi_len {
                old(self)@
            } else {
                GroupView { pdi: old(self)@.exchanged(response.data@), ..old(self)@ }
            },
    {
        if response.data.len() != self.pdi_len {
            return Err(Error::InvalidFrame);
        }
        let ghost before = self@;
        let mut k: usize = 0;
        while k < self.segments.len()
            invariant
                old(self).wf(),
                before == old(self)@,
                response.data@.len() == before.pdi_len,
                k <= self.segments@.len(),
                self@.pdi.len() == before.pdi.len(),
                self@ == (GroupView { pdi: self@.pdi, ..before }),
                forall|p: int|
                    0 <= p < before.pdi.len() ==> #[trigger] self@.pdi[p] == if is_input(
                        before.segments,
                        k as int,
                        p,
                    ) {
                        response.data@[p]
                    } else {
                        before.pdi[p]
                    },
            decreases self.segments@.len() - k,
        {
            proof {
                assert(placed(before.segments, k as int));
                lemma_layout_end_grows(before.segments, k + 1, before.configured as int);
            }
            match self.segments[k].input {
                Some(inputs) => {
                    let mut p: usize = inputs.start;
                    while p < inputs.end
                        invariant
                            old(self).wf(),
                            before == old(self)@,
                            response.data@.len() == before.pdi_len,
                            k < self.segments@.len(),
                            before.segments[k as int].input == Some(inputs),
                            inputs.start <= p <= inputs.end,
                            inputs.start <= inputs.end <= before.pdi_len,
                            self@.pdi.len() == before.pdi.len(),
                            self@ == (GroupView { pdi: self@.pdi, ..before }),
                            forall|q: int|
                                0 <= q < before.pdi.len() ==> #[trigger] self@.pdi[q] == if is_input(
                                    before.segments,
                                    k as int,
                                    q,
                                ) || inputs.start <= q < p {
                                    response.data@[q]
                                } else {
                                    before.pdi[q]
                                },
                        decreases inputs.end - p,
                    {
                        self.pdi[p] = response.data[p];
                        p = p + 1;
                    }
                },
                None => {},
            }
            k = k + 1;
        }
        assert(self@.pdi =~= before.exchanged(response.data@));
        if response.working_counter != self.group_working_counter {
            Err(
                Error::WorkingCounter {
                    expected: self.group_working_counter,
                    received: response.working_counter,
                },
            )
        } else {
            Ok(())
        }
    }
}

impl<const MAX_SLAVES: usize, const MAX_PDI: usize> Default for SlaveGroup<MAX_SLAVES, MAX_PDI> {
    fn default() -> (group: Self)
        ensures
            MAX_SLAVES <= 0x7fff ==> group.wf(),
            group@.slaves.len() == 0,
            group@.pdi == Seq::new(MAX_PDI as nat, |i: int| 0u8),
            group@.read_pdi_len == 0,
            group@.pdi_len == 0,
            group@.start_address == 0,
            group@.group_working_counter == 0,
            group@.configured == 0,
    {
        let mut pdi: Vec<u8> = Vec::new();
        let mut i: usize = 0;
        while i < MAX_PDI
            invariant
                i <= MAX_PDI,
                pdi@ == Seq::new(i as nat, |k: int| 0u8),
            decreases MAX_PDI - i,
        {
            pdi.push(0);
            i = i + 1;
        }
        SlaveGroup {
            slaves: Vec::new(),
            pdi,
            read_pdi_len: 0,
            pdi_len: 0,
            start_address: 0,
            group_working_counter: 0,
            segments: Vec::new(),
        }
    }
}

} // verus!
