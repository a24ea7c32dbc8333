use crate::eeprom::types::SiiCategory;
use crate::eeprom::Eeprom;
use crate::error::Error;
use vstd::prelude::*;

verus! {

/// Number of bytes that the word buffer of a reader holds at most.
pub const BUFFER_CAPACITY: usize = 8;

/// `heapless::Deque`, a queue of at most `N` items. Nothing is known of its
/// inside.
#[verifier::external_type_specification]
#[verifier::external_body]
#[verifier::reject_recursive_types(T)]
pub struct ExDeque<T, const N: usize>(heapless::Deque<T, N>);

/// The bytes held by a word buffer, front first.
pub uninterp spec fn buffered(buffer: heapless::Deque<u8, 8>) -> Seq<u8>;

/// `heapless::Deque::new`: an empty buffer.
#[verifier::external_body]
fn buffer_new() -> (buffer: heapless::Deque<u8, 8>)
    ensures
        buffered(buffer) == Seq::<u8>::empty(),
{
    heapless::Deque::new()
}

/// `heapless::Deque::push_back`: appends the byte unless eight are held
/// already, in which case the buffer is left as it was and the byte handed back.
#[verifier::external_body]
fn buffer_push_back(buffer: &mut heapless::Deque<u8, 8>, byte: u8) -> (r: Result<(), u8>)
    ensures
        r is Ok <==> buffered(*old(buffer)).len() < 8,
        r is Err ==> r->Err_0 == byte,
        buffered(*final(buffer)) == if buffered(*old(buffer)).len() < 8 {
            buffered(*old(buffer)).push(byte)
        } else {
            buffered(*old(buffer))
        },
{
    buffer.push_back(byte)
}

/// `heapless::Deque::pop_front`: removes and returns the front byte, if any.
#[verifier::external_body]
fn buffer_pop_front(buffer: &mut heapless::Deque<u8, 8>) -> (r: Option<u8>)
    ensures
        r == if buffered(*old(buffer)).len() > 0 {
            Some(buffered(*old(buffer))[0])
        } else {
            None
        },
        buffered(*final(buffer)) == if buffered(*old(buffer)).len() > 0 {
            buffered(*old(buffer)).drop_first()
        } else {
            buffered(*old(buffer))
        },
{
    buffer.pop_front()
}

/// `heapless::Deque::is_empty`: whether the buffer holds no byte.
#[verifier::external_body]
fn buffer_is_empty(buffer: &heapless::Deque<u8, 8>) -> (empty: bool)
    ensures
        empty == (buffered(*buffer).len() == 0),
{
    buffer.is_empty()
}

/// What a reader answers: the result, or a request for more data from the
/// EEPROM. After such a request the caller reads the EEPROM at the word
/// address `address`, hands the bytes to [`EepromSectionReader::fill`] and
/// calls the same method again, with `pending` where the method takes it.
pub enum Progress<T, P> {
    /// The operation is complete.
    Done(T),
    /// The word buffer is empty.
    NeedsData { address: u16, pending: P },
}

/// The state of a reader.
pub struct ReaderView {
    /// The EEPROM that is read.
    pub eeprom: Eeprom,
    /// Word address of the next read of the EEPROM.
    pub start: u16,
    /// Length of the category in bytes.
    pub len: nat,
    /// Number of bytes of the category handed out so far.
    pub byte_count: nat,
    /// The bytes fetched and not yet looked at.
    pub buffered: Seq<u8>,
}

impl ReaderView {
    /// A reader never holds more bytes than its buffer has room for, and
    /// never hands out more bytes than its category has.
    pub open spec fn wf(self) -> bool {
        &&& self.buffered.len() <= BUFFER_CAPACITY
        &&& self.byte_count <= self.len
    }

    /// Number of bytes of the category that are still to come.
    pub open spec fn remaining(self) -> nat {
        (self.len - self.byte_count) as nat
    }

    /// The state after the front byte of the buffer has been taken out. The
    /// byte counts where the category has bytes left.
    pub open spec fn popped(self) -> ReaderView {
        ReaderView {
            buffered: self.buffered.drop_first(),
            byte_count: if self.byte_count < self.len {
                self.byte_count + 1
            } else {
                self.byte_count
            },
            ..self
        }
    }

    /// What `next` answers in this state: a request for data where the buffer
    /// is empty; else the front byte of the buffer where the category has
    /// bytes left, and nothing where it has none.
    pub open spec fn next(self) -> Progress<Option<u8>, ()> {
        if self.buffered.len() == 0 {
            Progress::NeedsData { address: self.start, pending: () }
        } else if self.byte_count < self.len {
            Progress::Done(Some(self.buffered[0]))
        } else {
            Progress::Done(None)
        }
    }

    /// The state after `next`.
    pub open spec fn after_next(self) -> ReaderView {
        if self.buffered.len() == 0 {
            self
        } else {
            self.popped()
        }
    }

    /// The state after `chunk` has been handed over: the buffer takes the
    /// bytes of the chunk up to its capacity. Where it took them all, the
    /// address moves on by the words of the chunk, and wraps at 16 bits.
    pub open spec fn filled(self, chunk: Seq<u8>) -> ReaderView {
        if self.buffered.len() + chunk.len() <= BUFFER_CAPACITY {
            ReaderView {
                buffered: self.buffered + chunk,
                start: ((self.start + chunk.len() / 2) % 0x1_0000) as u16,
                ..self
            }
        } else {
            ReaderView {
                buffered: self.buffered + chunk.take(BUFFER_CAPACITY - self.buffered.len()),
                ..self
            }
        }
    }

    /// What `skip` answers where `skip` bytes are still to be passed over.
    pub open spec fn skip(self, skip: u16) -> Progress<(), u16>
        decreases skip,
    {
        if skip == 0 {
            Progress::Done(())
        } else if self.buffered.len() == 0 {
            Progress::NeedsData { address: self.start, pending: skip }
        } else {
            self.popped().skip((skip - 1) as u16)
        }
    }

    /// The state after `skip`.
    pub open spec fn after_skip(self, skip: u16) -> ReaderView
        decreases skip,
    {
        if skip == 0 || self.buffered.len() == 0 {
            self
        } else {
            self.popped().after_skip((skip - 1) as u16)
        }
    }

    /// What `take_n_vec` answers where `partial` has been collected so far:
    /// the collected bytes once there are `len` of them; an overrun where
    /// `capacity` bytes are collected and more are asked for; a request for
    /// data where the buffer is empty; nothing where the category has ended.
    pub open spec fn take(self, partial: Seq<u8>, len: usize, capacity: usize) -> Progress<
        Result<Option<Seq<u8>>, Error>,
        Seq<u8>,
    >
        decreases self.buffered.len(),
    {
        if partial.len() >= len {
            Progress::Done(Ok(Some(partial)))
        } else if partial.len() >= capacity {
            Progress::Done(Err(Error::EepromSectionOverrun))
        } else if self.buffered.len() == 0 {
            Progress::NeedsData { address: self.start, pending: partial }
        } else if self.byte_count < self.len {
            self.popped().take(partial.push(self.buffered[0]), len, capacity)
        } else {
            Progress::Done(Ok(None))
        }
    }

    /// The state after `take_n_vec`.
    pub open spec fn after_take(self, partial: Seq<u8>, len: usize, capacity: usize) -> ReaderView
        decreases self.buffered.len(),
    {
        if partial.len() >= len || partial.len() >= capacity || self.buffered.len() == 0 {
            self
        } else if self.byte_count < self.len {
            self.popped().after_take(partial.push(self.buffered[0]), len, capacity)
        } else {
            self.popped()
        }
    }
}

/// Reads the bytes of one category of the EEPROM of a slave, in order, and
/// stops at the end of the category.
pub struct EepromSectionReader {
    start: u16,
    len: u32,
    byte_count: u32,
    read: heapless::Deque<u8, 8>,
    eeprom: Eeprom,
}

impl View for EepromSectionReader {
    type V = ReaderView;

    closed spec fn view(&self) -> ReaderView {
        ReaderView {
            eeprom: self.eeprom,
            start: self.start,
            len: self.len as nat,
            byte_count: self.byte_count as nat,
            buffered: buffered(self.read),
        }
    }
}

impl EepromSectionReader {
    /// Whether the reader keeps its rules; see [`ReaderView::wf`].
    pub open spec fn wf(&self) -> bool {
        self@.wf()
    }

    /// A reader at the start of the category `cat` of `eeprom`.
    pub fn new(eeprom: &Eeprom, cat: SiiCategory) -> (reader: EepromSectionReader)
        ensures
            reader.wf(),
            reader@ == (ReaderView {
                eeprom: *eeprom,
                start: cat.start,
                len: 2 * cat.len_words as nat,
                byte_count: 0,
                buffered: Seq::empty(),
            }),
    {
        EepromSectionReader {
            eeprom: *eeprom,
            start: cat.start,
            len: cat.len_words as u32 * 2,
            byte_count: 0,
            read: buffer_new(),
        }
    }

    /// The configured station address of the slave whose EEPROM is read.
    pub fn configured_address(&self) -> (address: u16)
        ensures
            address == self@.eeprom.configured_address,
    {
        self.eeprom.configured_address
    }

    /// Hands the reader the bytes that were read from the EEPROM at the word
    /// address it asked for. The address moves on by the words of the chunk.
    /// Fails with `EepromSectionOverrun` where the buffer has no room for all
    /// of the bytes; the address then stays where it is.
    pub fn fill(&mut self, chunk: &[u8]) -> (r: Result<(), Error>)
        requires
            old(self).wf(),
        ensures
            final(self).wf(),
            final(self)@ == old(self)@.filled(chunk@),
            r == if old(self)@.buffered.len() + chunk@.len() <= BUFFER_CAPACITY {
                Ok::<(), Error>(())
            } else {
                Err::<(), Error>(Error::EepromSectionOverrun)
            },
    {
        let mut i: usize = 0;
        while i < chunk.len()
            invariant
                old(self).wf(),
                i <= chunk@.len(),
                buffered(old(self).read).len() + i <= BUFFER_CAPACITY,
                buffered(self.read) == buffered(old(self).read) + chunk@.take(i as int),
                self.start == old(self).start,
                self.len == old(self).len,
                self.byte_count == old(self).byte_count,
                self.eeprom == old(self).eeprom,
            decreases chunk@.len() - i,
        {
            if buffer_push_back(&mut self.read, chunk[i]).is_err() {
                return Err(Error::EepromSectionOverrun);
            }
            assert(chunk@.take(i + 1) == chunk@.take(i as int).push(chunk@[i as int]));
            i = i + 1;
        }
        assert(chunk@.take(chunk@.len() as int) == chunk@);
        let words: u16 = (chunk.len() / 2) as u16;
        self.start = self.start.wrapping_add(words);
        Ok(())
    }

    /// The next byte of the category, or `None` once the category has ended.
    pub fn next(&mut self) -> (r: Progress<Option<u8>, ()>)
        requires
            old(self).wf(),
        ensures
            final(self).wf(),
            r == old(self)@.next(),
            final(self)@ == old(self)@.after_next(),
    {
        if buffer_is_empty(&self.read) {
            return Progress::NeedsData { address: self.start, pending: () };
        }
        match buffer_pop_front(&mut self.read) {
            Some(byte) if self.byte_count < self.len => {
                self.byte_count = self.byte_count + 1;
                Progress::Done(Some(byte))
            },
            _ => Progress::Done(None),
        }
    }

    /// Passes over `skip` bytes. Past the end of the category nothing is
    /// passed over and nothing fails.
    pub fn skip(&mut self, skip: u16) -> (r: Progress<(), u16>)
        requires
            old(self).wf(),
        ensures
            final(self).wf(),
            r == old(self)@.skip(skip),
            final(self)@ == old(self)@.after_skip(skip),
    {
        let mut left: u16 = skip;
        while left > 0
            invariant
                self.wf(),
                self@.skip(left) == old(self)@.skip(skip),
                self@.after_skip(left) == old(self)@.after_skip(skip),
            decreases left,
        {
            match self.next() {
                Progress::NeedsData { address, .. } => {
                    return Progress::NeedsData { address, pending: left };
                },
                Progress::Done(_) => {
                    left = left - 1;
                },
            }
        }
        Progress::Done(())
    }

    /// The next byte of the category. Fails with `EepromSectionOverrun` once
    /// the category has ended.
    pub fn try_next(&mut self) -> (r: Progress<Result<u8, Error>, ()>)
        requires
            old(self).wf(),
        ensures
            final(self).wf(),
            r == match old(self)@.next() {
                Progress::Done(Some(value)) => Progress::<Result<u8, Error>, ()>::Done(Ok(value)),
                Progress::Done(None) => Progress::Done(Err(Error::EepromSectionOverrun)),
                Progress::NeedsData { address, pending } => Progress::NeedsData { address, pending },
            },
            final(self)@ == old(self)@.after_next(),
    {
        match self.next() {
            Progress::Done(Some(value)) => Progress::Done(Ok(value)),
            Progress::Done(None) => Progress::Done(Err(Error::EepromSectionOverrun)),
            Progress::NeedsData { address, pending } => Progress::NeedsData { address, pending },
        }
    }

    /// Collects `capacity` bytes; see [`EepromSectionReader::take_n_vec`].
    pub fn take_vec(&mut self, partial: Vec<u8>, capacity: usize) -> (r: Progress<
        Result<Option<Vec<u8>>, Error>,
        Vec<u8>,
    >)
        requires
            old(self).wf(),
        ensures
            final(self).wf(),
            taken_view(r) == old(self)@.take(partial@, capacity, capacity),
            final(self)@ == old(self)@.after_take(partial@, capacity, capacity),
    {
        self.take_n_vec(partial, capacity, capacity)
    }

    /// Collects `capacity` bytes. Fails with `EepromSectionUnderrun` where
    /// the category ends before that.
    pub fn take_vec_exact(&mut self, partial: Vec<u8>, capacity: usize) -> (r: Progress<
        Result<Vec<u8>, Error>,
        Vec<u8>,
    >)
        requires
            old(self).wf(),
        ensures
            final(self).wf(),
            exact_view(r) == exact(old(self)@.take(partial@, capacity, capacity)),
            final(self)@ == old(self)@.after_take(partial@, capacity, capacity),
    {
        self.take_n_vec_exact(partial, capacity, capacity)
    }

    /// Collects `len` bytes in a buffer of `capacity` bytes. Fails with
    /// `EepromSectionUnderrun` where the category ends before that.
    pub fn take_n_vec_exact(&mut self, partial: Vec<u8>, len: usize, capacity: usize) -> (r:
        Progress<Result<Vec<u8>, Error>, Vec<u8>>)
        requires
            old(self).wf(),
        ensures
            final(self).wf(),
            exact_view(r) == exact(old(self)@.take(partial@, len, capacity)),
            final(self)@ == old(self)@.after_take(partial@, len, capacity),
    {
        match self.take_n_vec(partial, len, capacity) {
            Progress::Done(Ok(Some(bytes))) => Progress::Done(Ok(bytes)),
            Progress::Done(Ok(None)) => Progress::Done(Err(Error::EepromSectionUnderrun)),
            Progress::Done(Err(e)) => Progress::Done(Err(e)),
            Progress::NeedsData { address, pending } => Progress::NeedsData { address, pending },
        }
    }

    /// Collects bytes of the category until `len` of them are there, in a
    /// buffer that has room for `capacity` bytes. `partial` holds the bytes
    /// collected so far: none at the first call, and after a request for data
    /// those that the request handed back.
    ///
    /// Returns the bytes once there are `len` of them, `None` where the
    /// category ends before that, and fails with `EepromSectionOverrun` where
    /// the buffer is full before that.
    pub fn take_n_vec(&mut self, partial: Vec<u8>, len: usize, capacity: usize) -> (r: Progress<
        Result<Option<Vec<u8>>, Error>,
        Vec<u8>,
    >)
        requires
            old(self).wf(),
        ensures
            final(self).wf(),
            taken_view(r) == old(self)@.take(partial@, len, capacity),
            final(self)@ == old(self)@.after_take(partial@, len, capacity),
    {
        let mut buf = partial;
        loop
            invariant
                self.wf(),
                self@.take(buf@, len, capacity) == old(self)@.take(partial@, len, capacity),
                self@.after_take(buf@, len, capacity) == old(self)@.after_take(
                    partial@,
                    len,
                    capacity,
                ),
            decreases buffered(self.read).len(),
        {
            if buf.len() >= len {
                return Progress::Done(Ok(Some(buf)));
            }
            if buf.len() >= capacity {
                return Progress::Done(Err(Error::EepromSectionOverrun));
            }
            match self.next() {
                Progress::NeedsData { address, .. } => {
                    return Progress::NeedsData { address, pending: buf };
                },
                Progress::Done(Some(byte)) => {
                    buf.push(byte);
                },
                Progress::Done(None) => {
                    return Progress::Done(Ok(None));
                },
            }
        }
    }
}

/// An answer of `take_n_vec`, with sequences for its vectors.
pub open spec fn taken_view(r: Progress<Result<Option<Vec<u8>>, Error>, Vec<u8>>) -> Progress<
    Result<Option<Seq<u8>>, Error>,
    Seq<u8>,
> {
    match r {
        Progress::Done(Ok(Some(bytes))) => Progress::Done(Ok(Some(bytes@))),
        Progress::Done(Ok(None)) => Progress::Done(Ok(None)),
        Progress::Done(Err(e)) => Progress::Done(Err(e)),
        Progress::NeedsData { address, pending } => Progress::NeedsData {
            address,
            pending: pending@,
        },
    }
}

/// An answer of `take_n_vec_exact`, with sequences for its vectors.
pub open spec fn exact_view(r: Progress<Result<Vec<u8>, Error>, Vec<u8>>) -> Progress<
    Result<Seq<u8>, Error>,
    Seq<u8>,
> {
    match r {
        Progress::Done(Ok(bytes)) => Progress::Done(Ok(bytes@)),
        Progress::Done(Err(e)) => Progress::Done(Err(e)),
        Progress::NeedsData { address, pending } => Progress::NeedsData {
            address,
            pending: pending@,
        },
    }
}

/// The answer of `take_n_vec_exact` for an answer of `take_n_vec`: a category
/// that ended too early is an underrun.
pub open spec fn exact(r: Progress<Result<Option<Seq<u8>>, Error>, Seq<u8>>) -> Progress<
    Result<Seq<u8>, Error>,
    Seq<u8>,
> {
    match r {
        Progress::Done(Ok(Some(bytes))) => Progress::Done(Ok(bytes)),
        Progress::Done(Ok(None)) => Progress::Done(Err(Error::EepromSectionUnderrun)),
        Progress::Done(Err(e)) => Progress::Done(Err(e)),
        Progress::NeedsData { address, pending } => Progress::NeedsData { address, pending },
    }
}

/// A category that has ended stays ended: `next` hands out no byte, and
/// neither `next` nor new data from the EEPROM brings bytes back.
pub proof fn lemma_category_end_is_final(reader: ReaderView, chunk: Seq<u8>)
    requires
        reader.wf(),
        reader.remaining() == 0,
    ensures
        !(reader.next() matches Progress::Done(Some(_))),
        reader.buffered.len() > 0 ==> reader.next() == Progress::<Option<u8>, ()>::Done(None),
        reader.after_next().remaining() == 0,
        reader.filled(chunk).remaining() == 0,
{
}

/// Where a category has fewer bytes left than are still asked for, and the
/// buffer has room for them, collecting them exactly never succeeds: it asks
/// for data, or fails with an underrun.
pub proof fn lemma_take_exact_underruns(
    reader: ReaderView,
    partial: Seq<u8>,
    len: usize,
    capacity: usize,
)
    requires
        reader.wf(),
        partial.len() + reader.remaining() < len <= capacity,
    ensures
        exact(reader.take(partial, len, capacity)) is NeedsData || exact(
            reader.take(partial, len, capacity),
        ) == Progress::<Result<Seq<u8>, Error>, Seq<u8>>::Done(Err(Error::EepromSectionUnderrun)),
        reader.remaining() == 0 && reader.buffered.len() > 0 ==> exact(
            reader.take(partial, len, capacity),
        ) == Progress::<Result<Seq<u8>, Error>, Seq<u8>>::Done(Err(Error::EepromSectionUnderrun)),
        ({
            let after = reader.after_take(partial, len, capacity);
            after.wf() && (reader.take(partial, len, capacity) matches Progress::NeedsData {
                pending,
                ..
            } ==> pending.len() + after.remaining() < len)
        }),
    decreases reader.buffered.len(),
{
    if reader.buffered.len() > 0 && reader.byte_count < reader.len {
        lemma_take_exact_underruns(reader.popped(), partial.push(reader.buffered[0]), len, capacity);
    }
}

/// Collecting bytes hands out each byte of the category once: what is
/// collected starts with what was collected before, and grows by as many
/// bytes as the count of the reader.
pub proof fn lemma_take_counts(reader: ReaderView, partial: Seq<u8>, len: usize, capacity: usize)
    requires
        reader.wf(),
    ensures
        ({
            let after = reader.after_take(partial, len, capacity);
            &&& after.wf()
            &&& after.len == reader.len
            &&& match reader.take(partial, len, capacity) {
                Progress::Done(Ok(Some(bytes))) => {
                    &&& partial.is_prefix_of(bytes)
                    &&& bytes.len() - partial.len() == after.byte_count - reader.byte_count
                    &&& bytes.len() >= len
                    &&& partial.len() <= len ==> bytes.len() == len
                },
                Progress::Done(Ok(None)) => after.remaining() == 0,
                Progress::Done(Err(e)) => e == Error::EepromSectionOverrun && capacity < len,
                Progress::NeedsData { pending, .. } => {
                    &&& partial.is_prefix_of(pending)
                    &&& pending.len() - partial.len() == after.byte_count - reader.byte_count
                    &&& after.buffered.len() == 0
                },
            }
        }),
    decreases reader.buffered.len(),
{
    if partial.len() >= len || partial.len() >= capacity || reader.buffered.len() == 0 {
        assert(partial.is_prefix_of(partial));
    } else if reader.byte_count < reader.len {
        let more = partial.push(reader.buffered[0]);
        lemma_take_counts(reader.popped(), more, len, capacity);
        match reader.popped().take(more, len, capacity) {
            Progress::Done(Ok(Some(bytes))) => {
                assert(partial =~= bytes.subrange(0, partial.len() as int)) by {
                    assert(more =~= bytes.subrange(0, more.len() as int));
                }
            },
            Progress::NeedsData { pending, .. } => {
                assert(partial =~= pending.subrange(0, partial.len() as int)) by {
                    assert(more =~= pending.subrange(0, more.len() as int));
                }
            },
            _ => {},
        }
    }
}

/// Once as many bytes have been collected as the category had left, the
/// category has ended: `next` hands out no byte, and collecting more bytes
/// exactly asks for data or fails with an underrun.
pub proof fn lemma_declared_length_ends_the_category(
    reader: ReaderView,
    partial: Seq<u8>,
    len: usize,
    capacity: usize,
    more: usize,
)
    requires
        reader.wf(),
        reader.take(partial, len, capacity) matches Progress::Done(Ok(Some(bytes))) && bytes.len()
            - partial.len() == reader.remaining(),
        0 < more <= capacity,
    ensures
        ({
            let after = reader.after_take(partial, len, capacity);
            &&& after.remaining() == 0
            &&& !(after.next() matches Progress::Done(Some(_)))
            &&& exact(after.take(Seq::empty(), more, capacity)) is NeedsData || exact(
                after.take(Seq::empty(), more, capacity),
            ) == Progress::<Result<Seq<u8>, Error>, Seq<u8>>::Done(
                Err(Error::EepromSectionUnderrun),
            )
        }),
{
    lemma_take_counts(reader, partial, len, capacity);
    let after = reader.after_take(partial, len, capacity);
    lemma_take_exact_underruns(after, Seq::empty(), more, capacity);
}

} // verus!
