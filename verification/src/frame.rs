use crate::command::{le16, le16_at, push_le16, read_le16, Command};
use crate::error::Error;
use vstd::prelude::*;

verus! {

/// Length of the Ethernet header: destination, source and protocol type.
pub const ETHERNET_HEADER_LEN: usize = 14;

/// Length of the EtherCAT header that follows the Ethernet header.
pub const FRAME_HEADER_LEN: usize = 2;

/// Bytes that a PDU takes besides its data: ten before it, two after it.
pub const PDU_OVERHEAD: usize = 12;

/// Greatest number of data bytes in one PDU: its length field has 11 bits.
pub const MAX_PDU_LEN: usize = 0x7ff;

/// Greatest number of bytes that the PDUs of one frame take together.
pub const MAX_FRAME_PAYLOAD: usize = 1498;

/// First byte of the protocol type of EtherCAT.
pub const ETHERTYPE_HIGH: u8 = 0x88;

/// Second byte of the protocol type of EtherCAT.
pub const ETHERTYPE_LOW: u8 = 0xa4;

/// Each byte of the Ethernet address that the master sends from.
pub const MASTER_ADDRESS_BYTE: u8 = 0x10;

/// Each byte of the Ethernet address that the master sends to.
pub const BROADCAST_ADDRESS_BYTE: u8 = 0xff;

/// A PDU: one request to the slaves, or the answer to it.
pub struct Pdu {
    /// The service asked for.
    pub command: Command,
    /// The index that pairs the answer with the request.
    pub index: u8,
    /// The data of the PDU.
    pub data: Vec<u8>,
    /// The number of slaves that processed the PDU.
    pub working_counter: u16,
}

/// A PDU with its data as a sequence.
pub struct PduView {
    pub command: Command,
    pub index: u8,
    pub data: Seq<u8>,
    pub working_counter: u16,
}

impl View for Pdu {
    type V = PduView;

    open spec fn view(&self) -> PduView {
        PduView {
            command: self.command,
            index: self.index,
            data: self.data@,
            working_counter: self.working_counter,
        }
    }
}

/// The views of a sequence of PDUs.
pub open spec fn pdu_views(pdus: Seq<Pdu>) -> Seq<PduView> {
    Seq::new(pdus.len(), |i: int| pdus[i]@)
}

/// Number of bytes that a PDU takes in a frame.
pub open spec fn pdu_len(pdu: PduView) -> int {
    PDU_OVERHEAD + pdu.data.len()
}

/// The bytes of a PDU in a frame: command, index, four address bytes, the
/// length of the data with the flag for "another PDU follows" in bit 15, two
/// bytes for the event request, the data, and the working counter.
pub open spec fn pdu_bytes(pdu: PduView, more: bool) -> Seq<u8> {
    seq![pdu.command.spec_code(), pdu.index] + pdu.command.address_bytes() + le16(
        (pdu.data.len() + if more {
            0x8000int
        } else {
            0int
        }) as u16,
    ) + le16(0) + pdu.data + le16(pdu.working_counter)
}

/// A PDU read from a frame.
pub struct ParsedPdu {
    /// The PDU.
    pub pdu: PduView,
    /// Whether another PDU follows.
    pub more: bool,
    /// Where the PDU ends in the frame.
    pub end: int,
}

/// The PDU that starts at `at` of `bytes` and ends at or before `end`, if
/// there is one: its command byte must be one of a service, and its header,
/// data and working counter must lie before `end`, which must lie within
/// `bytes`.
pub open spec fn pdu_at(bytes: Seq<u8>, at: int, end: int) -> Option<ParsedPdu> {
    if at < 0 || end > bytes.len() || at + PDU_OVERHEAD > end {
        None
    } else {
        let flags = le16_at(bytes, at + 6);
        let len = flags % 0x800;
        match Command::spec_parse(bytes[at], bytes, at + 2) {
            None => None,
            Some(command) => if at + PDU_OVERHEAD + len > end {
                None
            } else {
                Some(
                    ParsedPdu {
                        pdu: PduView {
                            command,
                            index: bytes[at + 1],
                            data: bytes.subrange(at + 10, at + 10 + len),
                            working_counter: le16_at(bytes, at + 10 + len),
                        },
                        more: flags / 0x8000 == 1,
                        end: at + PDU_OVERHEAD + len,
                    },
                )
            },
        }
    }
}

/// The PDUs from `at` of `bytes` on, up to the first one that is not followed
/// by another; nothing where one of them is not a PDU, or where the last one
/// before `end` says that another follows.
pub open spec fn pdus_at(bytes: Seq<u8>, at: int, end: int) -> Option<Seq<PduView>>
    decreases end - at,
{
    match pdu_at(bytes, at, end) {
        None => None,
        Some(parsed) => if !parsed.more {
            Some(seq![parsed.pdu])
        } else {
            match pdus_at(bytes, parsed.end, end) {
                None => None,
                Some(rest) => Some(seq![parsed.pdu] + rest),
            }
        },
    }
}

/// The bytes of the first `n` of `pdus` as they follow each other in a frame.
/// Each one but the last of `pdus` says that another follows.
pub open spec fn pdus_bytes(pdus: Seq<PduView>, n: int) -> Seq<u8>
    decreases n,
{
    if n <= 0 {
        Seq::empty()
    } else {
        pdus_bytes(pdus, n - 1) + pdu_bytes(pdus[n - 1], n < pdus.len())
    }
}

/// Number of bytes that the first `n` of `pdus` take in a frame.
pub open spec fn payload_len(pdus: Seq<PduView>, n: int) -> int
    decreases n,
{
    if n <= 0 {
        0
    } else {
        payload_len(pdus, n - 1) + pdu_len(pdus[n - 1])
    }
}

/// The Ethernet address that the master sends from.
pub open spec fn master_address() -> Seq<u8> {
    Seq::new(6, |i: int| MASTER_ADDRESS_BYTE)
}

/// The Ethernet address that the master sends to.
pub open spec fn broadcast_address() -> Seq<u8> {
    Seq::new(6, |i: int| BROADCAST_ADDRESS_BYTE)
}

/// The sixteen bytes before the PDUs of a frame of the master: the Ethernet
/// header and the EtherCAT header, which holds the length of the PDUs in its
/// low 11 bits and the type 1 in its high 4 bits.
pub open spec fn frame_header(payload: int) -> Seq<u8> {
    broadcast_address() + master_address() + seq![ETHERTYPE_HIGH, ETHERTYPE_LOW] + le16(
        (0x1000 + payload) as u16,
    )
}

/// The frame in which the master sends `pdus`.
pub open spec fn frame_bytes(pdus: Seq<PduView>) -> Seq<u8> {
    frame_header(payload_len(pdus, pdus.len() as int)) + pdus_bytes(pdus, pdus.len() as int)
}

/// The PDUs of an EtherCAT frame; nothing where `bytes` is no such frame. The
/// frame must have the protocol type of EtherCAT and the type 1 in its
/// EtherCAT header, and must be as long as that header says. What follows the
/// last PDU counts as padding.
pub open spec fn parse_frame(bytes: Seq<u8>) -> Option<Seq<PduView>> {
    if bytes.len() < ETHERNET_HEADER_LEN + FRAME_HEADER_LEN {
        None
    } else if bytes[12] != ETHERTYPE_HIGH || bytes[13] != ETHERTYPE_LOW {
        None
    } else {
        let header = le16_at(bytes, 14);
        let payload = header % 0x800;
        if header / 0x1000 != 1 || 16 + payload > bytes.len() {
            None
        } else if payload == 0 {
            Some(Seq::empty())
        } else {
            pdus_at(bytes, 16, 16 + payload)
        }
    }
}

/// Appends the bytes of a PDU to `out`.
pub(crate) fn encode_pdu(
    out: &mut Vec<u8>,
    command: Command,
    index: u8,
    data: &[u8],
    working_counter: u16,
    more: bool,
)
    requires
        data@.len() <= MAX_PDU_LEN,
    ensures
        final(out)@ == old(out)@ + pdu_bytes(
            PduView { command, index, data: data@, working_counter },
            more,
        ),
{
    let ghost before = out@;
    let ghost pdu = PduView { command, index, data: data@, working_counter };
    out.push(command.code());
    out.push(index);
    command.push_address(out);
    let flag: u16 = if more {
        0x8000
    } else {
        0
    };
    push_le16(out, data.len() as u16 + flag);
    push_le16(out, 0);
    let ghost head = out@;
    let mut i: usize = 0;
    while i < data.len()
        invariant
            i <= data@.len(),
            out@ == head + data@.take(i as int),
        decreases data@.len() - i,
    {
        out.push(data[i]);
        assert(data@.take(i + 1) == data@.take(i as int).push(data@[i as int]));
        i = i + 1;
    }
    assert(data@.take(data@.len() as int) == data@);
    push_le16(out, working_counter);
    assert(out@ == before + pdu_bytes(pdu, more));
}

/// Number of bytes that `pdus` take in a frame, where they fit in one.
fn frame_payload_len(pdus: &[Pdu]) -> (len: Option<usize>)
    ensures
        len is Some <==> payload_len(pdu_views(pdus@), pdus@.len() as int) <= MAX_FRAME_PAYLOAD,
        len is Some ==> len->0 == payload_len(pdu_views(pdus@), pdus@.len() as int),
        len is Some ==> forall|k: int|
            0 <= k < pdus@.len() ==> (#[trigger] pdus@[k]).data@.len() <= MAX_PDU_LEN,
{
    let mut total: usize = 0;
    let mut i: usize = 0;
    while i < pdus.len()
        invariant
            i <= pdus@.len(),
            total == payload_len(pdu_views(pdus@), i as int),
            total <= MAX_FRAME_PAYLOAD,
            forall|k: int| 0 <= k < i ==> (#[trigger] pdus@[k]).data@.len() <= MAX_PDU_LEN,
        decreases pdus@.len() - i,
    {
        let len = pdus[i].data.len();
        if len > MAX_FRAME_PAYLOAD - PDU_OVERHEAD || total + PDU_OVERHEAD + len > MAX_FRAME_PAYLOAD {
            proof {
                lemma_payload_len_grows(pdu_views(pdus@), i + 1, pdus@.len() as int);
            }
            return None;
        }
        total = total + PDU_OVERHEAD + len;
        i = i + 1;
    }
    Some(total)
}

/// The frame in which the master sends `pdus`. Fails with `PduTooLong` where
/// the PDUs take more than [`MAX_FRAME_PAYLOAD`] bytes.
pub fn encode_frame(pdus: &[Pdu]) -> (r: Result<Vec<u8>, Error>)
    ensures
        r is Ok <==> payload_len(pdu_views(pdus@), pdus@.len() as int) <= MAX_FRAME_PAYLOAD,
        r matches Ok(bytes) ==> bytes@ == frame_bytes(pdu_views(pdus@)),
        r matches Err(e) ==> e == Error::PduTooLong,
{
    let payload = match frame_payload_len(pdus) {
        Some(payload) => payload,
        None => {
            return Err(Error::PduTooLong);
        },
    };
    let mut out = start_frame(payload);
    let ghost views = pdu_views(pdus@);
    let mut i: usize = 0;
    while i < pdus.len()
        invariant
            i <= pdus@.len(),
            views == pdu_views(pdus@),
            out@ == frame_header(payload as int) + pdus_bytes(views, i as int),
            forall|k: int| 0 <= k < pdus@.len() ==> (#[trigger] pdus@[k]).data@.len() <= MAX_PDU_LEN,
        decreases pdus@.len() - i,
    {
        let pdu = &pdus[i];
        encode_pdu(
            &mut out,
            pdu.command,
            pdu.index,
            pdu.data.as_slice(),
            pdu.working_counter,
            i + 1 < pdus.len(),
        );
        i = i + 1;
    }
    Ok(out)
}

/// The sixteen bytes before the PDUs of a frame of the master whose PDUs
/// take `payload` bytes.
pub(crate) fn start_frame(payload: usize) -> (out: Vec<u8>)
    requires
        payload <= MAX_FRAME_PAYLOAD,
    ensures
        out@ == frame_header(payload as int),
{
    let mut out: Vec<u8> = Vec::new();
    let mut i: usize = 0;
    while i < 6
        invariant
            i <= 6,
            out@ == Seq::new(i as nat, |k: int| BROADCAST_ADDRESS_BYTE),
        decreases 6 - i,
    {
        out.push(BROADCAST_ADDRESS_BYTE);
        i = i + 1;
    }
    let mut j: usize = 0;
    while j < 6
        invariant
            j <= 6,
            out@ == broadcast_address() + Seq::new(j as nat, |k: int| MASTER_ADDRESS_BYTE),
        decreases 6 - j,
    {
        out.push(MASTER_ADDRESS_BYTE);
        j = j + 1;
    }
    out.push(ETHERTYPE_HIGH);
    out.push(ETHERTYPE_LOW);
    push_le16(&mut out, 0x1000 + payload as u16);
    out
}

/// Reads the PDU that starts at `at` of `bytes` and ends at or before `end`.
pub fn decode_pdu(bytes: &[u8], at: usize, end: usize) -> (r: Option<(Pdu, bool, usize)>)
    ensures
        r is Some <==> pdu_at(bytes@, at as int, end as int) is Some,
        r matches Some((pdu, more, next)) ==> pdu_at(bytes@, at as int, end as int) == Some(
            ParsedPdu { pdu: pdu@, more, end: next as int },
        ),
{
    if end > bytes.len() || at > end || end - at < PDU_OVERHEAD {
        return None;
    }
    let flags = read_le16(bytes, at + 6);
    let len = (flags % 0x800) as usize;
    let command = match Command::parse(bytes[at], bytes, at + 2) {
        Some(command) => command,
        None => {
            return None;
        },
    };
    if end - at - PDU_OVERHEAD < len {
        return None;
    }
    let mut data: Vec<u8> = Vec::new();
    let mut i: usize = 0;
    while i < len
        invariant
            i <= len,
            at + 10 + len + 2 <= bytes@.len() <= usize::MAX,
            data@ == bytes@.subrange(at + 10, at + 10 + i),
        decreases len - i,
    {
        data.push(bytes[at + 10 + i]);
        i = i + 1;
    }
    let working_counter = read_le16(bytes, at + 10 + len);
    Some(
        (
            Pdu { command, index: bytes[at + 1], data, working_counter },
            flags / 0x8000 == 1,
            at + PDU_OVERHEAD + len,
        ),
    )
}

/// Reads the PDUs of an EtherCAT frame. Fails with `InvalidFrame` where
/// `bytes` is no such frame.
pub fn decode_frame(bytes: &[u8]) -> (r: Result<Vec<Pdu>, Error>)
    ensures
        r is Ok <==> parse_frame(bytes@) is Some,
        r matches Ok(pdus) ==> parse_frame(bytes@) == Some(pdu_views(pdus@)),
        r matches Err(e) ==> e == Error::InvalidFrame,
{
    assert(bytes@.len() == bytes.len());
    if bytes.len() < ETHERNET_HEADER_LEN + FRAME_HEADER_LEN {
        return Err(Error::InvalidFrame);
    }
    if bytes[12] != ETHERTYPE_HIGH || bytes[13] != ETHERTYPE_LOW {
        return Err(Error::InvalidFrame);
    }
    let header = read_le16(bytes, 14);
    let payload = (header % 0x800) as usize;
    if header / 0x1000 != 1 || bytes.len() - 16 < payload {
        return Err(Error::InvalidFrame);
    }
    let mut pdus: Vec<Pdu> = Vec::new();
    if payload == 0 {
        assert(pdu_views(pdus@) == Seq::<PduView>::empty());
        return Ok(pdus);
    }
    let end = 16 + payload;
    let mut at: usize = 16;
    loop
        invariant
            16 <= at <= end <= bytes@.len(),
            parse_frame(bytes@) == pdus_at(bytes@, 16, end as int),
            pdus_at(bytes@, 16, end as int) == match pdus_at(bytes@, at as int, end as int) {
                None => None::<Seq<PduView>>,
                Some(rest) => Some(pdu_views(pdus@) + rest),
            },
        decreases end - at,
    {
        match decode_pdu(bytes, at, end) {
            None => {
                return Err(Error::InvalidFrame);
            },
            Some((pdu, more, next)) => {
                let ghost before = pdu_views(pdus@);
                let ghost view = pdu@;
                pdus.push(pdu);
                assert(pdu_views(pdus@) == before + seq![view]);
                if !more {
                    return Ok(pdus);
                }
                proof {
                    match pdus_at(bytes@, next as int, end as int) {
                        Some(rest) => {
                            assert(before + (seq![view] + rest) == (before + seq![view]) + rest);
                        },
                        None => {},
                    }
                }
                at = next;
            },
        }
    }
}

/// The first `n` of the PDUs of a frame never take more bytes than the
/// first `m`, for `n` up to `m`.
proof fn lemma_payload_len_grows(pdus: Seq<PduView>, n: int, m: int)
    requires
        0 <= n <= m,
    ensures
        0 <= payload_len(pdus, n) <= payload_len(pdus, m),
    decreases m,
{
    if n < m {
        lemma_payload_len_grows(pdus, n, m - 1);
    } else if n > 0 {
        lemma_payload_len_grows(pdus, n - 1, n - 1);
    }
}

/// Reading a PDU back from where its bytes stand in a frame gives the PDU,
/// with its command, address, length, data and working counter.
pub proof fn lemma_pdu_round_trip(bytes: Seq<u8>, at: int, end: int, pdu: PduView, more: bool)
    requires
        0 <= at,
        at + pdu_len(pdu) <= end <= bytes.len(),
        pdu.data.len() <= MAX_PDU_LEN,
        bytes.subrange(at, at + pdu_len(pdu)) == pdu_bytes(pdu, more),
    ensures
        pdu_at(bytes, at, end) == Some(ParsedPdu { pdu, more, end: at + pdu_len(pdu) }),
{
    let len = pdu.data.len() as int;
    let window = bytes.subrange(at, at + pdu_len(pdu));
    let flags = (len + if more {
        0x8000int
    } else {
        0int
    }) as u16;
    let head = seq![pdu.command.spec_code(), pdu.index] + pdu.command.address_bytes() + le16(flags)
        + le16(0);
    assert(pdu.command.address_bytes().len() == 4);
    assert(head.len() == 10);
    assert(window == head + pdu.data + le16(pdu.working_counter));
    assert forall|k: int| 0 <= k < 12 + len implies bytes[at + k] == #[trigger] window[k] by {}
    assert(bytes[at] == window[0] == pdu.command.spec_code());
    assert(bytes[at + 1] == window[1] == pdu.index);
    assert(bytes.subrange(at + 2, at + 6) =~= pdu.command.address_bytes()) by {
        assert forall|k: int| 0 <= k < 4 implies bytes[at + 2 + k]
            == #[trigger] pdu.command.address_bytes()[k] by {
            assert(bytes[at + 2 + k] == window[2 + k]);
        }
    }
    crate::command::lemma_command_round_trip(pdu.command, bytes, at + 2);
    assert(bytes[at + 6] == window[6] == le16(flags)[0]);
    assert(bytes[at + 7] == window[7] == le16(flags)[1]);
    assert(le16_at(bytes, at + 6) == flags);
    assert(flags % 0x800 == len);
    assert((flags / 0x8000 == 1) == more);
    assert(bytes.subrange(at + 10, at + 10 + len) =~= pdu.data) by {
        assert forall|k: int| 0 <= k < len implies bytes[at + 10 + k] == #[trigger] pdu.data[k] by {
            assert(bytes[at + 10 + k] == window[10 + k]);
        }
    }
    assert(bytes[at + 10 + len] == window[10 + len] == le16(pdu.working_counter)[0]);
    assert(bytes[at + 11 + len] == window[11 + len] == le16(pdu.working_counter)[1]);
    assert(le16_at(bytes, at + 10 + len) == pdu.working_counter);
}

/// Where the bytes of each PDU stand among the bytes of the first `n` PDUs
/// of a frame.
proof fn lemma_pdus_bytes_window(pdus: Seq<PduView>, k: int, n: int)
    requires
        0 <= k < n <= pdus.len(),
    ensures
        pdus_bytes(pdus, n).len() == payload_len(pdus, n),
        0 <= payload_len(pdus, k),
        payload_len(pdus, k) + pdu_len(pdus[k]) == payload_len(pdus, k + 1) <= payload_len(pdus, n),
        pdus_bytes(pdus, n).subrange(payload_len(pdus, k), payload_len(pdus, k + 1)) == pdu_bytes(
            pdus[k],
            k + 1 < pdus.len(),
        ),
    decreases n,
{
    lemma_payload_len_grows(pdus, k, k + 1);
    lemma_payload_len_grows(pdus, k + 1, n);
    lemma_pdus_bytes_len(pdus, n);
    lemma_pdus_bytes_len(pdus, n - 1);
    let last = pdu_bytes(pdus[n - 1], n < pdus.len());
    if k + 1 < n {
        lemma_pdus_bytes_window(pdus, k, n - 1);
        assert(pdus_bytes(pdus, n).subrange(payload_len(pdus, k), payload_len(pdus, k + 1))
            =~= pdus_bytes(pdus, n - 1).subrange(payload_len(pdus, k), payload_len(pdus, k + 1)));
    } else {
        assert(pdus_bytes(pdus, n).subrange(payload_len(pdus, k), payload_len(pdus, k + 1))
            =~= last);
    }
}

/// The bytes of the first `n` PDUs of a frame are as many as their lengths
/// say.
proof fn lemma_pdus_bytes_len(pdus: Seq<PduView>, n: int)
    requires
        0 <= n <= pdus.len(),
    ensures
        pdus_bytes(pdus, n).len() == payload_len(pdus, n),
    decreases n,
{
    if n > 0 {
        lemma_pdus_bytes_len(pdus, n - 1);
        assert(pdus[n - 1].command.address_bytes().len() == 4);
    }
}

/// Reading the PDUs back from the `k`-th on gives the PDUs from the `k`-th
/// on.
proof fn lemma_pdus_round_trip(bytes: Seq<u8>, pdus: Seq<PduView>, k: int)
    requires
        0 <= k < pdus.len(),
        forall|i: int| 0 <= i < pdus.len() ==> (#[trigger] pdus[i]).data.len() <= MAX_PDU_LEN,
        16 + payload_len(pdus, pdus.len() as int) <= bytes.len(),
        bytes.subrange(16, 16 + payload_len(pdus, pdus.len() as int)) == pdus_bytes(
            pdus,
            pdus.len() as int,
        ),
    ensures
        pdus_at(bytes, 16 + payload_len(pdus, k), 16 + payload_len(pdus, pdus.len() as int))
            == Some(pdus.skip(k)),
    decreases pdus.len() - k,
{
    let n = pdus.len() as int;
    let total = payload_len(pdus, n);
    let at = 16 + payload_len(pdus, k);
    lemma_pdus_bytes_window(pdus, k, n);
    assert(bytes.subrange(at, at + pdu_len(pdus[k])) =~= bytes.subrange(16, 16 + total).subrange(
        payload_len(pdus, k),
        payload_len(pdus, k + 1),
    ));
    lemma_pdu_round_trip(bytes, at, 16 + total, pdus[k], k + 1 < n);
    if k + 1 < n {
        lemma_pdus_round_trip(bytes, pdus, k + 1);
        assert(seq![pdus[k]] + pdus.skip(k + 1) =~= pdus.skip(k));
    } else {
        assert(seq![pdus[k]] =~= pdus.skip(k));
    }
}

/// Round trip: reading the frame in which PDUs were sent gives back the
/// PDUs, each with its command, address, length and data, whatever padding
/// follows the frame.
pub proof fn lemma_frame_round_trip(pdus: Seq<PduView>, padding: Seq<u8>)
    requires
        forall|i: int| 0 <= i < pdus.len() ==> (#[trigger] pdus[i]).data.len() <= MAX_PDU_LEN,
        payload_len(pdus, pdus.len() as int) <= MAX_FRAME_PAYLOAD,
    ensures
        parse_frame(frame_bytes(pdus) + padding) == Some(pdus),
{
    let n = pdus.len() as int;
    let total = payload_len(pdus, n);
    let bytes = frame_bytes(pdus) + padding;
    let header = frame_header(total);
    lemma_payload_len_grows(pdus, 0, n);
    lemma_pdus_bytes_len(pdus, n);
    assert(header.len() == 16);
    assert(bytes[12] == header[12] == ETHERTYPE_HIGH);
    assert(bytes[13] == header[13] == ETHERTYPE_LOW);
    let word = (0x1000 + total) as u16;
    assert(bytes[14] == header[14] == le16(word)[0]);
    assert(bytes[15] == header[15] == le16(word)[1]);
    assert(le16_at(bytes, 14) == word);
    assert(word % 0x800 == total);
    assert(word / 0x1000 == 1);
    if n == 0 {
        assert(pdus =~= Seq::<PduView>::empty());
    } else {
        lemma_pdus_bytes_window(pdus, 0, n);
        assert(bytes.subrange(16, 16 + total) =~= pdus_bytes(pdus, n));
        lemma_pdus_round_trip(bytes, pdus, 0);
        assert(pdus.skip(0) =~= pdus);
    }
}

} // verus!
