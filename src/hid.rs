//! Framing of APDU messages into fixed-size HID reports and their reassembly.
//!
//! An outgoing message is prefixed with its own length (two bytes, big-endian)
//! and cut into chunks of `CHUNK_CAPACITY` bytes. Each chunk travels in one
//! report of `OUT_REPORT_LEN` bytes: a report-ID byte `0x00`, the channel
//! `0x0101`, the tag `0x05`, the big-endian sequence index, the chunk, and
//! zero padding. Incoming reports carry no report-ID byte: the sub-header
//! takes bytes 0..5, the first report holds the message length at 5..7 and
//! payload from 7, every later report holds payload from 5.
use vstd::prelude::*;
use crate::error::TransportError;

verus! {

/// Vendor identifier of the target devices.
pub const VENDOR_ID: u16 = 0x2C97;

/// Vendor-specific HID usage page of the APDU interface.
pub const USAGE_PAGE: u16 = 0xFFA0;

/// Size of a HID report, sub-header included.
pub const REPORT_SIZE: usize = 64;

/// Size of a written report: the report-ID byte and one report.
pub const OUT_REPORT_LEN: usize = 65;

/// Sub-header: channel (2 bytes), tag (1 byte), sequence index (2 bytes).
pub const HEADER_LEN: usize = 5;

/// Bytes of the length-prefixed message carried by one report.
pub const CHUNK_CAPACITY: usize = 59;

/// Longest message whose length the two-byte prefix can declare.
pub const MAX_MESSAGE_LEN: usize = 0xFFFF;

/// Whether an attached HID interface is the APDU interface of a target device.
pub fn is_apdu_interface(vendor_id: u16, interface_number: i32, usage_page: u16) -> (r: bool)
    ensures
        r == (vendor_id == VENDOR_ID && (interface_number == 0 || usage_page == USAGE_PAGE)),
{
    vendor_id == VENDOR_ID && (interface_number == 0 || usage_page == USAGE_PAGE)
}

/// Big-endian encoding of a 16-bit quantity.
pub open spec fn be16(n: nat) -> Seq<u8> {
    seq![(n / 256) as u8, (n % 256) as u8]
}

/// The message preceded by its own length.
pub open spec fn framed(data: Seq<u8>) -> Seq<u8> {
    be16(data.len()) + data
}

/// Number of reports that carry `n` bytes: `ceil(n / CHUNK_CAPACITY)`.
pub open spec fn chunk_count(n: nat) -> nat {
    (n + 58) / 59
}

/// The `i`-th chunk of a framed message.
pub open spec fn chunk(p: Seq<u8>, i: nat) -> Seq<u8> {
    let start: int = 59 * (i as int);
    let end = if start + 59 <= p.len() { start + 59 } else { p.len() as int };
    p.subrange(start, end)
}

/// Sub-header of the report with sequence index `i`.
pub open spec fn report_header(i: nat) -> Seq<u8> {
    seq![0x01u8, 0x01u8, 0x05u8] + be16(i)
}

/// Zero bytes.
pub open spec fn zeros(n: nat) -> Seq<u8> {
    Seq::new(n, |k: int| 0u8)
}

/// The written report with sequence index `i` of the framed message `p`.
pub open spec fn out_report(p: Seq<u8>, i: nat) -> Seq<u8> {
    let filled = seq![0x00u8] + report_header(i) + chunk(p, i);
    filled + zeros((65 - filled.len()) as nat)
}

/// The reports that carry `data`, in the order they are written.
pub open spec fn encoded(data: Seq<u8>) -> Seq<Seq<u8>> {
    let p = framed(data);
    Seq::new(chunk_count(p.len()), |i: int| out_report(p, i as nat))
}

/// The contents of a sequence of byte vectors.
pub open spec fn views(v: Seq<Vec<u8>>) -> Seq<Seq<u8>> {
    v.map_values(|r: Vec<u8>| r@)
}

/// Builds the written report with sequence index `index`.
fn build_report(p: &Vec<u8>, index: u16) -> (r: Vec<u8>)
    requires
        59 * index < p@.len(),
    ensures
        r@ == out_report(p@, index as nat),
{
    let mut r: Vec<u8> = Vec::with_capacity(OUT_REPORT_LEN);
    r.push(0x00);
    r.push(0x01);
    r.push(0x01);
    r.push(0x05);
    r.push((index / 256) as u8);
    r.push((index % 256) as u8);
    let start: usize = 59 * (index as usize);
    let end: usize = if start + 59 <= p.len() { start + 59 } else { p.len() };
    let ghost head = seq![0x00u8] + report_header(index as nat);
    assert(r@ =~= head);
    let mut k: usize = start;
    while k < end
        invariant
            start <= k <= end <= p@.len(),
            end - start <= 59,
            r@ == head + p@.subrange(start as int, k as int),
        decreases end - k,
    {
        r.push(p[k]);
        k = k + 1;
        assert(r@ =~= head + p@.subrange(start as int, k as int));
    }
    let ghost filled = r@;
    assert(filled =~= seq![0x00u8] + report_header(index as nat) + chunk(p@, index as nat));
    while r.len() < OUT_REPORT_LEN
        invariant
            filled.len() <= r@.len() <= 65,
            filled.len() <= 65,
            r@ == filled + zeros((r@.len() - filled.len()) as nat),
        decreases 65 - r@.len(),
    {
        r.push(0x00);
        assert(r@ =~= filled + zeros((r@.len() - filled.len()) as nat));
    }
    r
}

/// Splits `data` into the reports that carry it.
///
/// Fails with `PayloadTooLong` exactly when the length does not fit the
/// two-byte prefix.
pub fn encode_reports(data: &[u8]) -> (r: Result<Vec<Vec<u8>>, TransportError>)
    ensures
        match r {
            Ok(reports) => data@.len() <= MAX_MESSAGE_LEN && views(reports@) == encoded(data@),
            Err(e) => data@.len() > MAX_MESSAGE_LEN && e == TransportError::PayloadTooLong,
        },
{
    if data.len() > MAX_MESSAGE_LEN {
        return Err(TransportError::PayloadTooLong);
    }
    let len: usize = data.len();
    let mut p: Vec<u8> = Vec::with_capacity(len + 2);
    p.push((len / 256) as u8);
    p.push((len % 256) as u8);
    let mut k: usize = 0;
    while k < len
        invariant
            len == data@.len(),
            k <= len,
            p@ == be16(len as nat) + data@.subrange(0, k as int),
        decreases len - k,
    {
        p.push(data[k]);
        k = k + 1;
        assert(p@ =~= be16(len as nat) + data@.subrange(0, k as int));
    }
    assert(data@.subrange(0, len as int) =~= data@);
    assert(p@ == framed(data@));
    let mut reports: Vec<Vec<u8>> = Vec::new();
    let mut index: u16 = 0;
    let mut offset: usize = 0;
    while offset < p.len()
        invariant
            p@.len() == len + 2 <= 0xFFFF + 2,
            offset == 59 * index,
            offset <= p@.len() + 58,
            views(reports@) == Seq::new(index as nat, |i: int| out_report(p@, i as nat)),
        decreases p@.len() + 59 - offset,
    {
        let report = build_report(&p, index);
        let ghost before = reports@;
        reports.push(report);
        proof {
            assert(views(before).len() == before.len());
            assert(before.len() == index);
            assert(reports@ == before.push(report));
            assert(reports@[index as int] == report);
            assert(views(reports@)[index as int] == out_report(p@, index as nat));
            assert forall|j: int| 0 <= j < index implies views(reports@)[j] == out_report(p@, j as nat) by {
                assert(reports@[j] == before[j]);
                assert(views(before)[j] == out_report(p@, j as nat));
            }
            assert(views(reports@) =~= Seq::new((index + 1) as nat, |i: int| out_report(p@, i as nat)));
        }
        index = index + 1;
        offset = offset + CHUNK_CAPACITY;
    }
    proof {
        assert(index == chunk_count(p@.len())) by (nonlinear_arith)
            requires
                offset == 59 * index,
                p@.len() <= offset,
                offset < p@.len() + 59;
    }
    Ok(reports)
}

/// Payload bytes of a `len`-byte message carried by its first `k` reports:
/// the reports cover `59 * k` bytes of the framed message, of which the
/// first two are the length prefix.
pub open spec fn flushed(len: nat, k: nat) -> nat {
    let covered = 59 * k;
    if covered <= 2 {
        0
    } else if covered - 2 >= len {
        len
    } else {
        (covered - 2) as nat
    }
}

/// Number of payload bytes flushed when only the first `reports_written`
/// reports of a `data_len`-byte message reached the device.
pub fn flushed_payload_bytes(data_len: usize, reports_written: usize) -> (r: usize)
    requires
        data_len <= MAX_MESSAGE_LEN,
    ensures
        r == flushed(data_len as nat, reports_written as nat),
{
    if reports_written == 0 {
        0
    } else if reports_written > data_len / 59 + 1 {
        assert(59 * reports_written - 2 >= data_len) by (nonlinear_arith)
            requires
                reports_written >= data_len / 59 + 2;
        data_len
    } else {
        assert(59 * reports_written <= data_len + 59) by (nonlinear_arith)
            requires
                reports_written <= data_len / 59 + 1;
        let covered: usize = 59 * reports_written - 2;
        if covered >= data_len {
            data_len
        } else {
            covered
        }
    }
}

/// Offset of the payload in the first incoming report.
pub const FIRST_PAYLOAD_OFFSET: usize = 7;

/// The payload bytes that an incoming report contributes: those from
/// `start` on, within the report size, and no more than `remaining`.
pub open spec fn part(r: Seq<u8>, start: int, remaining: int) -> Seq<u8> {
    let avail = if r.len() < 64 { r.len() as int } else { 64 };
    let end = if avail < start + remaining { avail } else { start + remaining };
    if end <= start {
        Seq::empty()
    } else {
        r.subrange(start, end)
    }
}

/// Message length declared by the first incoming report.
pub open spec fn declared_len(first: Seq<u8>) -> nat {
    first[5] as nat * 256 + first[6] as nat
}

/// Message bytes gathered from the first `n` incoming reports.
pub open spec fn gathered(rs: Seq<Seq<u8>>, n: nat) -> Seq<u8>
    decreases n,
{
    if n == 0 {
        Seq::empty()
    } else if n == 1 {
        part(rs[0], 7, declared_len(rs[0]) as int)
    } else {
        let g = gathered(rs, (n - 1) as nat);
        g + part(rs[n - 1], 5, declared_len(rs[0]) - g.len())
    }
}

/// A reassembled message split into its body and its trailing status word.
pub open spec fn split_status(m: Seq<u8>) -> (Seq<u8>, Seq<u8>) {
    (m.subrange(0, m.len() - 2), m.subrange(m.len() - 2, m.len() as int))
}

/// The contents of a response.
pub open spec fn response_view(r: (Vec<u8>, [u8; 2])) -> (Seq<u8>, Seq<u8>) {
    (r.0@, r.1@)
}

/// What reassembling the incoming reports `rs` yields.
pub open spec fn decoded(rs: Seq<Seq<u8>>) -> Result<(Seq<u8>, Seq<u8>), TransportError> {
    if rs.len() == 0 {
        Err(TransportError::ShortRead)
    } else if rs[0].len() < 7 || declared_len(rs[0]) < 2 {
        Err(TransportError::ProtocolViolation)
    } else if gathered(rs, rs.len()).len() < declared_len(rs[0]) {
        Err(TransportError::ShortRead)
    } else {
        Ok(split_status(gathered(rs, rs.len())))
    }
}

/// Abstract state of a reassembly: whether the first report arrived, the
/// declared message length, and the message bytes gathered so far.
pub struct ReassemblyView {
    pub started: bool,
    pub total: nat,
    pub received: Seq<u8>,
}

/// Rebuilds one message from the incoming reports that carry it.
pub struct Reassembler {
    started: bool,
    total: usize,
    data: Vec<u8>,
}

impl View for Reassembler {
    type V = ReassemblyView;

    closed spec fn view(&self) -> ReassemblyView {
        ReassemblyView { started: self.started, total: self.total as nat, received: self.data@ }
    }
}

/// A consistent reassembly: before the first report nothing is gathered,
/// after it the declared length holds a status word and bounds what is
/// gathered.
pub open spec fn reassembly_wf(v: ReassemblyView) -> bool {
    if v.started {
        2 <= v.total <= 0xFFFF && v.received.len() <= v.total
    } else {
        v.total == 0 && v.received.len() == 0
    }
}

/// The reassembly after one more incoming report: the first report
/// declares the length and brings payload from offset 7, each later one
/// brings payload from offset 5, never beyond the declared length.
pub open spec fn pushed(v: ReassemblyView, report: Seq<u8>) -> Result<ReassemblyView, TransportError> {
    if !v.started {
        if report.len() < 7 || declared_len(report) < 2 {
            Err(TransportError::ProtocolViolation)
        } else {
            Ok(
                ReassemblyView {
                    started: true,
                    total: declared_len(report),
                    received: part(report, 7, declared_len(report) as int),
                },
            )
        }
    } else {
        Ok(
            ReassemblyView {
                started: true,
                total: v.total,
                received: v.received + part(report, 5, v.total - v.received.len()),
            },
        )
    }
}

impl Reassembler {
    /// The reassembly is consistent.
    pub open spec fn wf(&self) -> bool {
        reassembly_wf(self@)
    }

    /// Whether the whole declared message has arrived.
    pub open spec fn complete(&self) -> bool {
        self@.started && self@.received.len() == self@.total
    }

    /// A reassembly that has seen no report.
    pub fn new() -> (r: Reassembler)
        ensures
            r.wf(),
            r@ == (ReassemblyView { started: false, total: 0, received: Seq::empty() }),
    {
        Reassembler { started: false, total: 0, data: Vec::new() }
    }

    /// Appends to `data` the bytes `report[start..]`, within the report size
    /// and at most `remaining` of them.
    fn take_part(data: &mut Vec<u8>, report: &[u8], start: usize, remaining: usize)
        ensures
            final(data)@ == old(data)@ + part(report@, start as int, remaining as int),
    {
        let avail: usize = if report.len() < REPORT_SIZE { report.len() } else { REPORT_SIZE };
        let end: usize = if avail <= start {
            start
        } else if avail - start < remaining {
            avail
        } else {
            start + remaining
        };
        if end > start {
            let ghost before = data@;
            let mut k: usize = start;
            while k < end
                invariant
                    start <= k <= end <= report@.len(),
                    data@ == before + report@.subrange(start as int, k as int),
                decreases end - k,
            {
                data.push(report[k]);
                k = k + 1;
                assert(data@ =~= before + report@.subrange(start as int, k as int));
            }
        }
    }

    /// Takes in one incoming report. The first one must hold the sub-header
    /// and a declared length of at least two bytes, else it is refused with
    /// `ProtocolViolation` and nothing changes.
    pub fn push_report(&mut self, report: &[u8]) -> (r: Result<(), TransportError>)
        requires
            old(self).wf(),
        ensures
            final(self).wf(),
            match r {
                Ok(()) => pushed(old(self)@, report@) == Ok::<ReassemblyView, TransportError>(
                    final(self)@,
                ),
                Err(e) => pushed(old(self)@, report@) == Err::<ReassemblyView, TransportError>(e)
                    && final(self)@ == old(self)@,
            },
    {
        if !self.started {
            if report.len() < FIRST_PAYLOAD_OFFSET {
                return Err(TransportError::ProtocolViolation);
            }
            let total: usize = (report[5] as usize) * 256 + (report[6] as usize);
            if total < 2 {
                return Err(TransportError::ProtocolViolation);
            }
            self.started = true;
            self.total = total;
            Self::take_part(&mut self.data, report, FIRST_PAYLOAD_OFFSET, total);
        } else {
            let remaining: usize = self.total - self.data.len();
            Self::take_part(&mut self.data, report, HEADER_LEN, remaining);
        }
        Ok(())
    }

    /// Whether the whole declared message has arrived.
    pub fn is_complete(&self) -> (r: bool)
        requires
            self.wf(),
        ensures
            r == self.complete(),
    {
        self.started && self.data.len() == self.total
    }

    /// The reassembled message: its body, and the status word taken off its
    /// last two bytes in order.
    pub fn finish(&self) -> (r: (Vec<u8>, [u8; 2]))
        requires
            self.wf(),
            self.complete(),
        ensures
            response_view(r) == split_status(self@.received),
    {
        let n: usize = self.data.len();
        let mut body: Vec<u8> = Vec::with_capacity(n - 2);
        let mut k: usize = 0;
        while k < n - 2
            invariant
                n == self.data@.len() >= 2,
                k <= n - 2,
                body@ == self.data@.subrange(0, k as int),
            decreases n - 2 - k,
        {
            body.push(self.data[k]);
            k = k + 1;
            assert(body@ =~= self.data@.subrange(0, k as int));
        }
        let sw: [u8; 2] = [self.data[n - 2], self.data[n - 1]];
        assert(sw@ =~= self.data@.subrange(n - 2, n as int));
        (body, sw)
    }
}

/// Reassembles one message from the incoming reports that carry it, in
/// order. Reports after the message is complete contribute nothing.
pub fn decode_reports(reports: &Vec<Vec<u8>>) -> (r: Result<(Vec<u8>, [u8; 2]), TransportError>)
    ensures
        match r {
            Ok(resp) => decoded(views(reports@)) == Ok::<(Seq<u8>, Seq<u8>), TransportError>(
                response_view(resp),
            ),
            Err(e) => decoded(views(reports@)) == Err::<(Seq<u8>, Seq<u8>), TransportError>(e),
        },
{
    let ghost rs = views(reports@);
    if reports.len() == 0 {
        return Err(TransportError::ShortRead);
    }
    let mut rebuild = Reassembler::new();
    match rebuild.push_report(reports[0].as_slice()) {
        Ok(()) => {},
        Err(e) => {
            return Err(e);
        },
    }
    let mut i: usize = 1;
    while i < reports.len()
        invariant
            rs == views(reports@),
            1 <= i <= reports@.len(),
            rebuild.wf(),
            rebuild@.started,
            rebuild@.total == declared_len(rs[0]),
            rebuild@.received == gathered(rs, i as nat),
        decreases reports@.len() - i,
    {
        let _ = rebuild.push_report(reports[i].as_slice());
        i = i + 1;
    }
    if !rebuild.is_complete() {
        return Err(TransportError::ShortRead);
    }
    Ok(rebuild.finish())
}

} // verus!
