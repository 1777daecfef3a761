//! Properties of the HID framing: report count and sequence indices, and
//! recovery of a message from its reports.
use vstd::prelude::*;
use crate::hid::{
    be16, chunk, chunk_count, declared_len, decoded, encoded, framed, gathered, out_report,
    part, report_header, split_status, zeros, MAX_MESSAGE_LEN,
};

verus! {

/// Sequence index written in bytes 4..6 of an outgoing report.
pub open spec fn sequence_index(r: Seq<u8>) -> nat {
    r[4] as nat * 256 + r[5] as nat
}

/// The reports as the device side reads them, without the report-ID byte.
pub open spec fn incoming(rs: Seq<Seq<u8>>) -> Seq<Seq<u8>> {
    rs.map_values(|r: Seq<u8>| r.drop_first())
}

proof fn lemma_out_report_shape(p: Seq<u8>, i: nat)
    requires
        59 * i < p.len(),
    ensures
        out_report(p, i).len() == 65,
        chunk(p, i).len() <= 59,
        forall|t: int|
            0 <= t < chunk(p, i).len() ==> #[trigger] out_report(p, i)[6 + t] == p[59 * i + t],
        out_report(p, i).subrange(1, 6) == report_header(i),
{
    let filled = seq![0x00u8] + report_header(i) + chunk(p, i);
    assert(filled.len() == 6 + chunk(p, i).len());
    assert(out_report(p, i) == filled + zeros((65 - filled.len()) as nat));
    assert forall|t: int| 0 <= t < chunk(p, i).len() implies #[trigger] out_report(p, i)[6 + t]
        == p[59 * i + t] by {
        assert(out_report(p, i)[6 + t] == filled[6 + t]);
    }
    assert(out_report(p, i).subrange(1, 6) =~= report_header(i));
}

/// A message of `L` bytes goes out in `ceil((L + 2) / 59)` reports of 65
/// bytes each, whose sequence indices count up from 0 without gap or repeat.
pub proof fn lemma_chunk_sizing(data: Seq<u8>)
    requires
        data.len() <= MAX_MESSAGE_LEN,
    ensures
        encoded(data).len() == chunk_count(data.len() + 2),
        forall|i: int|
            0 <= i < encoded(data).len() ==> (#[trigger] encoded(data)[i]).len() == 65
                && sequence_index(encoded(data)[i]) == i,
{
    let p = framed(data);
    assert forall|i: int| 0 <= i < encoded(data).len() implies (#[trigger] encoded(data)[i]).len()
        == 65 && sequence_index(encoded(data)[i]) == i by {
        assert(59 * i < p.len()) by (nonlinear_arith)
            requires
                i < (p.len() + 58) / 59,
                0 <= i;
        lemma_out_report_shape(p, i as nat);
        let r = out_report(p, i as nat);
        assert(r[4] == report_header(i as nat)[3]);
        assert(r[5] == report_header(i as nat)[4]);
        assert(i < 65536);
    }
}

/// Reports whose bytes 5.. carry the chunks of the framed message `m`.
pub(crate) open spec fn carries(m: Seq<u8>, rs: Seq<Seq<u8>>) -> bool {
    let p = framed(m);
    &&& rs.len() == chunk_count(p.len())
    &&& declared_len(rs[0]) == m.len()
    &&& forall|i: int|
        0 <= i < rs.len() ==> (#[trigger] rs[i]).len() == 64 && forall|t: int|
            5 <= t < 5 + chunk(p, i as nat).len() ==> #[trigger] rs[i][t] == p[59 * i + t - 5]
}

pub(crate) proof fn lemma_round_trip_gathered(m: Seq<u8>, rs: Seq<Seq<u8>>, k: nat)
    requires
        2 <= m.len() <= MAX_MESSAGE_LEN,
        carries(m, rs),
        1 <= k <= rs.len(),
    ensures
        gathered(rs, k) == m.subrange(0, if 59 * k - 2 < m.len() { 59 * k - 2 } else { m.len() as int }),
    decreases k,
{
    let n = m.len();
    let p = framed(m);
    assert(59 * (k - 1) < p.len()) by (nonlinear_arith)
        requires
            k <= (p.len() + 58) / 59,
            k >= 1;
    if k == 1 {
        assert(gathered(rs, 1) =~= m.subrange(0, if 57 < n { 57 } else { n as int })) by {
            assert forall|j: int| 0 <= j < (if 57 < n { 57 } else { n as int }) implies gathered(
                rs,
                1,
            )[j] == m[j] by {
                assert(rs[0][5 + (2 + j)] == p[59 * 0 + (5 + (2 + j)) - 5]);
            }
        }
    } else {
        let j = (k - 1) as nat;
        lemma_round_trip_gathered(m, rs, j);
        let g = gathered(rs, j);
        assert(g.len() == 59 * j - 2);
        let end = if 59 * k - 2 < n { 59 * k - 2 } else { n as int };
        assert(gathered(rs, k) == g + part(rs[j as int], 5, n - g.len()));
        let q = part(rs[j as int], 5, n - g.len());
        assert forall|t: int| 0 <= t < end - (59 * j - 2) implies #[trigger] q[t] == m[59 * j - 2
            + t] by {
            assert(t < chunk(p, j).len());
            assert(rs[j as int][5 + t] == p[59 * j + (5 + t) - 5]);
        }
        assert(gathered(rs, k) =~= m.subrange(0, end));
    }
}

/// The reports that carry a message, as the other side reads them.
pub(crate) proof fn lemma_incoming_carries(m: Seq<u8>)
    requires
        2 <= m.len() <= MAX_MESSAGE_LEN,
    ensures
        carries(m, incoming(encoded(m))),
{
    let n = m.len();
    let p = framed(m);
    let rs = incoming(encoded(m));
    let count = chunk_count(p.len());
    assert(count >= 1);
    assert forall|i: int| 0 <= i < count implies (#[trigger] rs[i]).len() == 64 && forall|t: int|
        5 <= t < 5 + chunk(p, i as nat).len() ==> #[trigger] rs[i][t] == p[59 * i + t - 5] by {
        assert(59 * i < p.len()) by (nonlinear_arith)
            requires
                i < (p.len() + 58) / 59,
                0 <= i;
        lemma_out_report_shape(p, i as nat);
        assert forall|t: int| 5 <= t < 5 + chunk(p, i as nat).len() implies #[trigger] rs[i][t]
            == p[59 * i + t - 5] by {
            assert(out_report(p, i as nat)[6 + (t - 5)] == p[59 * i + (t - 5)]);
        }
    }
    assert(rs[0][5] == p[0]);
    assert(rs[0][6] == p[1]);
    assert(declared_len(rs[0]) == n);
}

/// Reassembling the reports that carry `body` followed by the status word
/// `sw`, as the other side reads them, gives back `body` and `sw` in order.
pub proof fn lemma_hid_round_trip(body: Seq<u8>, sw: Seq<u8>)
    requires
        sw.len() == 2,
        body.len() + 2 <= MAX_MESSAGE_LEN,
    ensures
        decoded(incoming(encoded(body + sw))) == Ok::<(Seq<u8>, Seq<u8>), crate::error::TransportError>(
            (body, sw),
        ),
{
    let m = body + sw;
    let n = m.len();
    let p = framed(m);
    let rs = incoming(encoded(m));
    let count = chunk_count(p.len());
    lemma_incoming_carries(m);
    lemma_round_trip_gathered(m, rs, count);
    assert(59 * count >= p.len()) by (nonlinear_arith)
        requires
            count == (p.len() + 58) / 59;
    assert(gathered(rs, count) =~= m);
    assert(rs.len() == count);
    assert(split_status(m).0 =~= body);
    assert(split_status(m).1 =~= sw);
}

/// Incoming reports whose payload is cut into `pieces` at arbitrary places:
/// the first report holds the declared length `n` after its sub-header,
/// each report its own piece after its sub-header.
pub open spec fn split_reports(n: nat, headers: Seq<Seq<u8>>, pieces: Seq<Seq<u8>>) -> Seq<Seq<u8>> {
    Seq::new(
        pieces.len(),
        |i: int|
            if i == 0 {
                headers[0] + be16(n) + pieces[0]
            } else {
                headers[i] + pieces[i]
            },
    )
}

/// The first `n` elements of `s`, or all of it when it is shorter.
pub open spec fn truncate(s: Seq<u8>, n: nat) -> Seq<u8> {
    s.subrange(0, if s.len() < n { s.len() as int } else { n as int })
}

proof fn lemma_split_gathered(n: nat, headers: Seq<Seq<u8>>, pieces: Seq<Seq<u8>>, k: nat)
    requires
        2 <= n <= MAX_MESSAGE_LEN,
        headers.len() == pieces.len(),
        forall|i: int| 0 <= i < headers.len() ==> (#[trigger] headers[i]).len() == 5,
        pieces.len() >= 1,
        pieces[0].len() <= 57,
        forall|i: int| 1 <= i < pieces.len() ==> (#[trigger] pieces[i]).len() <= 59,
        1 <= k <= pieces.len(),
    ensures
        declared_len(split_reports(n, headers, pieces)[0]) == n,
        gathered(split_reports(n, headers, pieces), k) == truncate(
            pieces.subrange(0, k as int).flatten(),
            n,
        ),
    decreases k,
{
    let rs = split_reports(n, headers, pieces);
    assert(rs[0][5] == be16(n)[0]);
    assert(rs[0][6] == be16(n)[1]);
    assert(declared_len(rs[0]) == n);
    if k == 1 {
        let one = pieces.subrange(0, 1);
        one.lemma_flatten_one_element();
        assert(one.first() == pieces[0]);
        assert(gathered(rs, 1) =~= truncate(pieces[0], n));
    } else {
        let j = (k - 1) as nat;
        lemma_split_gathered(n, headers, pieces, j);
        let before = pieces.subrange(0, j as int);
        assert(pieces.subrange(0, k as int) == before.push(pieces[j as int]));
        before.lemma_flatten_push(pieces[j as int]);
        let f = before.flatten();
        let g = gathered(rs, j);
        assert(rs[j as int] == headers[j as int] + pieces[j as int]);
        assert(gathered(rs, k) == g + part(rs[j as int], 5, n - g.len()));
        if f.len() >= n {
            assert(truncate(f + pieces[j as int], n) =~= truncate(f, n));
            assert(part(rs[j as int], 5, n - g.len()) =~= Seq::<u8>::empty());
            assert(gathered(rs, k) =~= g);
        } else {
            assert(part(rs[j as int], 5, n - g.len()) =~= truncate(pieces[j as int], (n - f.len()) as nat));
            assert(gathered(rs, k) =~= truncate(f + pieces[j as int], n));
        }
    }
}

/// However the message is cut across the incoming reports, reassembly
/// recovers the message and its status word, provided each piece fits its
/// report and the pieces, read in order, begin with the message.
pub proof fn lemma_reassembly_of_any_split(
    message: Seq<u8>,
    headers: Seq<Seq<u8>>,
    pieces: Seq<Seq<u8>>,
)
    requires
        2 <= message.len() <= MAX_MESSAGE_LEN,
        headers.len() == pieces.len(),
        forall|i: int| 0 <= i < headers.len() ==> (#[trigger] headers[i]).len() == 5,
        pieces.len() >= 1,
        pieces[0].len() <= 57,
        forall|i: int| 1 <= i < pieces.len() ==> (#[trigger] pieces[i]).len() <= 59,
        message.is_prefix_of(pieces.flatten()),
    ensures
        decoded(split_reports(message.len(), headers, pieces)) == Ok::<
            (Seq<u8>, Seq<u8>),
            crate::error::TransportError,
        >(split_status(message)),
{
    let n = message.len();
    let rs = split_reports(n, headers, pieces);
    lemma_split_gathered(n, headers, pieces, pieces.len());
    assert(pieces.subrange(0, pieces.len() as int) == pieces);
    assert(gathered(rs, rs.len()) =~= message);
    assert(rs[0].len() >= 7);
}

} // verus!
