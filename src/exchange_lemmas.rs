//! Properties of whole exchanges: when every write goes through and the
//! reads deliver a well-framed response, the exchange returns that response.
use vstd::prelude::*;
use crate::error::TransportError;
use crate::exchange::{
    advanced, fresh_exchange, receive_stage, run, BackendType, CommView, Event, ExchangeView, Stage,
};
use crate::hid::{
    declared_len, encoded, gathered, pushed, split_status, views, ReassemblyView, MAX_MESSAGE_LEN,
};
use crate::hid_lemmas::{carries, incoming, lemma_round_trip_gathered};
use crate::socket::{be32, be32_value, frame, MAX_FRAME_PAYLOAD};

verus! {

/// `n` successful writes.
pub open spec fn writes(n: nat) -> Seq<Event> {
    Seq::new(n, |i: int| Event::Written)
}

/// The reads that deliver `chunks`, in order.
pub open spec fn receipts(chunks: Seq<Vec<u8>>) -> Seq<Event> {
    chunks.map_values(|c: Vec<u8>| Event::Received(c))
}

proof fn lemma_run_concat(v: ExchangeView, a: Seq<Event>, b: Seq<Event>)
    ensures
        run(v, a + b) == run(run(v, a), b),
    decreases a.len(),
{
    if a.len() == 0 {
        assert(a + b =~= b);
    } else {
        assert((a + b)[0] == a[0]);
        assert((a + b).drop_first() =~= a.drop_first() + b);
        lemma_run_concat(advanced(v, a[0]), a.drop_first(), b);
    }
}

proof fn lemma_run_push(v: ExchangeView, a: Seq<Event>, e: Event)
    ensures
        run(v, a.push(e)) == advanced(run(v, a), e),
{
    assert(a.push(e) =~= a + seq![e]);
    lemma_run_concat(v, a, seq![e]);
    let w = run(v, a);
    assert(seq![e].drop_first() =~= Seq::<Event>::empty());
    assert(run(w, seq![e]) == run(advanced(w, e), seq![e].drop_first()));
    assert(run(advanced(w, e), Seq::<Event>::empty()) == advanced(w, e));
}

proof fn lemma_writes(v0: ExchangeView, k: nat)
    requires
        v0.stage == Stage::Sending,
        v0.sent == 0,
        1 <= v0.frames.len(),
        k <= v0.frames.len(),
    ensures
        run(v0, writes(k)) == (if k < v0.frames.len() {
            ExchangeView { sent: k, ..v0 }
        } else {
            ExchangeView { sent: k, stage: receive_stage(v0.backend), ..v0 }
        }),
    decreases k,
{
    if k == 0 {
        assert(writes(0) =~= Seq::<Event>::empty());
    } else {
        let j = (k - 1) as nat;
        lemma_writes(v0, j);
        assert(writes(k) =~= writes(j).push(Event::Written));
        lemma_run_push(v0, writes(j), Event::Written);
    }
}

proof fn lemma_receipts(v1: ExchangeView, chunks: Seq<Vec<u8>>, m: Seq<u8>, k: nat)
    requires
        v1.stage == Stage::FirstReport,
        v1.reassembly == (ReassemblyView { started: false, total: 0, received: Seq::empty() }),
        2 <= m.len() <= MAX_MESSAGE_LEN,
        carries(m, views(chunks)),
        1 <= k <= chunks.len(),
    ensures
        k < chunks.len() ==> run(v1, receipts(chunks.subrange(0, k as int))) == (ExchangeView {
            stage: Stage::NextReport,
            reassembly: ReassemblyView {
                started: true,
                total: m.len(),
                received: gathered(views(chunks), k),
            },
            ..v1
        }),
        k == chunks.len() ==> run(v1, receipts(chunks.subrange(0, k as int))).stage == Stage::Done
            && run(v1, receipts(chunks.subrange(0, k as int))).outcome == Some(
            Ok::<(Seq<u8>, Seq<u8>), TransportError>(split_status(m)),
        ),
    decreases k,
{
    let rs = views(chunks);
    let n = m.len();
    lemma_round_trip_gathered(m, rs, k);
    assert(59 * (k - 1) < n + 2) by (nonlinear_arith)
        requires
            k <= (n + 2 + 58) / 59,
            k >= 1;
    if k < chunks.len() {
        assert(59 * k < n + 2) by (nonlinear_arith)
            requires
                k < (n + 2 + 58) / 59;
    } else {
        assert(59 * k >= n + 2) by (nonlinear_arith)
            requires
                k == (n + 2 + 58) / 59;
    }
    assert(gathered(rs, k).len() == (if 59 * k - 2 < n { 59 * k - 2 } else { n as int }));
    let e = Event::Received(chunks[k - 1]);
    let before = receipts(chunks.subrange(0, k - 1));
    assert(receipts(chunks.subrange(0, k as int)) =~= before.push(e));
    lemma_run_push(v1, before, e);
    if k == 1 {
        assert(before =~= Seq::<Event>::empty());
        assert(rs[0].len() == 64);
        assert(pushed(v1.reassembly, chunks[0]@) == Ok::<ReassemblyView, TransportError>(
            ReassemblyView { started: true, total: n, received: gathered(rs, 1) },
        ));
    } else {
        let j = (k - 1) as nat;
        lemma_receipts(v1, chunks, m, j);
        assert(gathered(rs, k) == gathered(rs, j) + crate::hid::part(
            rs[j as int],
            5,
            declared_len(rs[0]) - gathered(rs, j).len(),
        ));
    }
    if k == chunks.len() {
        assert(gathered(rs, k) =~= m);
    }
}

/// Over HID, once every report of the command has been written and the
/// reads deliver the reports that carry `body` and `sw`, the exchange is
/// done and returns `body` and `sw`.
pub proof fn lemma_hid_exchange(
    c: CommView,
    apdu: Seq<u8>,
    body: Seq<u8>,
    sw: Seq<u8>,
    responses: Seq<Vec<u8>>,
)
    requires
        c.backend == BackendType::Hid,
        apdu.len() <= MAX_MESSAGE_LEN,
        sw.len() == 2,
        body.len() + 2 <= MAX_MESSAGE_LEN,
        views(responses) == incoming(encoded(body + sw)),
    ensures
        ({
            let v = run(
                fresh_exchange(c, apdu),
                writes(encoded(apdu).len()) + receipts(responses),
            );
            v.stage == Stage::Done && v.outcome == Some(
                Ok::<(Seq<u8>, Seq<u8>), TransportError>((body, sw)),
            )
        }),
{
    let v0 = fresh_exchange(c, apdu);
    let n_out = encoded(apdu).len();
    lemma_writes(v0, n_out);
    lemma_run_concat(v0, writes(n_out), receipts(responses));
    let v1 = run(v0, writes(n_out));
    let m = body + sw;
    let rs = views(responses);
    crate::hid_lemmas::lemma_incoming_carries(m);
    lemma_receipts(v1, responses, m, responses.len());
    assert(responses.subrange(0, responses.len() as int) =~= responses);
    assert(split_status(m).0 =~= body);
    assert(split_status(m).1 =~= sw);
}

/// Over the socket, once the command's frame has been written and the reads
/// deliver a length prefix, a body of that length and a status word, the
/// exchange is done and returns that body and status word.
pub proof fn lemma_socket_exchange(
    c: CommView,
    apdu: Seq<u8>,
    prefix: Vec<u8>,
    body: Vec<u8>,
    sw: Vec<u8>,
)
    requires
        c.backend == BackendType::Speculos,
        apdu.len() <= MAX_FRAME_PAYLOAD,
        body@.len() <= MAX_FRAME_PAYLOAD,
        prefix@ == be32(body@.len()),
        sw@.len() == 2,
    ensures
        ({
            let v = run(
                fresh_exchange(c, apdu),
                seq![Event::Written, Event::Received(prefix), Event::Received(body), Event::Received(sw)],
            );
            v.stage == Stage::Done && v.outcome == Some(
                Ok::<(Seq<u8>, Seq<u8>), TransportError>((body@, sw@)),
            )
        }),
{
    crate::socket::lemma_socket_round_trip(body@);
    assert(be32_value(frame(body@)) == body@.len());
    assert(frame(body@).subrange(0, 4) =~= prefix@);
    assert(be32_value(prefix@) == body@.len());
    let events = seq![Event::Written, Event::Received(prefix), Event::Received(body), Event::Received(sw)];
    let v0 = fresh_exchange(c, apdu);
    assert(v0.frames.len() == 1);
    reveal_with_fuel(run, 5);
    assert(events.drop_first() =~= seq![Event::Received(prefix), Event::Received(body), Event::Received(sw)]);
    assert(events.drop_first().drop_first() =~= seq![Event::Received(body), Event::Received(sw)]);
    assert(events.drop_first().drop_first().drop_first() =~= seq![Event::Received(sw)]);
    assert(events.drop_first().drop_first().drop_first().drop_first() =~= Seq::<Event>::empty());
}

} // verus!
