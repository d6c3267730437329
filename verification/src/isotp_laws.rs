//! Laws of the ISO-TP codec: what the sending side emits, the receiving side
//! reassembles into the PDU that was sent.
use crate::isotp::{
    accepts, advance, consecutive_frame, first_frame, first_frame_len, frame_kind, frame_payload,
    min, next_chunk, on_frame, on_send, on_tick, single_frame, step, stmin_nanos, unchanged,
    with_tx, IsotpModel, RxModel, RxOutcome, TxModel, TxProgressModel,
};
use crate::payloads::{pad8, CanFrame, IsotpFrameType, ISOTP_MAX_PDU_SIZE};
use crate::time::elapsed;
use vstd::prelude::*;

verus! {

/// Payload bytes of the Consecutive Frame carrying `d` from offset `off`
/// with sequence number `sn`.
pub open spec fn cf_payload(d: Seq<u8>, off: int, sn: u8) -> Seq<u8> {
    frame_payload(consecutive_frame(d.subrange(off, min(off + 7, d.len() as int)), sn))
}

/// Payload bytes of the Consecutive Frames carrying `d` from offset `off`
/// on, the first with sequence number `sn`.
pub open spec fn consecutive_payloads(d: Seq<u8>, off: int, sn: u8) -> Seq<Seq<u8>>
    decreases d.len() - off,
{
    if off >= d.len() || off < 0 {
        Seq::empty()
    } else if off + 7 >= d.len() {
        seq![cf_payload(d, off, sn)]
    } else {
        seq![cf_payload(d, off, sn)] + consecutive_payloads(d, off + 7, ((sn + 1) % 256) as u8)
    }
}

/// Payload bytes of every frame of a segmented transfer of `d`: the First
/// Frame, then Consecutive Frames numbered from 1.
pub open spec fn segments(d: Seq<u8>) -> Seq<Seq<u8>> {
    seq![frame_payload(first_frame(d))] + consecutive_payloads(d, 6, 1)
}

/// Outcome of receiving the frames `frames` in order at `now`: the state after
/// the last one, and what the last one delivered.
pub open spec fn receive_all(m: IsotpModel, frames: Seq<Seq<u8>>, now: u64) -> RxOutcome
    decreases frames.len(),
{
    if frames.len() == 0 {
        unchanged(m)
    } else if frames.len() == 1 {
        on_frame(m, frames[0], now)
    } else {
        receive_all(on_frame(m, frames[0], now).codec, frames.drop_first(), now)
    }
}

proof fn lemma_pad8_take(s: Seq<u8>)
    requires
        s.len() <= 8,
    ensures
        pad8(s).take(s.len() as int) == s,
{
    assert(pad8(s).take(s.len() as int) =~= s);
}

/// A Single Frame of 1 to 7 bytes is received as the PDU it carries.
pub proof fn lemma_single_frame_roundtrip(m: IsotpModel, d: Seq<u8>, now: u64)
    requires
        1 <= d.len() <= 7,
    ensures
        on_frame(m, frame_payload(single_frame(d)), now).pdu == Some(d),
        on_frame(m, frame_payload(single_frame(d)), now).codec.rx == RxModel::Idle,
        on_frame(m, frame_payload(single_frame(d)), now).flow_control is None,
{
    let bytes = seq![(d.len() % 256) as u8] + d.take(min(d.len() as int, 7));
    assert(d.take(d.len() as int) =~= d);
    lemma_pad8_take(bytes);
    let p = frame_payload(single_frame(d));
    assert(p == bytes);
    assert(p[0] == d.len());
    assert(p[0] / 16 == 0);
    assert(frame_kind(p) == IsotpFrameType::SingleFrame);
    assert(p.subrange(1, 1 + d.len() as int) =~= d);
}

/// Receiving the Consecutive Frames of `d` from offset `off` into a
/// reassembly that already holds `d`'s first `off` bytes delivers `d`.
proof fn lemma_consecutive_reassembly(m: IsotpModel, d: Seq<u8>, off: int, sn: u8, now: u64)
    requires
        0 <= off < d.len() <= ISOTP_MAX_PDU_SIZE,
        m.rx == (RxModel::Receiving {
            expected_len: d.len() as int,
            received: d.take(off),
            next_sn: sn,
            last_cf_time: m.rx->last_cf_time,
        }),
    ensures
        receive_all(m, consecutive_payloads(d, off, sn), now).pdu == Some(d),
        receive_all(m, consecutive_payloads(d, off, sn), now).codec.rx == RxModel::Idle,
    decreases d.len() - off,
{
    let end = min(off + 7, d.len() as int);
    let chunk = d.subrange(off, end);
    let bytes = seq![(0x20 + sn % 16) as u8] + chunk.take(min(chunk.len() as int, 7));
    assert(chunk.take(min(chunk.len() as int, 7)) =~= chunk);
    lemma_pad8_take(bytes);
    let p = cf_payload(d, off, sn);
    assert(p == bytes);
    assert(p[0] / 16 == 2);
    assert(p[0] % 16 == sn % 16);
    assert(frame_kind(p) == IsotpFrameType::ConsecutiveFrame);
    assert(p.subrange(1, 1 + chunk.len() as int) =~= chunk);
    assert(d.take(off) + chunk =~= d.take(end));
    let r = on_frame(m, p, now);
    let rest = consecutive_payloads(d, off + 7, ((sn + 1) % 256) as u8);
    if end == d.len() {
        assert(d.take(end) =~= d);
        assert(consecutive_payloads(d, off, sn) =~= seq![p]);
    } else {
        assert(consecutive_payloads(d, off, sn) =~= seq![p] + rest);
        lemma_consecutive_reassembly(r.codec, d, off + 7, ((sn + 1) % 256) as u8, now);
        assert((seq![p] + rest).drop_first() =~= rest);
    }
}

/// Segmentation and reassembly are inverse: receiving, in order, every frame
/// of a segmented transfer of a PDU of 8 to 4095 bytes delivers that PDU,
/// whatever the receiver was doing before, and leaves it idle.
pub proof fn lemma_segmentation_reassembly_roundtrip(m: IsotpModel, d: Seq<u8>, now: u64)
    requires
        8 <= d.len() <= ISOTP_MAX_PDU_SIZE,
    ensures
        receive_all(m, segments(d), now).pdu == Some(d),
        receive_all(m, segments(d), now).codec.rx == RxModel::Idle,
{
    let n = d.len();
    let bytes = seq![(0x10 + (n / 256) % 16) as u8, (n % 256) as u8] + d.take(min(n as int, 6));
    lemma_pad8_take(bytes);
    let p = frame_payload(first_frame(d));
    assert(p == bytes);
    assert(p[0] / 16 == 1);
    assert(frame_kind(p) == IsotpFrameType::FirstFrame);
    assert(first_frame_len(p) == n) by {
        assert(p[0] % 16 == (n / 256) % 16);
        assert(p[1] == n % 256);
    }
    assert(p.subrange(2, 8) =~= d.take(6));
    let r = on_frame(m, p, now);
    lemma_consecutive_reassembly(r.codec, d, 6, 1, now);
    let rest = consecutive_payloads(d, 6, 1);
    assert(segments(d) =~= seq![p] + rest);
    assert((seq![p] + rest).drop_first() =~= rest);
    assert(rest.len() >= 1);
}

/// State and emitted frame payloads after `k` sending steps at `now`.
pub open spec fn transmit(m: IsotpModel, k: nat, now: u64) -> (IsotpModel, Seq<Seq<u8>>)
    decreases k,
{
    if k == 0 {
        (m, Seq::empty())
    } else {
        let t = on_tick(m, now);
        let rest = transmit(t.codec, (k - 1) as nat, now);
        match t.frame {
            Some(f) => (rest.0, seq![frame_payload(f)] + rest.1),
            None => rest,
        }
    }
}

/// Payload of a Flow Control ContinueToSend frame with no block limit and no
/// separation time.
pub open spec fn clear_to_send_all() -> Seq<u8> {
    seq![0x30u8, 0u8, 0u8]
}

/// Number of Consecutive Frames of a segmented transfer of `d`.
pub open spec fn consecutive_count(d: Seq<u8>) -> nat {
    consecutive_payloads(d, 6, 1).len()
}

/// A sender with nothing to wait for emits, one per step, exactly the
/// Consecutive Frames of `d` from its offset on.
proof fn lemma_emits_consecutive(m: IsotpModel, d: Seq<u8>, now: u64)
    requires
        m.tx matches TxModel::Sending(p) && {
            &&& p.buffer == d
            &&& 6 <= p.offset < d.len() <= ISOTP_MAX_PDU_SIZE
            &&& !p.waiting_fc
            &&& p.bs == 0
            &&& p.stmin == 0
        },
    ensures
        ({
            let p = m.tx->Sending_0;
            let k = consecutive_payloads(d, p.offset, p.next_sn).len();
            &&& transmit(m, k, now).1 == consecutive_payloads(d, p.offset, p.next_sn)
            &&& transmit(m, k, now).0.tx matches TxModel::Sending(q) && q.offset == d.len()
                && q.buffer == d && !q.waiting_fc && q.bs == 0 && q.stmin == 0
        }),
    decreases d.len() - m.tx->Sending_0.offset,
{
    let p = m.tx->Sending_0;
    let off = p.offset;
    let sn = p.next_sn;
    let t = on_tick(m, now);
    let chunk = next_chunk(p);
    assert(chunk =~= d.subrange(off, min(off + 7, d.len() as int)));
    assert(t.frame == Some(consecutive_frame(chunk, sn)));
    let p2 = advance(p, now);
    assert(t.codec == with_tx(m, TxModel::Sending(p2)));
    let k = consecutive_payloads(d, off, sn).len();
    if off + 7 >= d.len() {
        assert(consecutive_payloads(d, off, sn) =~= seq![cf_payload(d, off, sn)]);
        assert(transmit(t.codec, 0, now).1 =~= Seq::<Seq<u8>>::empty());
        assert(transmit(m, 1, now).1 =~= seq![cf_payload(d, off, sn)]);
    } else {
        let sn2 = ((sn + 1) % 256) as u8;
        lemma_emits_consecutive(t.codec, d, now);
        let rest = consecutive_payloads(d, off + 7, sn2);
        assert(consecutive_payloads(d, off, sn) =~= seq![cf_payload(d, off, sn)] + rest);
        assert(k == rest.len() + 1);
        assert(((k - 1) as nat) == rest.len());
        assert(transmit(m, k, now).1 =~= seq![cf_payload(d, off, sn)] + rest);
    }
}

/// A segmented transfer of a PDU of 8 to 4095 bytes, once the receiver
/// allows it with no block limit and no separation time, emits exactly the
/// frames of `segments(d)`, one Consecutive Frame per step; the step after
/// the last one returns the sender to idle.
pub proof fn lemma_transmission_emits_segments(m: IsotpModel, d: Seq<u8>, now: u64)
    requires
        8 <= d.len() <= ISOTP_MAX_PDU_SIZE,
    ensures
        ({
            let s = on_send(m, d, now);
            let m2 = on_frame(s.codec, clear_to_send_all(), now).codec;
            let k = consecutive_count(d);
            &&& s.frame is Some
            &&& seq![frame_payload(s.frame->Some_0)] + transmit(m2, k, now).1 == segments(d)
            &&& transmit(m2, k + 1, now).0.tx == TxModel::Idle
        }),
{
    let s = on_send(m, d, now);
    let fc = clear_to_send_all();
    assert(fc[0] / 16 == 3);
    assert(frame_kind(fc) == crate::payloads::IsotpFrameType::FlowControl);
    assert(stmin_nanos(0) == 0);
    let m2 = on_frame(s.codec, fc, now).codec;
    lemma_emits_consecutive(m2, d, now);
    let k = consecutive_count(d);
    assert(seq![frame_payload(s.frame->Some_0)] + transmit(m2, k, now).1 =~= segments(d));
    lemma_transmit_split(m2, k, now);
}

/// One more step after `k` steps.
proof fn lemma_transmit_split(m: IsotpModel, k: nat, now: u64)
    ensures
        transmit(m, k + 1, now).0 == on_tick(transmit(m, k, now).0, now).codec,
    decreases k,
{
    let t = on_tick(m, now);
    assert(transmit(m, k + 1, now).0 == transmit(t.codec, k, now).0);
    if k > 0 {
        lemma_transmit_split(t.codec, (k - 1) as nat, now);
        assert(transmit(m, k, now).0 == transmit(t.codec, (k - 1) as nat, now).0);
        assert((((k - 1) as nat) + 1) as nat == k);
    } else {
        assert(transmit(t.codec, 0, now).0 == t.codec);
    }
}

/// Payload of a Flow Control Wait frame.
pub open spec fn wait_frame() -> Seq<u8> {
    seq![0x31u8, 0u8, 0u8]
}

/// `k` Flow Control Wait frames.
pub open spec fn waits(k: nat) -> Seq<Seq<u8>> {
    Seq::new(k, |i: int| wait_frame())
}

/// Wait Flow Control: each Wait frame restarts the N_Bs timer and counts; the
/// transmission goes on waiting until the count reaches N_WFTmax, and is
/// aborted by the Wait frame that reaches it.
pub proof fn lemma_wait_frames_abort_at_max(m: IsotpModel, k: nat, now: u64)
    requires
        m.tx matches TxModel::Sending(p) && p.wait_fc_count + k <= m.n_wft_max,
        k >= 1,
    ensures
        ({
            let p = m.tx->Sending_0;
            let after = receive_all(m, waits(k), now).codec;
            if p.wait_fc_count + k >= m.n_wft_max {
                after.tx == TxModel::Idle
            } else {
                after.tx == TxModel::Sending(
                    TxProgressModel {
                        wait_fc_count: (p.wait_fc_count + k) as u8,
                        fc_wait_start: now,
                        ..p
                    },
                )
            }
        }),
    decreases k,
{
    let w = wait_frame();
    assert(w[0] / 16 == 3 && w[0] % 16 == 1);
    assert(frame_kind(w) == crate::payloads::IsotpFrameType::FlowControl);
    let r = on_frame(m, w, now);
    if k == 1 {
        assert(waits(1) =~= seq![w]);
    } else {
        let k1 = (k - 1) as nat;
        assert(waits(k).drop_first() =~= waits(k1));
        assert(waits(k)[0] == w);
        lemma_wait_frames_abort_at_max(r.codec, k1, now);
    }
}

/// STmin: when the sender emits two Consecutive Frames in two successive
/// steps at `t1` and then `t2 >= t1` with a nonzero separation time, at
/// least that time lies between them.
pub proof fn lemma_stmin_spacing(m: IsotpModel, t1: u64, t2: u64)
    requires
        m.tx matches TxModel::Sending(p) && p.stmin > 0,
        t1 <= t2,
        on_tick(m, t1).frame is Some,
        on_tick(on_tick(m, t1).codec, t2).frame is Some,
    ensures
        t2 - t1 >= m.tx->Sending_0.stmin,
{
}

/// Block size: a sender cleared to send with `r` frames left in its block,
/// no separation time and more than `r` frames' worth of data left, emits
/// exactly `r` Consecutive Frames in `r` steps and then waits for the next
/// Flow Control with a fresh block of the advertised size; the step after
/// that emits nothing.
pub proof fn lemma_block_size_pauses(m: IsotpModel, r: nat, now: u64)
    requires
        m.tx matches TxModel::Sending(p) && {
            &&& p.buffer.len() <= ISOTP_MAX_PDU_SIZE
            &&& 0 <= p.offset
            &&& p.offset + 7 * r < p.buffer.len()
            &&& !p.waiting_fc
            &&& p.bs > 0
            &&& p.block_remaining == r
            &&& p.stmin == 0
        },
        r >= 1,
    ensures
        transmit(m, r, now).1.len() == r,
        transmit(m, r, now).0.tx matches TxModel::Sending(q) && q.waiting_fc && q.block_remaining
            == m.tx->Sending_0.bs,
        on_tick(transmit(m, r, now).0, now).frame is None,
    decreases r,
{
    let p = m.tx->Sending_0;
    let t = on_tick(m, now);
    assert(next_chunk(p).len() == 7);
    let p2 = advance(p, now);
    assert(t.codec == with_tx(m, TxModel::Sending(p2)));
    assert(t.frame is Some);
    if r == 1 {
        assert(p2.waiting_fc && p2.block_remaining == p.bs);
        assert(transmit(t.codec, 0, now).1.len() == 0);
    } else {
        assert(p2.block_remaining == r - 1 && !p2.waiting_fc);
        lemma_block_size_pauses(t.codec, (r - 1) as nat, now);
    }
}

/// What a sender and a receiver do when linked, one sending step of the
/// sender per instant of `times`: each frame the sender emits is received at
/// once, and each Flow Control the receiver answers with is handed back to
/// the sender at the same instant.
#[verifier::ext_equal]
pub struct LinkRun {
    pub sender: IsotpModel,
    pub receiver: IsotpModel,
    /// Payloads of the frames the sender emitted, in order.
    pub frames: Seq<Seq<u8>>,
    /// For each emitted frame, the PDU its reception delivered, if any.
    pub delivered: Seq<Option<Seq<u8>>>,
}

pub open spec fn link(tx: IsotpModel, rx: IsotpModel, times: Seq<u64>) -> LinkRun
    decreases times.len(),
{
    if times.len() == 0 {
        LinkRun { sender: tx, receiver: rx, frames: Seq::empty(), delivered: Seq::empty() }
    } else {
        let t = times[0];
        let o = on_tick(tx, t);
        match o.frame {
            None => link(o.codec, rx, times.drop_first()),
            Some(f) => {
                let r = on_frame(rx, frame_payload(f), t);
                let tx2 = match r.flow_control {
                    Some(fc) => on_frame(o.codec, frame_payload(fc), t).codec,
                    None => o.codec,
                };
                let rest = link(tx2, r.codec, times.drop_first());
                LinkRun {
                    frames: seq![frame_payload(f)] + rest.frames,
                    delivered: seq![r.pdu] + rest.delivered,
                    ..rest
                }
            },
        }
    }
}

/// `n` receptions of which only the last delivers `d`.
pub open spec fn delivered_last(n: nat, d: Seq<u8>) -> Seq<Option<Seq<u8>>> {
    Seq::new(n, |i: int| if i == n - 1 { Some(d) } else { None })
}

/// Instants spaced by at least `gap`, the first at least `gap` after `start`.
pub open spec fn spaced(start: u64, times: Seq<u64>, gap: u64) -> bool {
    &&& times.len() >= 1
    &&& start + gap <= times[0]
    &&& forall|i: int| 0 <= i < times.len() - 1 ==> #[trigger] times[i] + gap <= times[i + 1]
}

/// Receiving the Consecutive Frame of `d` at offset `off` into a reassembly
/// that holds `d`'s first `off` bytes: it answers no Flow Control, delivers
/// `d` when it was the last one, and otherwise holds the next bytes.
proof fn lemma_cf_step(m: IsotpModel, d: Seq<u8>, off: int, sn: u8, now: u64)
    requires
        0 <= off < d.len() <= ISOTP_MAX_PDU_SIZE,
        m.rx == (RxModel::Receiving {
            expected_len: d.len() as int,
            received: d.take(off),
            next_sn: sn,
            last_cf_time: m.rx->last_cf_time,
        }),
    ensures
        ({
            let r = on_frame(m, cf_payload(d, off, sn), now);
            &&& r.flow_control is None
            &&& r.codec.tx == m.tx
            &&& if off + 7 >= d.len() {
                r.pdu == Some(d) && r.codec.rx == RxModel::Idle
            } else {
                r.pdu is None && r.codec.rx == (RxModel::Receiving {
                    expected_len: d.len() as int,
                    received: d.take(off + 7),
                    next_sn: ((sn + 1) % 256) as u8,
                    last_cf_time: now,
                })
            }
        }),
{
    let end = min(off + 7, d.len() as int);
    let chunk = d.subrange(off, end);
    let bytes = seq![(0x20 + sn % 16) as u8] + chunk.take(min(chunk.len() as int, 7));
    assert(chunk.take(min(chunk.len() as int, 7)) =~= chunk);
    lemma_pad8_take(bytes);
    let p = cf_payload(d, off, sn);
    assert(p == bytes);
    assert(p[0] / 16 == 2);
    assert(p[0] % 16 == sn % 16);
    assert(frame_kind(p) == IsotpFrameType::ConsecutiveFrame);
    assert(p.subrange(1, 1 + chunk.len() as int) =~= chunk);
    assert(d.take(off) + chunk =~= d.take(end));
    if end == d.len() {
        assert(d.take(end) =~= d);
    }
}

/// The linked run from a sender cleared to send the Consecutive Frames of
/// `d` from offset `off` on, into a receiver holding `d`'s first `off` bytes.
proof fn lemma_link_consecutive(tx: IsotpModel, rx: IsotpModel, d: Seq<u8>, times: Seq<u64>)
    requires
        tx.tx matches TxModel::Sending(p) && {
            &&& p.buffer == d
            &&& 6 <= p.offset < d.len() <= ISOTP_MAX_PDU_SIZE
            &&& !p.waiting_fc
            &&& p.bs == 0 || consecutive_payloads(d, p.offset, p.next_sn).len() <= p.block_remaining
            &&& spaced(p.last_cf_time, times, p.stmin)
            &&& times.len() == consecutive_payloads(d, p.offset, p.next_sn).len()
            &&& rx.rx == (RxModel::Receiving {
                expected_len: d.len() as int,
                received: d.take(p.offset),
                next_sn: p.next_sn,
                last_cf_time: rx.rx->last_cf_time,
            })
        },
    ensures
        ({
            let p = tx.tx->Sending_0;
            let run = link(tx, rx, times);
            &&& run.frames == consecutive_payloads(d, p.offset, p.next_sn)
            &&& run.delivered == delivered_last(times.len(), d)
            &&& run.receiver.rx == RxModel::Idle
            &&& run.sender.tx matches TxModel::Sending(q) && q.buffer == d && q.offset >= d.len()
                && !q.waiting_fc
        }),
    decreases d.len() - tx.tx->Sending_0.offset,
{
    let p = tx.tx->Sending_0;
    let off = p.offset;
    let sn = p.next_sn;
    let t = times[0];
    let o = on_tick(tx, t);
    let chunk = next_chunk(p);
    assert(chunk =~= d.subrange(off, min(off + 7, d.len() as int)));
    assert(elapsed(t, p.last_cf_time) >= p.stmin);
    assert(o.frame == Some(consecutive_frame(chunk, sn)));
    let p2 = advance(p, t);
    assert(o.codec == with_tx(tx, TxModel::Sending(p2)));
    let f = frame_payload(consecutive_frame(chunk, sn));
    assert(f == cf_payload(d, off, sn));
    lemma_cf_step(rx, d, off, sn, t);
    let r = on_frame(rx, f, t);
    let rest = link(o.codec, r.codec, times.drop_first());
    assert(link(tx, rx, times) == (LinkRun {
        frames: seq![f] + rest.frames,
        delivered: seq![r.pdu] + rest.delivered,
        ..rest
    }));
    if off + 7 >= d.len() {
        assert(consecutive_payloads(d, off, sn) =~= seq![f]);
        assert(times.drop_first().len() == 0);
        assert(seq![f] + rest.frames =~= seq![f]);
        assert(seq![r.pdu] + rest.delivered =~= delivered_last(times.len(), d));
    } else {
        let sn2 = ((sn + 1) % 256) as u8;
        let tail = consecutive_payloads(d, off + 7, sn2);
        assert(consecutive_payloads(d, off, sn) =~= seq![f] + tail);
        assert(p2.offset == off + 7);
        assert(p2.next_sn == sn2);
        assert(!p2.waiting_fc);
        assert(p2.bs == 0 || tail.len() <= p2.block_remaining);
        let ts2 = times.drop_first();
        assert(spaced(p2.last_cf_time, ts2, p2.stmin)) by {
            assert(times[0] + p.stmin <= times[1]);
            assert forall|i: int| 0 <= i < ts2.len() - 1 implies #[trigger] ts2[i] + p2.stmin
                <= ts2[i + 1] by {
                assert(times[i + 1] + p.stmin <= times[i + 2]);
            }
        }
        lemma_link_consecutive(o.codec, r.codec, d, ts2);
        assert(seq![r.pdu] + rest.delivered =~= delivered_last(times.len(), d));
    }
}

/// The whole transfer over a link. A PDU of 8 to 4095 bytes is sent as a
/// First Frame at `t0`; the receiver, whatever it was doing, answers it with
/// Flow Control advertising its block size and STmin, which the sender takes
/// at once; then one sending step per instant of `times`, spaced by at least
/// that STmin. When the receiver's block size is zero or covers every
/// Consecutive Frame, the sender emits exactly the frames of `segments(d)`,
/// no reception but the last delivers anything, the last delivers `d`, the
/// receiver is left idle and the sender's next step returns it to idle.
pub proof fn lemma_link_roundtrip(tx: IsotpModel, rx: IsotpModel, d: Seq<u8>, t0: u64, times: Seq<u64>)
    requires
        8 <= d.len() <= ISOTP_MAX_PDU_SIZE,
        rx.block_size == 0 || consecutive_count(d) <= rx.block_size,
        times.len() == consecutive_count(d),
        spaced(t0, times, stmin_nanos(rx.st_min)),
    ensures
        ({
            let s = on_send(tx, d, t0);
            let ff = on_frame(rx, frame_payload(s.frame->Some_0), t0);
            let tx1 = on_frame(s.codec, frame_payload(ff.flow_control->Some_0), t0).codec;
            let run = link(tx1, ff.codec, times);
            &&& s.frame is Some
            &&& ff.pdu is None
            &&& ff.flow_control is Some
            &&& seq![frame_payload(s.frame->Some_0)] + run.frames == segments(d)
            &&& run.delivered == delivered_last(times.len(), d)
            &&& run.receiver.rx == RxModel::Idle
            &&& forall|t: u64| (#[trigger] on_tick(run.sender, t)).codec.tx == TxModel::Idle
        }),
{
    let n = d.len();
    let s = on_send(tx, d, t0);
    let bytes = seq![(0x10 + (n / 256) % 16) as u8, (n % 256) as u8] + d.take(min(n as int, 6));
    lemma_pad8_take(bytes);
    let p = frame_payload(first_frame(d));
    assert(p == bytes);
    assert(p[0] / 16 == 1);
    assert(frame_kind(p) == IsotpFrameType::FirstFrame);
    assert(first_frame_len(p) == n) by {
        assert(p[0] % 16 == (n / 256) % 16);
        assert(p[1] == n % 256);
    }
    assert(p.subrange(2, 8) =~= d.take(6));
    let ff = on_frame(rx, p, t0);
    let fcb = seq![0x30u8, rx.block_size, rx.st_min];
    lemma_pad8_take(fcb);
    let fc = frame_payload(ff.flow_control->Some_0);
    assert(fc == fcb);
    assert(fc[0] / 16 == 3 && fc[0] % 16 == 0);
    assert(frame_kind(fc) == IsotpFrameType::FlowControl);
    let sp = s.codec.tx->Sending_0;
    assert(s.codec.tx is Sending && sp.buffer == d && sp.offset == 6 && sp.next_sn == 1);
    let tx1 = on_frame(s.codec, fc, t0).codec;
    assert(tx1.tx == TxModel::Sending(
        TxProgressModel {
            waiting_fc: false,
            bs: rx.block_size,
            block_remaining: rx.block_size,
            stmin: stmin_nanos(rx.st_min),
            last_cf_time: t0,
            wait_fc_count: 0,
            ..sp
        },
    ));
    assert(ff.codec.rx == (RxModel::Receiving {
        expected_len: n as int,
        received: d.take(6),
        next_sn: 1,
        last_cf_time: t0,
    }));
    assert(consecutive_payloads(d, 6, 1).len() == consecutive_count(d));
    lemma_link_consecutive(tx1, ff.codec, d, times);
    let run = link(tx1, ff.codec, times);
    assert(seq![p] + run.frames =~= segments(d));
    assert forall|t: u64| (#[trigger] on_tick(run.sender, t)).codec.tx == TxModel::Idle by {
        let q = run.sender.tx->Sending_0;
        assert(q.offset >= q.buffer.len());
    }
}

/// Frames too short for what their first byte announces are ignored: a
/// frame with no bytes, a Single Frame holding fewer bytes than its length
/// says, a First Frame without its length byte or announcing no bytes at
/// all, and a Flow Control frame
/// without its block size and STmin leave the codec as it was and produce
/// nothing.
pub proof fn lemma_short_frames_ignored(m: IsotpModel, d: Seq<u8>, now: u64)
    requires
        d.len() == 0 || (frame_kind(d) == IsotpFrameType::SingleFrame && d.len() < 1 + d[0] % 16)
            || (frame_kind(d) == IsotpFrameType::FirstFrame && (d.len() < 2 || first_frame_len(d)
            == 0)) || (frame_kind(d)
            == IsotpFrameType::FlowControl && d.len() < 3),
    ensures
        on_frame(m, d, now) == unchanged(m),
{
}

/// Every frame a processing cycle transmits (Flow Control, Single or First
/// Frame, Consecutive Frame) goes out on the codec's transmit identifier.
pub proof fn lemma_step_sends_on_tx_id(
    m: IsotpModel,
    now: u64,
    can: Option<CanFrame>,
    input: Option<Seq<u8>>,
)
    ensures
        step(m, now, can, input).can matches Some(f) ==> f.id == m.tx_can_id,
{
}

/// N_Bs runs from the latest Flow Control Wait: once a processing cycle at
/// `t` has taken a Wait frame (below N_WFTmax) for a transmission waiting for
/// Flow Control, a later cycle with no input keeps the transmission exactly
/// while no more than the N_Bs timeout has elapsed since `t`, whenever the
/// transmission started or its previous Flow Control came.
pub proof fn lemma_wait_restarts_n_bs(m: IsotpModel, t: u64, f: CanFrame, t2: u64)
    requires
        m.tx matches TxModel::Sending(p) && p.waiting_fc && elapsed(t, p.fc_wait_start)
            <= m.n_bs_timeout && p.wait_fc_count + 1 < m.n_wft_max,
        accepts(m, f),
        f.payload().len() >= 3,
        f.payload()[0] == 0x31,
    ensures
        step(m, t, Some(f), None).codec.tx is Sending,
        (step(step(m, t, Some(f), None).codec, t2, None, None).codec.tx is Sending) <==> elapsed(
            t2,
            t,
        ) <= m.n_bs_timeout,
{
    let d = f.payload();
    assert(d[0] / 16 == 3 && d[0] % 16 == 1);
    assert(frame_kind(d) == IsotpFrameType::FlowControl);
}

/// A reassembly delivers exactly the length the First Frame announced: when
/// a Consecutive Frame (padded or not) completes a reassembly in progress,
/// the PDU is the bytes received so far followed by the first bytes of the
/// frame's data, up to the announced length and no further.
pub proof fn lemma_reassembly_delivers_announced_length(m: IsotpModel, d: Seq<u8>, now: u64)
    requires
        m.rx.wf(),
        m.rx is Receiving,
        d.len() >= 1,
        frame_kind(d) == IsotpFrameType::ConsecutiveFrame,
        on_frame(m, d, now).pdu is Some,
    ensures
        ({
            let expected = m.rx->expected_len;
            let received = m.rx->received;
            let p = on_frame(m, d, now).pdu->Some_0;
            &&& p.len() == expected
            &&& p == received + d.subrange(1, 1 + expected - received.len())
        }),
{
}

/// N_Cr runs from the latest received frame of a reassembly: once a
/// processing cycle at `t` has taken a First Frame announcing at least one
/// byte, a later cycle with no input keeps the reassembly exactly while no
/// more than the N_Cr timeout has elapsed since `t`.
pub proof fn lemma_first_frame_starts_n_cr(m: IsotpModel, t: u64, f: CanFrame, t2: u64)
    requires
        accepts(m, f),
        f.payload().len() >= 2,
        f.payload()[0] / 16 == 1,
        first_frame_len(f.payload()) > 0,
    ensures
        step(m, t, Some(f), None).codec.rx is Receiving,
        (step(step(m, t, Some(f), None).codec, t2, None, None).codec.rx is Receiving) <==> elapsed(
            t2,
            t,
        ) <= m.n_cr_timeout,
{
    assert(frame_kind(f.payload()) == IsotpFrameType::FirstFrame);
}

} // verus!
