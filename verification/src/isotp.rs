//! ISO 15765-2 (ISO-TP) transport codec: segmentation of outgoing PDUs into
//! CAN frames and reassembly of incoming CAN frames into PDUs.
//!
//! Frame kinds, given by the high nibble of the first byte (PCI):
//! - Single Frame (0): payload of at most 7 bytes, length in the low nibble;
//! - First Frame (1): 12-bit total length, then the first 6 payload bytes;
//! - Consecutive Frame (2): 4-bit sequence number, then up to 7 payload bytes;
//! - Flow Control (3): flow status in the low nibble, block size, STmin.
//!
//! Timing: STmin pacing between consecutive frames, N_Bs (wait for Flow
//! Control), N_Cr (wait for the next Consecutive Frame) and N_WFTmax (Wait
//! Flow Control frames before abort).
use crate::payloads::{
    copy_range, pad8, CanFrame, CanId, FlowControlParams, FlowStatus, IsotpAddressingMode, IsotpFrameType,
    IsotpPdu, ISOTP_MAX_PDU_SIZE,
};
use crate::time::{elapsed, elapsed_since, from_micros, from_millis, micros, millis};
use vstd::prelude::*;

verus! {

/// Default block size we advertise (0 = no limit).
pub const DEFAULT_BLOCK_SIZE: u8 = 0;

/// Default STmin we advertise, in milliseconds.
pub const DEFAULT_ST_MIN_MS: u8 = 10;

/// Default N_Bs timeout (waiting for Flow Control) in milliseconds.
pub const DEFAULT_N_BS_TIMEOUT_MS: u64 = 1000;

/// Default N_Cr timeout (waiting for the next Consecutive Frame) in milliseconds.
pub const DEFAULT_N_CR_TIMEOUT_MS: u64 = 1000;

/// Default maximum number of Wait Flow Control frames before aborting.
pub const DEFAULT_N_WFT_MAX: u8 = 10;

/// Default CAN identifier we transmit on.
pub const DEFAULT_TX_ID: u32 = 0x7E0;

/// Default CAN identifier we accept.
pub const DEFAULT_RX_ID: u32 = 0x7E8;

/// Largest 11-bit CAN identifier.
pub const MAX_STANDARD_ID: u32 = 0x7FF;

/// Payload bytes carried by a First Frame.
pub const FIRST_FRAME_PAYLOAD: usize = 6;

/// Payload bytes carried by a Consecutive Frame.
pub const CONSECUTIVE_FRAME_PAYLOAD: usize = 7;

/// Largest payload of a Single Frame.
pub const SINGLE_FRAME_MAX: usize = 7;

// ---------------------------------------------------------------------------
// Wire format
// ---------------------------------------------------------------------------

pub open spec fn min(a: int, b: int) -> int {
    if a <= b {
        a
    } else {
        b
    }
}

/// The abstract content of a CAN frame.
#[verifier::ext_equal]
pub struct FrameModel {
    pub id: CanId,
    pub dlc: u8,
    pub data: Seq<u8>,
}

impl View for CanFrame {
    type V = FrameModel;

    open spec fn view(&self) -> FrameModel {
        FrameModel { id: self.id, dlc: self.dlc, data: self.data@ }
    }
}

/// The meaningful bytes of a frame: the first `dlc` data bytes.
pub open spec fn frame_payload(f: FrameModel) -> Seq<u8> {
    if f.dlc <= 8 {
        f.data.take(f.dlc as int)
    } else {
        f.data
    }
}

/// A frame built by the codec before its identifier is assigned:
/// identifier 0, the given DLC, `bytes` padded with zeros to eight.
pub open spec fn built(dlc: int, bytes: Seq<u8>) -> FrameModel {
    FrameModel { id: CanId::Standard(0), dlc: dlc as u8, data: pad8(bytes) }
}

/// `f` with its identifier replaced.
pub open spec fn with_id(f: FrameModel, id: CanId) -> FrameModel {
    FrameModel { id, ..f }
}

/// Kind of the frame whose meaningful bytes are `d`.
pub open spec fn frame_kind(d: Seq<u8>) -> IsotpFrameType {
    if d.len() == 0 {
        IsotpFrameType::SingleFrame
    } else if d[0] / 16 == 1 {
        IsotpFrameType::FirstFrame
    } else if d[0] / 16 == 2 {
        IsotpFrameType::ConsecutiveFrame
    } else if d[0] / 16 == 3 {
        IsotpFrameType::FlowControl
    } else {
        IsotpFrameType::SingleFrame
    }
}

/// Single Frame carrying `d`: PCI byte with the length, then up to 7 bytes.
pub open spec fn single_frame(d: Seq<u8>) -> FrameModel {
    built(min(d.len() + 1int, 8), seq![(d.len() % 256) as u8] + d.take(min(d.len() as int, 7)))
}

/// First Frame announcing `d.len()` bytes and carrying the first 6.
pub open spec fn first_frame(d: Seq<u8>) -> FrameModel {
    built(
        8,
        seq![(0x10 + (d.len() / 256) % 16) as u8, (d.len() % 256) as u8] + d.take(
            min(d.len() as int, 6),
        ),
    )
}

/// Consecutive Frame with sequence number `sn` (low nibble) carrying up to 7 bytes of `d`.
pub open spec fn consecutive_frame(d: Seq<u8>, sn: u8) -> FrameModel {
    built(min(d.len() as int, 7) + 1, seq![(0x20 + sn % 16) as u8] + d.take(min(d.len() as int, 7)))
}

/// Flow Control frame with status code `fs`, block size `bs` and STmin byte `st`.
pub open spec fn flow_control_frame(fs: u8, bs: u8, st: u8) -> FrameModel {
    built(3, seq![(0x30 + fs) as u8, bs, st])
}

/// STmin byte decoded to nanoseconds: 0x00-0x7F milliseconds,
/// 0xF1-0xF9 hundreds of microseconds, anything else 127 ms.
pub open spec fn stmin_nanos(raw: u8) -> u64 {
    if raw <= 0x7F {
        millis(raw as int) as u64
    } else if 0xF1 <= raw <= 0xF9 {
        micros((raw - 0xF0) * 100) as u64
    } else {
        millis(127) as u64
    }
}

/// A frame with `dlc` meaningful bytes taken from `bytes`, the rest zero.
fn frame_from(dlc: u8, bytes: &Vec<u8>) -> (f: CanFrame)
    requires
        bytes@.len() <= 8,
    ensures
        f@ == built(dlc as int, bytes@),
{
    let mut data: [u8; 8] = [0u8, 0, 0, 0, 0, 0, 0, 0];
    let n = bytes.len();
    let mut i: usize = 0;
    while i < n
        invariant
            n == bytes@.len() <= 8,
            i <= n,
            data@.len() == 8,
            forall|j: int| 0 <= j < i ==> data@[j] == bytes@[j],
            forall|j: int| i <= j < 8 ==> data@[j] == 0,
        decreases n - i,
    {
        data[i] = bytes[i];
        i = i + 1;
    }
    let f = CanFrame { id: CanId::Standard(0), dlc, data };
    assert(f.data@ =~= pad8(bytes@));
    f
}

/// Appends `src[start..end]` to `dst`.
fn append_range(dst: &mut Vec<u8>, src: &[u8], start: usize, end: usize)
    requires
        start <= end <= src@.len(),
    ensures
        final(dst)@ == old(dst)@ + src@.subrange(start as int, end as int),
{
    let ghost d0 = dst@;
    let mut i: usize = start;
    while i < end
        invariant
            start <= i <= end <= src@.len(),
            dst@ =~= d0 + src@.subrange(start as int, i as int),
        decreases end - i,
    {
        dst.push(src[i]);
        i = i + 1;
        assert(dst@ =~= d0 + src@.subrange(start as int, i as int));
    }
}

/// The meaningful bytes of a frame (all eight when the DLC is larger).
fn frame_bytes(frame: &CanFrame) -> (d: Vec<u8>)
    ensures
        d@ == frame.payload(),
{
    let mut d: Vec<u8> = Vec::new();
    let n: usize = if frame.dlc <= 8 {
        frame.dlc as usize
    } else {
        8
    };
    let mut i: usize = 0;
    while i < n
        invariant
            n <= 8,
            n == frame.payload().len(),
            i <= n,
            frame.data@.len() == 8,
            d@ =~= frame.data@.take(i as int),
        decreases n - i,
    {
        d.push(frame.data[i]);
        i = i + 1;
        assert(d@ =~= frame.data@.take(i as int));
    }
    assert(frame.payload() =~= frame.data@.take(n as int));
    d
}


// ---------------------------------------------------------------------------
// State
// ---------------------------------------------------------------------------

/// Abstract state of reassembly (receiving side).
#[verifier::ext_equal]
pub enum RxModel {
    Idle,
    /// Receiving consecutive frames; `received` holds the bytes so far.
    Receiving { expected_len: int, received: Seq<u8>, next_sn: u8, last_cf_time: u64 },
}

/// Abstract progress of a segmented transmission.
#[verifier::ext_equal]
pub struct TxProgressModel {
    /// The whole PDU being sent.
    pub buffer: Seq<u8>,
    /// Bytes of `buffer` already sent.
    pub offset: int,
    pub next_sn: u8,
    pub block_remaining: u8,
    pub bs: u8,
    pub waiting_fc: bool,
    /// Separation time between consecutive frames, in nanoseconds.
    pub stmin: u64,
    pub last_cf_time: u64,
    pub fc_wait_start: u64,
    pub wait_fc_count: u8,
}

/// Abstract state of segmentation (sending side).
#[verifier::ext_equal]
pub enum TxModel {
    Idle,
    Sending(TxProgressModel),
}

/// Abstract state of the codec.
#[verifier::ext_equal]
pub struct IsotpModel {
    pub tx_can_id: CanId,
    pub rx_can_id: CanId,
    /// Block size we advertise in our Flow Control frames.
    pub block_size: u8,
    /// STmin byte we advertise in our Flow Control frames.
    pub st_min: u8,
    pub addressing: IsotpAddressingMode,
    pub rx: RxModel,
    pub tx: TxModel,
    /// N_Bs timeout in nanoseconds.
    pub n_bs_timeout: u64,
    /// N_Cr timeout in nanoseconds.
    pub n_cr_timeout: u64,
    pub n_wft_max: u8,
}

impl RxModel {
    /// Reassembly never holds more than announced, nor more than a PDU can carry.
    pub open spec fn wf(self) -> bool {
        match self {
            RxModel::Idle => true,
            RxModel::Receiving { expected_len, received, .. } => received.len() <= expected_len
                <= ISOTP_MAX_PDU_SIZE,
        }
    }
}

impl TxModel {
    /// A transmission sends at most a PDU's worth of bytes, never past its end,
    /// and its Wait counter can still be incremented.
    pub open spec fn wf(self) -> bool {
        match self {
            TxModel::Idle => true,
            TxModel::Sending(p) => {
                &&& 0 <= p.offset <= p.buffer.len() <= ISOTP_MAX_PDU_SIZE
                &&& p.wait_fc_count < 255
            },
        }
    }
}

impl IsotpModel {
    pub open spec fn wf(self) -> bool {
        self.rx.wf() && self.tx.wf()
    }
}

enum RxState {
    Idle,
    Receiving { expected_len: usize, next_sn: u8, buffer: Vec<u8>, last_cf_time: u64 },
}

impl RxState {
    spec fn model(&self) -> RxModel {
        match self {
            RxState::Idle => RxModel::Idle,
            RxState::Receiving { expected_len, next_sn, buffer, last_cf_time } => {
                RxModel::Receiving {
                    expected_len: *expected_len as int,
                    received: buffer@,
                    next_sn: *next_sn,
                    last_cf_time: *last_cf_time,
                }
            },
        }
    }
}

struct TxProgress {
    buffer: Vec<u8>,
    offset: usize,
    next_sn: u8,
    block_remaining: u8,
    bs: u8,
    waiting_fc: bool,
    stmin: u64,
    last_cf_time: u64,
    fc_wait_start: u64,
    wait_fc_count: u8,
}

impl TxProgress {
    spec fn model(&self) -> TxProgressModel {
        TxProgressModel {
            buffer: self.buffer@,
            offset: self.offset as int,
            next_sn: self.next_sn,
            block_remaining: self.block_remaining,
            bs: self.bs,
            waiting_fc: self.waiting_fc,
            stmin: self.stmin,
            last_cf_time: self.last_cf_time,
            fc_wait_start: self.fc_wait_start,
            wait_fc_count: self.wait_fc_count,
        }
    }
}

enum TxState {
    Idle,
    Sending(TxProgress),
}

impl TxState {
    spec fn model(&self) -> TxModel {
        match self {
            TxState::Idle => TxModel::Idle,
            TxState::Sending(p) => TxModel::Sending(p.model()),
        }
    }
}

/// ISO-TP segmentation/reassembly codec.
///
/// Receiving side: CAN frames are reassembled into PDUs, answering First
/// Frames with Flow Control. Sending side: PDUs are sent as a Single Frame,
/// or as a First Frame followed, once Flow Control allows it, by Consecutive
/// Frames paced by STmin and the block size.
pub struct IsotpCodec {
    tx_can_id: CanId,
    rx_can_id: CanId,
    fc_params: FlowControlParams,
    addressing: IsotpAddressingMode,
    rx_state: RxState,
    tx_state: TxState,
    n_bs_timeout: u64,
    n_cr_timeout: u64,
    n_wft_max: u8,
}

impl View for IsotpCodec {
    type V = IsotpModel;

    closed spec fn view(&self) -> IsotpModel {
        IsotpModel {
            tx_can_id: self.tx_can_id,
            rx_can_id: self.rx_can_id,
            block_size: self.fc_params.block_size,
            st_min: self.fc_params.st_min,
            addressing: self.addressing,
            rx: self.rx_state.model(),
            tx: self.tx_state.model(),
            n_bs_timeout: self.n_bs_timeout,
            n_cr_timeout: self.n_cr_timeout,
            n_wft_max: self.n_wft_max,
        }
    }
}

impl IsotpCodec {
    #[verifier::type_invariant]
    spec fn inv(self) -> bool {
        &&& self.rx_state.model().wf()
        &&& self.tx_state.model().wf()
    }
}

// ---------------------------------------------------------------------------
// Frame encoding and decoding
// ---------------------------------------------------------------------------

impl IsotpCodec {
    /// Builds a Single Frame: PCI byte holding the length, then at most 7 bytes of `data`.
    pub fn build_single_frame(data: &[u8]) -> (f: CanFrame)
        ensures
            f@ == single_frame(data@),
    {
        let n = data.len();
        let copy = if n < SINGLE_FRAME_MAX {
            n
        } else {
            SINGLE_FRAME_MAX
        };
        let dlc: u8 = if n < SINGLE_FRAME_MAX {
            (n + 1) as u8
        } else {
            8
        };
        let mut bytes: Vec<u8> = Vec::new();
        proof {
            assert(n as u8 == (n % 256) as u8) by (bit_vector);
        }
        bytes.push(n as u8);
        append_range(&mut bytes, data, 0, copy);
        assert(data@.subrange(0, copy as int) =~= data@.take(min(data@.len() as int, 7)));
        frame_from(dlc, &bytes)
    }

    /// Builds a First Frame: 12-bit length of `data`, then its first 6 bytes.
    pub fn build_first_frame(data: &[u8]) -> (f: CanFrame)
        ensures
            f@ == first_frame(data@),
    {
        let n = data.len();
        let hi: u8 = ((n >> 8) & 0x0F) as u8;
        let lo: u8 = (n & 0xFF) as u8;
        proof {
            assert(((n >> 8) & 0x0F) as u8 == ((n / 256) % 16) as u8) by (bit_vector);
            assert((n & 0xFF) as u8 == (n % 256) as u8) by (bit_vector);
            assert(hi < 16 ==> 0x10u8 | hi == (0x10 + hi) as u8) by (bit_vector);
        }
        let copy = if n < FIRST_FRAME_PAYLOAD {
            n
        } else {
            FIRST_FRAME_PAYLOAD
        };
        let mut bytes: Vec<u8> = Vec::new();
        bytes.push(0x10u8 | hi);
        bytes.push(lo);
        append_range(&mut bytes, data, 0, copy);
        assert(data@.subrange(0, copy as int) =~= data@.take(min(data@.len() as int, 6)));
        assert(bytes@ =~= seq![(0x10 + (data@.len() / 256) % 16) as u8, (data@.len() % 256) as u8]
            + data@.take(min(data@.len() as int, 6)));
        frame_from(8, &bytes)
    }

    /// Builds a Consecutive Frame with sequence number `sn` and at most 7 bytes of `data`.
    pub fn build_consecutive_frame(data: &[u8], sn: u8) -> (f: CanFrame)
        ensures
            f@ == consecutive_frame(data@, sn),
    {
        let n = data.len();
        let copy = if n < CONSECUTIVE_FRAME_PAYLOAD {
            n
        } else {
            CONSECUTIVE_FRAME_PAYLOAD
        };
        let low: u8 = sn & 0x0F;
        proof {
            assert(sn & 0x0F == sn % 16) by (bit_vector);
            assert(low < 16 ==> 0x20u8 | low == (0x20 + low) as u8) by (bit_vector);
        }
        let mut bytes: Vec<u8> = Vec::new();
        bytes.push(0x20u8 | low);
        append_range(&mut bytes, data, 0, copy);
        assert(data@.subrange(0, copy as int) =~= data@.take(min(data@.len() as int, 7)));
        frame_from((copy + 1) as u8, &bytes)
    }

    /// Builds a Flow Control frame.
    pub fn build_flow_control(fs: FlowStatus, bs: u8, st_min: u8) -> (f: CanFrame)
        ensures
            f@ == flow_control_frame(fs.spec_code(), bs, st_min),
    {
        let code = fs.code();
        proof {
            assert(code <= 2 ==> 0x30u8 | code == (0x30 + code) as u8) by (bit_vector);
        }
        let mut bytes: Vec<u8> = Vec::new();
        bytes.push(0x30u8 | code);
        bytes.push(bs);
        bytes.push(st_min);
        assert(bytes@ =~= seq![(0x30 + fs.spec_code()) as u8, bs, st_min]);
        frame_from(3, &bytes)
    }

    /// Decodes the frame kind from the PCI byte; an empty frame, or an
    /// unknown nibble, counts as a Single Frame.
    pub fn frame_type(data: &[u8]) -> (t: IsotpFrameType)
        ensures
            t == frame_kind(data@),
    {
        if data.len() == 0 {
            return IsotpFrameType::SingleFrame;
        }
        let b = data[0];
        let nib = b >> 4;
        proof {
            assert(b >> 4 == b / 16) by (bit_vector);
        }
        if nib == 0 {
            IsotpFrameType::SingleFrame
        } else if nib == 1 {
            IsotpFrameType::FirstFrame
        } else if nib == 2 {
            IsotpFrameType::ConsecutiveFrame
        } else if nib == 3 {
            IsotpFrameType::FlowControl
        } else {
            IsotpFrameType::SingleFrame
        }
    }

    /// Decodes an STmin byte to nanoseconds: 0x00-0x7F are milliseconds,
    /// 0xF1-0xF9 are 100-900 microseconds, reserved values mean 127 ms.
    pub fn parse_stmin(raw: u8) -> (ns: u64)
        ensures
            ns == stmin_nanos(raw),
    {
        if raw <= 0x7F {
            from_millis(raw as u64)
        } else if 0xF1 <= raw && raw <= 0xF9 {
            from_micros((raw as u64 - 0xF0) * 100)
        } else {
            from_millis(127)
        }
    }
}

// ---------------------------------------------------------------------------
// Receiving side
// ---------------------------------------------------------------------------

/// What handling one received frame does: the new codec state, the PDU
/// completed by the frame, and the Flow Control frame to answer with.
#[verifier::ext_equal]
pub struct RxOutcome {
    pub codec: IsotpModel,
    pub pdu: Option<Seq<u8>>,
    pub flow_control: Option<FrameModel>,
}

/// The outcome that leaves everything as it was.
pub open spec fn unchanged(m: IsotpModel) -> RxOutcome {
    RxOutcome { codec: m, pdu: None, flow_control: None }
}

/// `m` with its receiving side replaced.
pub open spec fn with_rx(m: IsotpModel, rx: RxModel) -> IsotpModel {
    IsotpModel { rx, ..m }
}

/// `m` with its sending side replaced.
pub open spec fn with_tx(m: IsotpModel, tx: TxModel) -> IsotpModel {
    IsotpModel { tx, ..m }
}

/// Meaningful bytes of a frame that carries a PCI byte.
pub open spec fn has_pci(d: Seq<u8>) -> bool {
    1 <= d.len() <= 8
}

/// A Single Frame: a valid length (1..=7, present in the frame) delivers the
/// PDU at once and drops any reassembly in progress; otherwise it is ignored.
pub open spec fn on_single_frame(m: IsotpModel, d: Seq<u8>) -> RxOutcome {
    let sf_len = d[0] % 16;
    if sf_len == 0 || sf_len > 7 || d.len() < 1 + sf_len {
        unchanged(m)
    } else {
        RxOutcome {
            codec: with_rx(m, RxModel::Idle),
            pdu: Some(d.subrange(1, 1 + sf_len)),
            flow_control: None,
        }
    }
}

/// Total length announced by a First Frame.
pub open spec fn first_frame_len(d: Seq<u8>) -> int {
    (d[0] % 16) * 256 + d[1]
}

/// A First Frame starts a new reassembly (replacing any in progress) with
/// the bytes it carries, and is answered with Flow Control ContinueToSend
/// advertising our block size and STmin. One too short to hold its length,
/// or announcing no bytes at all, is ignored.
pub open spec fn on_first_frame(m: IsotpModel, d: Seq<u8>, now: u64) -> RxOutcome {
    let total = first_frame_len(d);
    let copy = min(d.len() - 2, total);
    if d.len() < 2 || total == 0 {
        unchanged(m)
    } else {
    RxOutcome {
        codec: with_rx(
            m,
            RxModel::Receiving {
                expected_len: total,
                received: d.subrange(2, 2 + copy),
                next_sn: 1,
                last_cf_time: now,
            },
        ),
        pdu: None,
        flow_control: Some(flow_control_frame(0, m.block_size, m.st_min)),
    }
    }
}

/// A Consecutive Frame continues the reassembly in progress: a wrong
/// sequence number aborts it; otherwise its bytes (never past the announced
/// length) are appended, and the PDU is delivered once complete.
pub open spec fn on_consecutive_frame(m: IsotpModel, d: Seq<u8>, now: u64) -> RxOutcome {
    match m.rx {
        RxModel::Idle => unchanged(m),
        RxModel::Receiving { expected_len, received, next_sn, .. } => {
            if d[0] % 16 != next_sn % 16 {
                unchanged(with_rx(m, RxModel::Idle))
            } else {
                let copy = min(min(d.len() - 1, 7), expected_len - received.len());
                let received2 = received + d.subrange(1, 1 + copy);
                if received2.len() >= expected_len {
                    RxOutcome {
                        codec: with_rx(m, RxModel::Idle),
                        pdu: Some(received2),
                        flow_control: None,
                    }
                } else {
                    unchanged(
                        with_rx(
                            m,
                            RxModel::Receiving {
                                expected_len,
                                received: received2,
                                next_sn: ((next_sn + 1) % 256) as u8,
                                last_cf_time: now,
                            },
                        ),
                    )
                }
            }
        },
    }
}

/// A Flow Control frame steers the transmission in progress: ContinueToSend
/// (0) takes its block size and STmin and resumes sending; Wait (1) restarts
/// the N_Bs timer and aborts once N_WFTmax Waits were received; Overflow (2)
/// aborts; other statuses, frames shorter than three bytes, and Flow Control
/// with no transmission in progress are ignored.
pub open spec fn on_flow_control(m: IsotpModel, d: Seq<u8>, now: u64) -> RxOutcome {
    match m.tx {
        TxModel::Idle => unchanged(m),
        TxModel::Sending(p) => {
            if d.len() < 3 {
                unchanged(m)
            } else if d[0] % 16 == 0 {
                unchanged(
                    with_tx(
                        m,
                        TxModel::Sending(
                            TxProgressModel {
                                waiting_fc: false,
                                bs: d[1],
                                block_remaining: d[1],
                                stmin: stmin_nanos(d[2]),
                                last_cf_time: now,
                                wait_fc_count: 0,
                                ..p
                            },
                        ),
                    ),
                )
            } else if d[0] % 16 == 1 {
                if p.wait_fc_count + 1 >= m.n_wft_max {
                    unchanged(with_tx(m, TxModel::Idle))
                } else {
                    unchanged(
                        with_tx(
                            m,
                            TxModel::Sending(
                                TxProgressModel {
                                    fc_wait_start: now,
                                    wait_fc_count: (p.wait_fc_count + 1) as u8,
                                    ..p
                                },
                            ),
                        ),
                    )
                }
            } else if d[0] % 16 == 2 {
                unchanged(with_tx(m, TxModel::Idle))
            } else {
                unchanged(m)
            }
        },
    }
}

/// Handling of a received frame whose meaningful bytes are `d`; a frame
/// with no bytes is ignored.
pub open spec fn on_frame(m: IsotpModel, d: Seq<u8>, now: u64) -> RxOutcome {
    if d.len() == 0 {
        unchanged(m)
    } else {
    match frame_kind(d) {
        IsotpFrameType::SingleFrame => on_single_frame(m, d),
        IsotpFrameType::FirstFrame => on_first_frame(m, d, now),
        IsotpFrameType::ConsecutiveFrame => on_consecutive_frame(m, d, now),
        IsotpFrameType::FlowControl => on_flow_control(m, d, now),
    }
    }
}

/// `out` is the PDU `expect`, with addressing mode `mode`.
pub open spec fn pdu_is(out: Option<IsotpPdu>, expect: Option<Seq<u8>>, mode: IsotpAddressingMode) -> bool {
    match out {
        None => expect is None,
        Some(p) => expect == Some(p@) && p.spec_addressing_mode() == mode,
    }
}

/// `out` is the frame `expect`.
pub open spec fn frame_is(out: Option<CanFrame>, expect: Option<FrameModel>) -> bool {
    match out {
        None => expect is None,
        Some(f) => expect == Some(f@),
    }
}

impl IsotpCodec {
    /// Handles a CAN frame on the receiving side. Returns the PDU completed by
    /// the frame, if any, and the Flow Control frame to send back, if any.
    /// Frames too short for their header are ignored.
    pub fn handle_rx(&mut self, frame: &CanFrame, now: u64) -> (out: (Option<IsotpPdu>, Option<CanFrame>))
        ensures
            old(self)@.wf(),
            final(self)@.wf(),
            final(self)@ == on_frame(old(self)@, frame.payload(), now).codec,
            pdu_is(out.0, on_frame(old(self)@, frame.payload(), now).pdu, old(self)@.addressing),
            frame_is(out.1, on_frame(old(self)@, frame.payload(), now).flow_control),
    {
        proof {
            use_type_invariant(&*self);
        }
        let d = frame_bytes(frame);
        if d.len() == 0 {
            return (None, None);
        }
        let kind = Self::frame_type(d.as_slice());
        match kind {
            IsotpFrameType::SingleFrame => self.rx_single_frame(&d),
            IsotpFrameType::FirstFrame => self.rx_first_frame(&d, now),
            IsotpFrameType::ConsecutiveFrame => self.rx_consecutive_frame(&d, now),
            IsotpFrameType::FlowControl => self.rx_flow_control(&d, now),
        }
    }

    fn rx_single_frame(&mut self, d: &Vec<u8>) -> (out: (Option<IsotpPdu>, Option<CanFrame>))
        requires
            has_pci(d@),
            frame_kind(d@) == IsotpFrameType::SingleFrame,
        ensures
            final(self)@.wf(),
            final(self)@ == on_single_frame(old(self)@, d@).codec,
            pdu_is(out.0, on_single_frame(old(self)@, d@).pdu, old(self)@.addressing),
            frame_is(out.1, on_single_frame(old(self)@, d@).flow_control),
    {
        proof {
            use_type_invariant(&*self);
            let b = d@[0];
            assert(b & 0x0F == b % 16) by (bit_vector);
        }
        let sf_len = (d[0] & 0x0F) as usize;
        if sf_len == 0 || sf_len > SINGLE_FRAME_MAX || d.len() < 1 + sf_len {
            return (None, None);
        }
        let pdu = IsotpPdu::with_addressing(copy_range(d.as_slice(), 1, 1 + sf_len), self.addressing);
        self.rx_state = RxState::Idle;
        assert(self@ =~= on_single_frame(old(self)@, d@).codec);
        (Some(pdu), None)
    }

    fn rx_first_frame(&mut self, d: &Vec<u8>, now: u64) -> (out: (Option<IsotpPdu>, Option<CanFrame>))
        requires
            has_pci(d@),
            frame_kind(d@) == IsotpFrameType::FirstFrame,
        ensures
            final(self)@.wf(),
            final(self)@ == on_first_frame(old(self)@, d@, now).codec,
            pdu_is(out.0, on_first_frame(old(self)@, d@, now).pdu, old(self)@.addressing),
            frame_is(out.1, on_first_frame(old(self)@, d@, now).flow_control),
    {
        proof {
            use_type_invariant(&*self);
            let b = d@[0];
            assert(b & 0x0F == b % 16) by (bit_vector);
        }
        if d.len() < 2 {
            return (None, None);
        }
        let total_len = ((d[0] & 0x0F) as usize) * 256 + d[1] as usize;
        if total_len == 0 || total_len > ISOTP_MAX_PDU_SIZE {
            return (None, None);
        }
        let first_bytes = d.len() - 2;
        let copy = if first_bytes < total_len {
            first_bytes
        } else {
            total_len
        };
        let buffer = copy_range(d.as_slice(), 2, 2 + copy);
        self.rx_state =
            RxState::Receiving { expected_len: total_len, next_sn: 1, buffer, last_cf_time: now };
        let fc = Self::build_flow_control(
            FlowStatus::ContinueToSend,
            self.fc_params.block_size,
            self.fc_params.st_min,
        );
        assert(self@ =~= on_first_frame(old(self)@, d@, now).codec);
        (None, Some(fc))
    }

    fn rx_consecutive_frame(&mut self, d: &Vec<u8>, now: u64) -> (out: (Option<IsotpPdu>, Option<CanFrame>))
        requires
            has_pci(d@),
            frame_kind(d@) == IsotpFrameType::ConsecutiveFrame,
        ensures
            final(self)@.wf(),
            final(self)@ == on_consecutive_frame(old(self)@, d@, now).codec,
            pdu_is(out.0, on_consecutive_frame(old(self)@, d@, now).pdu, old(self)@.addressing),
            frame_is(out.1, on_consecutive_frame(old(self)@, d@, now).flow_control),
    {
        proof {
            use_type_invariant(&*self);
            let b = d@[0];
            assert(b & 0x0F == b % 16) by (bit_vector);
        }
        let mut st = RxState::Idle;
        std::mem::swap(&mut st, &mut self.rx_state);
        match st {
            RxState::Idle => {
                assert(self@ =~= old(self)@);
                (None, None)
            },
            RxState::Receiving { expected_len, next_sn, mut buffer, last_cf_time: _ } => {
                let sn = d[0] & 0x0F;
                proof {
                    assert(next_sn & 0x0F == next_sn % 16) by (bit_vector);
                }
                if sn != next_sn & 0x0F {
                    assert(self@ =~= on_consecutive_frame(old(self)@, d@, now).codec);
                    return (None, None);
                }
                let payload_bytes = if d.len() - 1 < CONSECUTIVE_FRAME_PAYLOAD {
                    d.len() - 1
                } else {
                    CONSECUTIVE_FRAME_PAYLOAD
                };
                let remaining = expected_len - buffer.len();
                let copy = if payload_bytes < remaining {
                    payload_bytes
                } else {
                    remaining
                };
                append_range(&mut buffer, d.as_slice(), 1, 1 + copy);
                let next = next_sn.wrapping_add(1);
                if buffer.len() >= expected_len {
                    let pdu = IsotpPdu::with_addressing(buffer, self.addressing);
                    assert(self@ =~= on_consecutive_frame(old(self)@, d@, now).codec);
                    (Some(pdu), None)
                } else {
                    self.rx_state =
                        RxState::Receiving { expected_len, next_sn: next, buffer, last_cf_time: now };
                    assert(self@ =~= on_consecutive_frame(old(self)@, d@, now).codec);
                    (None, None)
                }
            },
        }
    }

    fn rx_flow_control(&mut self, d: &Vec<u8>, now: u64) -> (out: (Option<IsotpPdu>, Option<CanFrame>))
        requires
            has_pci(d@),
            frame_kind(d@) == IsotpFrameType::FlowControl,
        ensures
            final(self)@.wf(),
            final(self)@ == on_flow_control(old(self)@, d@, now).codec,
            pdu_is(out.0, on_flow_control(old(self)@, d@, now).pdu, old(self)@.addressing),
            frame_is(out.1, on_flow_control(old(self)@, d@, now).flow_control),
    {
        proof {
            use_type_invariant(&*self);
            let b = d@[0];
            assert(b & 0x0F == b % 16) by (bit_vector);
        }
        if d.len() < 3 {
            return (None, None);
        }
        let mut st = TxState::Idle;
        std::mem::swap(&mut st, &mut self.tx_state);
        match st {
            TxState::Idle => {
                assert(self@ =~= old(self)@);
            },
            TxState::Sending(mut p) => {
                let fs = d[0] & 0x0F;
                if fs == 0 {
                    p.waiting_fc = false;
                    p.bs = d[1];
                    p.block_remaining = d[1];
                    p.stmin = Self::parse_stmin(d[2]);
                    p.last_cf_time = now;
                    p.wait_fc_count = 0;
                    self.tx_state = TxState::Sending(p);
                } else if fs == 1 {
                    p.fc_wait_start = now;
                    p.wait_fc_count = p.wait_fc_count + 1;
                    if p.wait_fc_count < self.n_wft_max {
                        self.tx_state = TxState::Sending(p);
                    }
                } else if fs != 2 {
                    self.tx_state = TxState::Sending(p);
                }
                assert(self@ =~= on_flow_control(old(self)@, d@, now).codec);
            },
        }
        (None, None)
    }
}

// ---------------------------------------------------------------------------
// Sending side
// ---------------------------------------------------------------------------

/// What one step of the sending side does: the new codec state and the
/// frame to transmit.
#[verifier::ext_equal]
pub struct TxOutcome {
    pub codec: IsotpModel,
    pub frame: Option<FrameModel>,
}

/// Starting to send `d`: nothing for an empty PDU; a Single Frame for at most
/// 7 bytes (the sending side is left as it was); otherwise a First Frame, the
/// rest of `d` then waiting for Flow Control.
pub open spec fn on_send(m: IsotpModel, d: Seq<u8>, now: u64) -> TxOutcome {
    if d.len() == 0 {
        TxOutcome { codec: m, frame: None }
    } else if d.len() <= 7 {
        TxOutcome { codec: m, frame: Some(single_frame(d)) }
    } else {
        TxOutcome {
            codec: with_tx(
                m,
                TxModel::Sending(
                    TxProgressModel {
                        buffer: d,
                        offset: 6,
                        next_sn: 1,
                        block_remaining: 0,
                        bs: 0,
                        waiting_fc: true,
                        stmin: 0,
                        last_cf_time: now,
                        fc_wait_start: now,
                        wait_fc_count: 0,
                    },
                ),
            ),
            frame: Some(first_frame(d)),
        }
    }
}

/// Bytes of the next Consecutive Frame of `p`.
pub open spec fn next_chunk(p: TxProgressModel) -> Seq<u8> {
    p.buffer.subrange(p.offset, p.offset + min(p.buffer.len() - p.offset, 7))
}

/// `p` after its next Consecutive Frame was sent at `now`: the offset and
/// sequence number advance; with a block size, the block count goes down and
/// reaching zero before the end makes the sender wait for Flow Control again,
/// the N_Bs timer starting from the end of the block.
pub open spec fn advance(p: TxProgressModel, now: u64) -> TxProgressModel {
    let offset = p.offset + next_chunk(p).len();
    let remaining = if p.block_remaining > 0 {
        (p.block_remaining - 1) as u8
    } else {
        0u8
    };
    let block_done = p.bs > 0 && remaining == 0 && offset < p.buffer.len();
    TxProgressModel {
        offset,
        next_sn: ((p.next_sn + 1) % 256) as u8,
        last_cf_time: now,
        block_remaining: if p.bs == 0 {
            p.block_remaining
        } else if block_done {
            p.bs
        } else {
            remaining
        },
        waiting_fc: if block_done {
            true
        } else {
            p.waiting_fc
        },
        fc_wait_start: if block_done {
            now
        } else {
            p.fc_wait_start
        },
        ..p
    }
}

/// One step of a transmission in progress at `now`: nothing while waiting for
/// Flow Control; back to idle once everything was sent; nothing before STmin
/// has elapsed since the previous Consecutive Frame; otherwise the next
/// Consecutive Frame.
pub open spec fn on_tick(m: IsotpModel, now: u64) -> TxOutcome {
    match m.tx {
        TxModel::Idle => TxOutcome { codec: m, frame: None },
        TxModel::Sending(p) => {
            if p.waiting_fc {
                TxOutcome { codec: m, frame: None }
            } else if p.offset >= p.buffer.len() {
                TxOutcome { codec: with_tx(m, TxModel::Idle), frame: None }
            } else if p.stmin > 0 && elapsed(now, p.last_cf_time) < p.stmin {
                TxOutcome { codec: m, frame: None }
            } else {
                TxOutcome {
                    codec: with_tx(m, TxModel::Sending(advance(p, now))),
                    frame: Some(consecutive_frame(next_chunk(p), p.next_sn)),
                }
            }
        },
    }
}

impl IsotpCodec {
    /// Sends the next Consecutive Frame of the transmission in progress, if
    /// Flow Control and STmin allow it.
    pub fn tx_next_frame(&mut self, now: u64) -> (out: Option<CanFrame>)
        ensures
            old(self)@.wf(),
            final(self)@.wf(),
            final(self)@ == on_tick(old(self)@, now).codec,
            frame_is(out, on_tick(old(self)@, now).frame),
    {
        proof {
            use_type_invariant(&*self);
        }
        let mut st = TxState::Idle;
        std::mem::swap(&mut st, &mut self.tx_state);
        match st {
            TxState::Idle => {
                assert(self@ =~= old(self)@);
                None
            },
            TxState::Sending(mut p) => {
                if p.waiting_fc {
                    self.tx_state = TxState::Sending(p);
                    assert(self@ =~= old(self)@);
                    return None;
                }
                let total_len = p.buffer.len();
                if p.offset >= total_len {
                    assert(self@ =~= on_tick(old(self)@, now).codec);
                    return None;
                }
                if p.stmin > 0 && elapsed_since(now, p.last_cf_time) < p.stmin {
                    self.tx_state = TxState::Sending(p);
                    assert(self@ =~= old(self)@);
                    return None;
                }
                let remaining = total_len - p.offset;
                let chunk = if remaining < CONSECUTIVE_FRAME_PAYLOAD {
                    remaining
                } else {
                    CONSECUTIVE_FRAME_PAYLOAD
                };
                let bytes = copy_range(p.buffer.as_slice(), p.offset, p.offset + chunk);
                let frame = Self::build_consecutive_frame(bytes.as_slice(), p.next_sn);
                assert(bytes@.take(min(bytes@.len() as int, 7)) =~= bytes@);
                p.offset = p.offset + chunk;
                p.next_sn = p.next_sn.wrapping_add(1);
                p.last_cf_time = now;
                if p.bs > 0 {
                    p.block_remaining = p.block_remaining.saturating_sub(1);
                    if p.block_remaining == 0 && p.offset < total_len {
                        p.waiting_fc = true;
                        p.block_remaining = p.bs;
                        p.fc_wait_start = now;
                    }
                }
                self.tx_state = TxState::Sending(p);
                assert(self@ =~= on_tick(old(self)@, now).codec);
                Some(frame)
            },
        }
    }

    /// Begins sending `pdu`: returns the Single Frame or First Frame to
    /// transmit, or nothing for an empty PDU.
    pub fn start_tx(&mut self, pdu: &IsotpPdu, now: u64) -> (out: Option<CanFrame>)
        ensures
            old(self)@.wf(),
            final(self)@.wf(),
            final(self)@ == on_send(old(self)@, pdu@, now).codec,
            frame_is(out, on_send(old(self)@, pdu@, now).frame),
    {
        proof {
            use_type_invariant(&*self);
        }
        let data = pdu.data();
        let len = data.len();
        if len == 0 {
            return None;
        }
        if len <= SINGLE_FRAME_MAX {
            Some(Self::build_single_frame(data))
        } else {
            let frame = Self::build_first_frame(data);
            let buffer = copy_range(data, 0, len);
            assert(buffer@ =~= pdu@);
            self.tx_state = TxState::Sending(
                TxProgress {
                    buffer,
                    offset: FIRST_FRAME_PAYLOAD,
                    next_sn: 1,
                    block_remaining: 0,
                    bs: 0,
                    waiting_fc: true,
                    stmin: 0,
                    last_cf_time: now,
                    fc_wait_start: now,
                    wait_fc_count: 0,
                },
            );
            assert(self@ =~= on_send(old(self)@, pdu@, now).codec);
            Some(frame)
        }
    }
}

// ---------------------------------------------------------------------------
// Periodic processing
// ---------------------------------------------------------------------------

/// `m` after expiry of the transport timers at `now`: a reassembly with no
/// Consecutive Frame for longer than N_Cr is dropped, and a transmission
/// waiting for Flow Control for longer than N_Bs is aborted.
pub open spec fn after_timeouts(m: IsotpModel, now: u64) -> IsotpModel {
    let rx = match m.rx {
        RxModel::Receiving { last_cf_time, .. } => if elapsed(now, last_cf_time) > m.n_cr_timeout {
            RxModel::Idle
        } else {
            m.rx
        },
        RxModel::Idle => RxModel::Idle,
    };
    let tx = match m.tx {
        TxModel::Sending(p) => if p.waiting_fc && elapsed(now, p.fc_wait_start) > m.n_bs_timeout {
            TxModel::Idle
        } else {
            m.tx
        },
        TxModel::Idle => TxModel::Idle,
    };
    IsotpModel { rx, tx, ..m }
}

/// Frames the codec reassembles: those on its receive identifier, or all of
/// them when that identifier is 0.
pub open spec fn accepts(m: IsotpModel, f: CanFrame) -> bool {
    f.id == m.rx_can_id || m.rx_can_id.spec_raw() == 0
}

/// What one processing cycle does: the new state, the CAN frame to transmit
/// and the PDU to deliver to the upper layer.
#[verifier::ext_equal]
pub struct StepOutcome {
    pub codec: IsotpModel,
    pub can: Option<FrameModel>,
    pub pdu: Option<Seq<u8>>,
}

/// `f` sent on identifier `id`.
pub open spec fn sent_on(f: Option<FrameModel>, id: CanId) -> Option<FrameModel> {
    match f {
        Some(f) => Some(with_id(f, id)),
        None => None,
    }
}

/// One processing cycle at `now` with an optional received CAN frame and an
/// optional PDU to send: timers first; then the received frame, if accepted,
/// whose Flow Control answer (if any) ends the cycle; then the new PDU, whose
/// first frame (if any) ends the cycle; then the transmission in progress.
/// Every transmitted frame goes out on our transmit identifier.
pub open spec fn step(m: IsotpModel, now: u64, can: Option<CanFrame>, input: Option<Seq<u8>>) -> StepOutcome {
    let m1 = after_timeouts(m, now);
    let r = match can {
        Some(f) => if accepts(m1, f) {
            on_frame(m1, f.payload(), now)
        } else {
            unchanged(m1)
        },
        None => unchanged(m1),
    };
    if r.flow_control is Some {
        StepOutcome { codec: r.codec, can: sent_on(r.flow_control, m.tx_can_id), pdu: r.pdu }
    } else {
        let s = match input {
            Some(d) => on_send(r.codec, d, now),
            None => TxOutcome { codec: r.codec, frame: None },
        };
        if s.frame is Some {
            StepOutcome { codec: s.codec, can: sent_on(s.frame, m.tx_can_id), pdu: r.pdu }
        } else {
            let t = on_tick(s.codec, now);
            StepOutcome { codec: t.codec, can: sent_on(t.frame, m.tx_can_id), pdu: r.pdu }
        }
    }
}

/// The content of an optional PDU.
pub open spec fn pdu_view(p: Option<&IsotpPdu>) -> Option<Seq<u8>> {
    match p {
        Some(p) => Some(p@),
        None => None,
    }
}

/// The value behind an optional reference.
pub open spec fn deref_frame(f: Option<&CanFrame>) -> Option<CanFrame> {
    match f {
        Some(f) => Some(*f),
        None => None,
    }
}

impl IsotpCodec {
    /// Expires the transport timers at `now`.
    fn expire_timers(&mut self, now: u64)
        ensures
            final(self)@ == after_timeouts(old(self)@, now),
    {
        proof {
            use_type_invariant(&*self);
        }
        let mut rx = RxState::Idle;
        std::mem::swap(&mut rx, &mut self.rx_state);
        let rx_expired = match &rx {
            RxState::Receiving { last_cf_time, .. } => elapsed_since(now, *last_cf_time)
                > self.n_cr_timeout,
            RxState::Idle => true,
        };
        if !rx_expired {
            self.rx_state = rx;
        }
        let mut tx = TxState::Idle;
        std::mem::swap(&mut tx, &mut self.tx_state);
        let tx_expired = match &tx {
            TxState::Sending(p) => p.waiting_fc && elapsed_since(now, p.fc_wait_start)
                > self.n_bs_timeout,
            TxState::Idle => true,
        };
        if !tx_expired {
            self.tx_state = tx;
        }
        assert(self@ =~= after_timeouts(old(self)@, now));
    }

    /// One processing cycle at `now`: the received CAN frame (if any) and the
    /// PDU to send (if any) in, the CAN frame to transmit and the reassembled
    /// PDU out.
    pub fn process(&mut self, now: u64, can_input: Option<&CanFrame>, isotp_input: Option<&IsotpPdu>) -> (out: (Option<CanFrame>, Option<IsotpPdu>))
        ensures
            old(self)@.wf(),
            final(self)@.wf(),
            final(self)@ == step(old(self)@, now, deref_frame(can_input), pdu_view(isotp_input)).codec,
            frame_is(out.0, step(old(self)@, now, deref_frame(can_input), pdu_view(isotp_input)).can),
            pdu_is(out.1, step(old(self)@, now, deref_frame(can_input), pdu_view(isotp_input)).pdu, old(self)@.addressing),
    {
        proof {
            use_type_invariant(&*self);
        }
        self.expire_timers(now);
        let mut pdu_out: Option<IsotpPdu> = None;
        if let Some(frame) = can_input {
            if frame.id == self.rx_can_id || self.rx_can_id.raw() == 0 {
                let (maybe_pdu, maybe_fc) = self.handle_rx(frame, now);
                pdu_out = maybe_pdu;
                if let Some(mut fc) = maybe_fc {
                    fc.id = self.tx_can_id;
                    return (Some(fc), pdu_out);
                }
            }
        }
        if let Some(pdu) = isotp_input {
            if let Some(mut frame) = self.start_tx(pdu, now) {
                frame.id = self.tx_can_id;
                return (Some(frame), pdu_out);
            }
        }
        if let Some(mut frame) = self.tx_next_frame(now) {
            frame.id = self.tx_can_id;
            return (Some(frame), pdu_out);
        }
        (None, pdu_out)
    }
}

// ---------------------------------------------------------------------------
// Construction and inspection
// ---------------------------------------------------------------------------

/// Configuration keys of the codec, each absent or holding the configured integer.
#[derive(Clone, Copy, Debug)]
pub struct IsotpConfig {
    pub tx_id: Option<i64>,
    pub rx_id: Option<i64>,
    pub block_size: Option<i64>,
    pub st_min_ms: Option<i64>,
    pub n_bs_timeout_ms: Option<i64>,
    pub n_cr_timeout_ms: Option<i64>,
    pub n_wft_max: Option<i64>,
}

/// The configured value of a key, or its default when the key or the whole
/// configuration is absent.
pub open spec fn setting(
    config: Option<IsotpConfig>,
    key: spec_fn(IsotpConfig) -> Option<i64>,
    default: i64,
) -> i64 {
    match config {
        Some(c) => match key(c) {
            Some(v) => v,
            None => default,
        },
        None => default,
    }
}

pub open spec fn config_tx_id(c: Option<IsotpConfig>) -> u32 {
    setting(c, |c: IsotpConfig| c.tx_id, 0x7E0) as u32
}

pub open spec fn config_rx_id(c: Option<IsotpConfig>) -> u32 {
    setting(c, |c: IsotpConfig| c.rx_id, 0x7E8) as u32
}

pub open spec fn config_n_bs_ms(c: Option<IsotpConfig>) -> u64 {
    setting(c, |c: IsotpConfig| c.n_bs_timeout_ms, 1000) as u64
}

pub open spec fn config_n_cr_ms(c: Option<IsotpConfig>) -> u64 {
    setting(c, |c: IsotpConfig| c.n_cr_timeout_ms, 1000) as u64
}

/// The configured timeouts are representable in nanoseconds.
pub open spec fn config_ok(c: Option<IsotpConfig>) -> bool {
    &&& millis(config_n_bs_ms(c) as int) <= u64::MAX
    &&& millis(config_n_cr_ms(c) as int) <= u64::MAX
}

pub open spec fn opt_config(c: Option<&IsotpConfig>) -> Option<IsotpConfig> {
    match c {
        Some(c) => Some(*c),
        None => None,
    }
}

/// Identifier as an 11-bit standard identifier, clamped to 0x7FF.
pub open spec fn clamp_standard(id: u32) -> CanId {
    CanId::Standard(min(id as int, 0x7FF) as u16)
}

fn get_or(v: Option<i64>, default: i64) -> (r: i64)
    ensures
        r == (match v {
            Some(x) => x,
            None => default,
        }),
{
    match v {
        Some(x) => x,
        None => default,
    }
}

impl IsotpCodec {
    /// A codec configured by `config` (every absent key takes its default:
    /// identifiers 0x7E0/0x7E8, block size 0, STmin 10 ms, N_Bs and N_Cr
    /// 1000 ms, N_WFTmax 10), with normal addressing and both sides idle.
    pub fn new(config: Option<&IsotpConfig>) -> (codec: IsotpCodec)
        requires
            config_ok(opt_config(config)),
        ensures
            codec@.tx_can_id == clamp_standard(config_tx_id(opt_config(config))),
            codec@.rx_can_id == clamp_standard(config_rx_id(opt_config(config))),
            codec@.block_size == setting(opt_config(config), |c: IsotpConfig| c.block_size, 0) as u8,
            codec@.st_min == setting(opt_config(config), |c: IsotpConfig| c.st_min_ms, 10) as u8,
            codec@.n_bs_timeout == millis(config_n_bs_ms(opt_config(config)) as int),
            codec@.n_cr_timeout == millis(config_n_cr_ms(opt_config(config)) as int),
            codec@.n_wft_max == setting(opt_config(config), |c: IsotpConfig| c.n_wft_max, 10) as u8,
            codec@.addressing == IsotpAddressingMode::Normal,
            codec@.rx == RxModel::Idle,
            codec@.tx == TxModel::Idle,
    {
        let (tx, rx, bs, st, n_bs, n_cr, nwft) = match config {
            Some(cfg) => (
                get_or(cfg.tx_id, DEFAULT_TX_ID as i64) as u32,
                get_or(cfg.rx_id, DEFAULT_RX_ID as i64) as u32,
                get_or(cfg.block_size, DEFAULT_BLOCK_SIZE as i64) as u8,
                get_or(cfg.st_min_ms, DEFAULT_ST_MIN_MS as i64) as u8,
                get_or(cfg.n_bs_timeout_ms, DEFAULT_N_BS_TIMEOUT_MS as i64) as u64,
                get_or(cfg.n_cr_timeout_ms, DEFAULT_N_CR_TIMEOUT_MS as i64) as u64,
                get_or(cfg.n_wft_max, DEFAULT_N_WFT_MAX as i64) as u8,
            ),
            None => (
                DEFAULT_TX_ID,
                DEFAULT_RX_ID,
                DEFAULT_BLOCK_SIZE,
                DEFAULT_ST_MIN_MS,
                DEFAULT_N_BS_TIMEOUT_MS,
                DEFAULT_N_CR_TIMEOUT_MS,
                DEFAULT_N_WFT_MAX,
            ),
        };
        let tx_std: u16 = if tx < MAX_STANDARD_ID {
            tx as u16
        } else {
            MAX_STANDARD_ID as u16
        };
        let rx_std: u16 = if rx < MAX_STANDARD_ID {
            rx as u16
        } else {
            MAX_STANDARD_ID as u16
        };
        IsotpCodec {
            tx_can_id: CanId::Standard(tx_std),
            rx_can_id: CanId::Standard(rx_std),
            fc_params: FlowControlParams {
                status: FlowStatus::ContinueToSend,
                block_size: bs,
                st_min: st,
            },
            addressing: IsotpAddressingMode::Normal,
            rx_state: RxState::Idle,
            tx_state: TxState::Idle,
            n_bs_timeout: from_millis(n_bs),
            n_cr_timeout: from_millis(n_cr),
            n_wft_max: nwft,
        }
    }

    /// Whether the codec is reassembling a PDU.
    pub fn rx_is_receiving(&self) -> (b: bool)
        ensures
            b == (self@.rx is Receiving),
    {
        match self.rx_state {
            RxState::Receiving { .. } => true,
            RxState::Idle => false,
        }
    }

    /// Whether the codec is sending a segmented PDU.
    pub fn tx_is_sending(&self) -> (b: bool)
        ensures
            b == (self@.tx is Sending),
    {
        match self.tx_state {
            TxState::Sending(_) => true,
            TxState::Idle => false,
        }
    }

    /// While sending: whether Flow Control is awaited, since when, and how
    /// many Wait frames were received.
    pub fn tx_wait_state(&self) -> (w: Option<(bool, u64, u8)>)
        ensures
            w == (match self@.tx {
                TxModel::Sending(p) => Some((p.waiting_fc, p.fc_wait_start, p.wait_fc_count)),
                TxModel::Idle => None,
            }),
    {
        match &self.tx_state {
            TxState::Sending(p) => Some((p.waiting_fc, p.fc_wait_start, p.wait_fc_count)),
            TxState::Idle => None,
        }
    }

    /// Sets the N_Cr timeout (nanoseconds).
    pub fn set_n_cr_timeout(&mut self, ns: u64)
        ensures
            final(self)@ == (IsotpModel { n_cr_timeout: ns, ..old(self)@ }),
    {
        proof {
            use_type_invariant(&*self);
        }
        self.n_cr_timeout = ns;
    }

    /// Sets the N_Bs timeout (nanoseconds).
    pub fn set_n_bs_timeout(&mut self, ns: u64)
        ensures
            final(self)@ == (IsotpModel { n_bs_timeout: ns, ..old(self)@ }),
    {
        proof {
            use_type_invariant(&*self);
        }
        self.n_bs_timeout = ns;
    }

    /// Sets the number of Wait Flow Control frames that aborts a transmission.
    pub fn set_n_wft_max(&mut self, n: u8)
        ensures
            final(self)@ == (IsotpModel { n_wft_max: n, ..old(self)@ }),
    {
        proof {
            use_type_invariant(&*self);
        }
        self.n_wft_max = n;
    }
}

} // verus!
