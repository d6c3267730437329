//! Message types exchanged by the transport codec and the diagnostic server:
//! classical CAN frames, ISO-TP PDUs and UDS responses.
use vstd::prelude::*;

verus! {

/// Largest PDU that ISO-TP can carry (12-bit First Frame length).
pub const ISOTP_MAX_PDU_SIZE: usize = 4095;

/// Largest UDS payload behind the service identifier (PDU minus SID and sub-function).
pub const UDS_MAX_PAYLOAD_SIZE: usize = 4093;

/// A fresh vector holding `s[start..end]`.
pub fn copy_range(s: &[u8], start: usize, end: usize) -> (v: Vec<u8>)
    requires
        start <= end <= s@.len(),
    ensures
        v@ == s@.subrange(start as int, end as int),
{
    let mut v: Vec<u8> = Vec::new();
    let mut i: usize = start;
    while i < end
        invariant
            start <= i <= end <= s@.len(),
            v@ =~= s@.subrange(start as int, i as int),
        decreases end - i,
    {
        v.push(s[i]);
        i = i + 1;
        assert(v@ =~= s@.subrange(start as int, i as int));
    }
    v
}

/// CAN identifier: 11-bit standard or 29-bit extended.
#[derive(Clone, Copy, Debug, PartialEq, Eq, Structural)]
pub enum CanId {
    Standard(u16),
    Extended(u32),
}

impl CanId {
    /// The numeric identifier, whatever its width.
    pub open spec fn spec_raw(&self) -> u32 {
        match *self {
            CanId::Standard(v) => v as u32,
            CanId::Extended(v) => v,
        }
    }

    /// The numeric identifier, whatever its width.
    #[verifier::when_used_as_spec(spec_raw)]
    pub fn raw(&self) -> (r: u32)
        ensures
            r == self.spec_raw(),
    {
        match self {
            CanId::Standard(v) => *v as u32,
            CanId::Extended(v) => *v,
        }
    }
}

/// A classical CAN frame with its fixed eight-byte data field.
#[derive(Clone, Copy, Debug)]
pub struct CanFrame {
    pub id: CanId,
    /// Data length code: how many bytes of `data` are meaningful.
    pub dlc: u8,
    pub data: [u8; 8],
}

/// Eight zero bytes.
pub open spec fn zero8() -> Seq<u8> {
    seq![0u8, 0u8, 0u8, 0u8, 0u8, 0u8, 0u8, 0u8]
}

/// `s` followed by zero bytes up to a length of eight.
pub open spec fn pad8(s: Seq<u8>) -> Seq<u8> {
    s + zero8().take(8 - s.len())
}

impl CanFrame {
    /// The empty frame: standard identifier 0, no data, all data bytes zero.
    pub fn empty() -> (f: CanFrame)
        ensures
            f.id == CanId::Standard(0),
            f.dlc == 0,
            f.data@ == zero8(),
    {
        let f = CanFrame { id: CanId::Standard(0), dlc: 0, data: [0u8, 0, 0, 0, 0, 0, 0, 0] };
        assert(f.data@ =~= zero8());
        f
    }

    /// The meaningful bytes of the frame: the first `dlc` data bytes
    /// (all eight when `dlc` is larger).
    pub open spec fn payload(self) -> Seq<u8> {
        if self.dlc <= 8 {
            self.data@.take(self.dlc as int)
        } else {
            self.data@
        }
    }
}

impl Default for CanFrame {
    fn default() -> (f: CanFrame)
        ensures
            f.id == CanId::Standard(0),
            f.dlc == 0,
            f.data@ == zero8(),
    {
        CanFrame::empty()
    }
}

/// ISO-TP addressing modes.
#[derive(Clone, Copy, Debug, PartialEq, Eq, Structural)]
pub enum IsotpAddressingMode {
    Normal,
    NormalFixed,
    Extended,
    Mixed11,
    Mixed29,
}

/// Kind of an ISO-TP frame, given by the high nibble of its first byte.
#[derive(Clone, Copy, Debug, PartialEq, Eq, Structural)]
pub enum IsotpFrameType {
    SingleFrame,
    FirstFrame,
    ConsecutiveFrame,
    FlowControl,
}

/// Flow status carried by a Flow Control frame.
#[derive(Clone, Copy, Debug, PartialEq, Eq, Structural)]
pub enum FlowStatus {
    ContinueToSend,
    Wait,
    Overflow,
}

impl FlowStatus {
    /// The 4-bit code of the status on the wire.
    pub open spec fn spec_code(&self) -> u8 {
        match *self {
            FlowStatus::ContinueToSend => 0,
            FlowStatus::Wait => 1,
            FlowStatus::Overflow => 2,
        }
    }

    /// The 4-bit code of the status on the wire.
    #[verifier::when_used_as_spec(spec_code)]
    pub fn code(&self) -> (c: u8)
        ensures
            c == self.spec_code(),
    {
        match self {
            FlowStatus::ContinueToSend => 0,
            FlowStatus::Wait => 1,
            FlowStatus::Overflow => 2,
        }
    }
}

/// Flow Control parameters a receiver advertises.
#[derive(Clone, Copy, Debug)]
pub struct FlowControlParams {
    pub status: FlowStatus,
    /// Consecutive frames the sender may send before the next Flow Control (0 = no limit).
    pub block_size: u8,
    /// Raw STmin byte (separation time between consecutive frames).
    pub st_min: u8,
}

/// A transport-layer PDU: up to `ISOTP_MAX_PDU_SIZE` bytes.
#[derive(Debug)]
pub struct IsotpPdu {
    addressing_mode: IsotpAddressingMode,
    data: Vec<u8>,
}

impl IsotpPdu {
    #[verifier::type_invariant]
    spec fn fits(self) -> bool {
        self.data.len() <= ISOTP_MAX_PDU_SIZE
    }

    /// The addressing mode the PDU was received or is to be sent with.
    pub closed spec fn spec_addressing_mode(self) -> IsotpAddressingMode {
        self.addressing_mode
    }

    /// An empty PDU with normal addressing.
    pub fn empty() -> (pdu: IsotpPdu)
        ensures
            pdu@ == Seq::<u8>::empty(),
            pdu.spec_addressing_mode() == IsotpAddressingMode::Normal,
    {
        IsotpPdu { addressing_mode: IsotpAddressingMode::Normal, data: Vec::new() }
    }

    /// A PDU holding a copy of `data`, with normal addressing.
    pub fn from_data(data: &[u8]) -> (pdu: IsotpPdu)
        requires
            data@.len() <= ISOTP_MAX_PDU_SIZE,
        ensures
            pdu@ == data@,
            pdu.spec_addressing_mode() == IsotpAddressingMode::Normal,
    {
        assert(data@.subrange(0, data@.len() as int) =~= data@);
        IsotpPdu::with_addressing(copy_range(data, 0, data.len()), IsotpAddressingMode::Normal)
    }

    /// A PDU made of `data`, with the given addressing mode.
    pub fn with_addressing(data: Vec<u8>, mode: IsotpAddressingMode) -> (pdu: IsotpPdu)
        requires
            data@.len() <= ISOTP_MAX_PDU_SIZE,
        ensures
            pdu@ == data@,
            pdu.spec_addressing_mode() == mode,
    {
        IsotpPdu { addressing_mode: mode, data }
    }

    /// Number of bytes in the PDU.
    pub fn len(&self) -> (n: u16)
        ensures
            n as int == self@.len(),
            n as int <= ISOTP_MAX_PDU_SIZE,
    {
        proof {
            use_type_invariant(self);
        }
        self.data.len() as u16
    }

    /// The bytes of the PDU.
    pub fn data(&self) -> (d: &[u8])
        ensures
            d@ == self@,
            d@.len() <= ISOTP_MAX_PDU_SIZE,
    {
        proof {
            use_type_invariant(self);
        }
        self.data.as_slice()
    }

    /// The addressing mode of the PDU.
    pub fn addressing_mode(&self) -> (m: IsotpAddressingMode)
        ensures
            m == self.spec_addressing_mode(),
    {
        self.addressing_mode
    }
}

impl View for IsotpPdu {
    type V = Seq<u8>;

    closed spec fn view(&self) -> Seq<u8> {
        self.data@
    }
}

impl Clone for IsotpPdu {
    fn clone(&self) -> (pdu: IsotpPdu)
        ensures
            pdu@ == self@,
            pdu.spec_addressing_mode() == self.spec_addressing_mode(),
    {
        proof {
            use_type_invariant(self);
        }
        let d = self.data();
        IsotpPdu::with_addressing(copy_range(d, 0, d.len()), self.addressing_mode)
    }
}

impl Default for IsotpPdu {
    fn default() -> (pdu: IsotpPdu)
        ensures
            pdu@ == Seq::<u8>::empty(),
            pdu.spec_addressing_mode() == IsotpAddressingMode::Normal,
    {
        IsotpPdu::empty()
    }
}

/// UDS diagnostic sessions.
#[derive(Clone, Copy, Debug, PartialEq, Eq, Structural)]
pub enum UdsSessionType {
    Default,
    Programming,
    Extended,
}

/// UDS negative response codes used by the server.
#[derive(Clone, Copy, Debug, PartialEq, Eq, Structural)]
pub enum Nrc {
    GeneralReject,
    ServiceNotSupported,
    SubFunctionNotSupported,
    IncorrectMessageLengthOrInvalidFormat,
    RequestOutOfRange,
    InvalidKey,
    ExceededNumberOfAttempts,
    GeneralProgrammingFailure,
    ServiceNotSupportedInActiveSession,
}

impl Nrc {
    /// The code of the NRC on the wire (ISO 14229-1 table A.1).
    pub open spec fn spec_code(&self) -> u8 {
        match *self {
            Nrc::GeneralReject => 0x10,
            Nrc::ServiceNotSupported => 0x11,
            Nrc::SubFunctionNotSupported => 0x12,
            Nrc::IncorrectMessageLengthOrInvalidFormat => 0x13,
            Nrc::RequestOutOfRange => 0x31,
            Nrc::InvalidKey => 0x35,
            Nrc::ExceededNumberOfAttempts => 0x36,
            Nrc::GeneralProgrammingFailure => 0x72,
            Nrc::ServiceNotSupportedInActiveSession => 0x7F,
        }
    }

    /// The code of the NRC on the wire (ISO 14229-1 table A.1).
    #[verifier::when_used_as_spec(spec_code)]
    pub fn code(&self) -> (c: u8)
        ensures
            c == self.spec_code(),
    {
        match self {
            Nrc::GeneralReject => 0x10,
            Nrc::ServiceNotSupported => 0x11,
            Nrc::SubFunctionNotSupported => 0x12,
            Nrc::IncorrectMessageLengthOrInvalidFormat => 0x13,
            Nrc::RequestOutOfRange => 0x31,
            Nrc::InvalidKey => 0x35,
            Nrc::ExceededNumberOfAttempts => 0x36,
            Nrc::GeneralProgrammingFailure => 0x72,
            Nrc::ServiceNotSupportedInActiveSession => 0x7F,
        }
    }
}

/// Response SID of a negative response.
pub const NEGATIVE_RESPONSE_SID: u8 = 0x7F;

/// Offset added to a request SID to form its positive response SID.
pub const POSITIVE_RESPONSE_OFFSET: u8 = 0x40;

/// Wire bytes of a positive response to `sid` carrying `data`.
pub open spec fn positive_bytes(sid: u8, data: Seq<u8>) -> Seq<u8> {
    seq![(sid + 0x40) as u8] + data
}

/// Wire bytes of a negative response to `sid` with code `nrc`.
pub open spec fn negative_bytes(sid: u8, nrc: Nrc) -> Seq<u8> {
    seq![0x7Fu8, sid, nrc.spec_code()]
}

/// A UDS response, positive or negative.
#[derive(Clone, Debug)]
pub struct UdsResponse {
    /// SID of the request this responds to.
    pub request_sid: u8,
    pub nrc: Nrc,
    pub is_negative: bool,
    /// Response parameters of a positive response.
    pub data: Vec<u8>,
}

impl UdsResponse {
    /// A positive response to `sid` with the given parameters.
    pub fn positive(sid: u8, data: &[u8]) -> (r: UdsResponse)
        requires
            sid < 0xC0,
            data@.len() <= UDS_MAX_PAYLOAD_SIZE,
        ensures
            r.wire() == positive_bytes(sid, data@),
            !r.is_negative,
            r.request_sid == sid,
    {
        assert(data@.subrange(0, data@.len() as int) =~= data@);
        UdsResponse {
            request_sid: sid,
            nrc: Nrc::GeneralReject,
            is_negative: false,
            data: copy_range(data, 0, data.len()),
        }
    }

    /// A negative response to `sid` with code `nrc`.
    pub fn negative(sid: u8, nrc: Nrc) -> (r: UdsResponse)
        ensures
            r.wire() == negative_bytes(sid, nrc),
            r.is_negative,
    {
        UdsResponse { request_sid: sid, nrc, is_negative: true, data: Vec::new() }
    }

    /// The wire encoding of the response.
    pub open spec fn wire(self) -> Seq<u8> {
        if self.is_negative {
            negative_bytes(self.request_sid, self.nrc)
        } else {
            positive_bytes(self.request_sid, self.data@)
        }
    }

    /// Serializes the response: `[SID + 0x40, data..]` when positive,
    /// `[0x7F, SID, NRC]` when negative.
    pub fn to_bytes(&self) -> (out: Vec<u8>)
        requires
            !self.is_negative ==> self.request_sid < 0xC0,
        ensures
            out@ == self.wire(),
    {
        let mut out: Vec<u8> = Vec::new();
        if self.is_negative {
            out.push(NEGATIVE_RESPONSE_SID);
            out.push(self.request_sid);
            out.push(self.nrc.code());
            assert(out@ =~= negative_bytes(self.request_sid, self.nrc));
        } else {
            out.push(self.request_sid + POSITIVE_RESPONSE_OFFSET);
            let n = self.data.len();
            let mut i: usize = 0;
            while i < n
                invariant
                    n == self.data@.len(),
                    i <= n,
                    out@ =~= seq![(self.request_sid + 0x40) as u8] + self.data@.take(i as int),
                decreases n - i,
            {
                out.push(self.data[i]);
                i = i + 1;
                assert(out@ =~= seq![(self.request_sid + 0x40) as u8] + self.data@.take(i as int));
            }
            assert(self.data@.take(n as int) =~= self.data@);
        }
        out
    }
}

} // verus!
