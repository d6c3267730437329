//! ISO 14229 (UDS) diagnostic server: session control, ECU reset, security
//! access with attempt limiting, tester present, data identifiers, routine
//! control, and the S3 session timer.
use crate::payloads::{
    copy_range, negative_bytes, positive_bytes, IsotpAddressingMode, IsotpPdu, Nrc, UdsResponse, UdsSessionType,
    ISOTP_MAX_PDU_SIZE,
};
use crate::time::{elapsed, elapsed_since, from_millis, millis};
use vstd::prelude::*;

verus! {

pub const SID_DIAG_SESSION_CONTROL: u8 = 0x10;
pub const SID_ECU_RESET: u8 = 0x11;
pub const SID_CLEAR_DTC: u8 = 0x14;
pub const SID_READ_DID: u8 = 0x22;
pub const SID_SECURITY_ACCESS: u8 = 0x27;
pub const SID_WRITE_DID: u8 = 0x2E;
pub const SID_ROUTINE_CONTROL: u8 = 0x31;
pub const SID_TESTER_PRESENT: u8 = 0x3E;

/// Default number of failed SecurityAccess keys before lockout.
pub const DEFAULT_MAX_SECURITY_ATTEMPTS: u8 = 3;

/// Default SecurityAccess lockout duration in milliseconds.
pub const DEFAULT_SECURITY_LOCKOUT_MS: u64 = 10_000;

/// Default S3 session timeout in milliseconds.
pub const DEFAULT_SESSION_TIMEOUT_MS: u64 = 5000;

/// Default P2 server timing in milliseconds.
pub const DEFAULT_P2_SERVER_MS: u64 = 50;

/// Default P2* server timing in milliseconds.
pub const DEFAULT_P2_STAR_SERVER_MS: u64 = 5000;

/// Capacity of the data identifier table.
pub const DID_TABLE_SIZE: usize = 16;

/// Largest value a data identifier can hold.
pub const DID_DATA_MAX: usize = 32;

/// Mask XORed with `access_type * 0x1234` to form a seed.
pub const SEED_MASK: u32 = 0xDEAD_BEEF;

/// Mask XORed with the seed to form the expected key.
pub const KEY_MASK: u32 = 0xCAFE_BABE;

/// Data identifier of the vehicle identification number.
pub const DID_VIN: u16 = 0xF190;

/// Data identifier of the software version.
pub const DID_SW_VERSION: u16 = 0xF101;

// ---------------------------------------------------------------------------
// Model
// ---------------------------------------------------------------------------

/// A data identifier and its value.
pub type DidModel = (u16, Seq<u8>);

/// Abstract state of the server.
#[verifier::ext_equal]
pub struct UdsModel {
    pub session: UdsSessionType,
    /// Time of the last request, in nanoseconds.
    pub last_request_time: u64,
    /// S3 session timeout in nanoseconds.
    pub session_timeout: u64,
    pub p2_server_ms: u64,
    pub p2_star_server_ms: u64,
    pub security_level: u8,
    pub security_seed: u32,
    pub attempts: u8,
    pub lockout_until: u64,
    pub max_attempts: u8,
    /// Lockout duration in nanoseconds.
    pub lockout_duration: u64,
    /// The data identifier table, in insertion order.
    pub dids: Seq<DidModel>,
}

/// The table holds at most 16 identifiers, each at most once and each with
/// at most 32 bytes.
pub open spec fn dids_wf(dids: Seq<DidModel>) -> bool {
    &&& dids.len() <= DID_TABLE_SIZE
    &&& forall|i: int| 0 <= i < dids.len() ==> (#[trigger] dids[i]).1.len() <= DID_DATA_MAX
    &&& forall|i: int, j: int|
        0 <= i < j < dids.len() ==> (#[trigger] dids[i]).0 != (#[trigger] dids[j]).0
}

impl UdsModel {
    pub open spec fn wf(self) -> bool {
        dids_wf(self.dids)
    }
}

/// Whether `did` is in the table.
pub open spec fn has_did(dids: Seq<DidModel>, did: u16) -> bool {
    exists|i: int| 0 <= i < dids.len() && (#[trigger] dids[i]).0 == did
}

/// Position of `did` in the table (meaningful when present).
pub open spec fn did_pos(dids: Seq<DidModel>, did: u16) -> int {
    choose|i: int| 0 <= i < dids.len() && (#[trigger] dids[i]).0 == did
}

/// Value of `did` in the table, if present.
pub open spec fn did_value(dids: Seq<DidModel>, did: u16) -> Option<Seq<u8>> {
    if has_did(dids, did) {
        Some(dids[did_pos(dids, did)].1)
    } else {
        None
    }
}

/// Big-endian bytes of a 16-bit value.
pub open spec fn be16(x: u16) -> Seq<u8> {
    seq![(x / 256) as u8, (x % 256) as u8]
}

/// Big-endian bytes of a 32-bit value.
pub open spec fn be32(x: u32) -> Seq<u8> {
    seq![(x / 0x100_0000) as u8, ((x / 0x1_0000) % 256) as u8, ((x / 256) % 256) as u8, (x % 256) as u8]
}

/// Big-endian 16-bit value of two bytes.
pub open spec fn u16_of(hi: u8, lo: u8) -> u16 {
    (hi * 256 + lo) as u16
}

/// Big-endian 32-bit value of four bytes.
pub open spec fn u32_of(b: Seq<u8>) -> u32 {
    (b[0] * 0x100_0000 + b[1] * 0x1_0000 + b[2] * 256 + b[3]) as u32
}

/// Seed handed out for a request-seed sub-function.
pub open spec fn seed_for(access_type: u8) -> u32 {
    SEED_MASK ^ ((access_type as u32) * 0x1234) as u32
}

/// Key expected for `seed`.
pub open spec fn key_for(seed: u32) -> u32 {
    seed ^ KEY_MASK
}

/// What handling a request does: the new state and the response, if any.
#[verifier::ext_equal]
pub struct UdsOutcome {
    pub server: UdsModel,
    pub response: Option<Seq<u8>>,
}

pub open spec fn respond(m: UdsModel, r: Seq<u8>) -> UdsOutcome {
    UdsOutcome { server: m, response: Some(r) }
}

pub open spec fn silent(m: UdsModel) -> UdsOutcome {
    UdsOutcome { server: m, response: None }
}

/// Positive response, or none when suppressed.
pub open spec fn positive_unless(m: UdsModel, suppress: bool, r: Seq<u8>) -> UdsOutcome {
    if suppress {
        silent(m)
    } else {
        respond(m, r)
    }
}

/// Back to the default session with security locked and the attempt count cleared.
pub open spec fn reset_session(m: UdsModel) -> UdsModel {
    UdsModel { session: UdsSessionType::Default, security_level: 0, attempts: 0, ..m }
}

/// DiagnosticSessionControl: sub-functions 1, 2, 3 select the Default,
/// Programming and Extended sessions, lock security and clear the attempt
/// count, and answer with the P2 and P2*/10 timings; any other
/// sub-function is not supported.
pub open spec fn on_session_control(m: UdsModel, sub: u8, suppress: bool) -> UdsOutcome {
    if 1 <= sub <= 3 {
        let session = if sub == 1 {
            UdsSessionType::Default
        } else if sub == 2 {
            UdsSessionType::Programming
        } else {
            UdsSessionType::Extended
        };
        positive_unless(
            UdsModel { session, security_level: 0, attempts: 0, ..m },
            suppress,
            positive_bytes(
                SID_DIAG_SESSION_CONTROL,
                seq![sub] + be16(m.p2_server_ms as u16) + be16((m.p2_star_server_ms / 10) as u16),
            ),
        )
    } else {
        respond(m, negative_bytes(SID_DIAG_SESSION_CONTROL, Nrc::SubFunctionNotSupported))
    }
}

/// ECUReset: sub-functions 1 to 3 reset the session; others are not supported.
pub open spec fn on_ecu_reset(m: UdsModel, sub: u8, suppress: bool) -> UdsOutcome {
    if 1 <= sub <= 3 {
        positive_unless(reset_session(m), suppress, positive_bytes(SID_ECU_RESET, seq![sub]))
    } else {
        respond(m, negative_bytes(SID_ECU_RESET, Nrc::SubFunctionNotSupported))
    }
}

/// Whether SecurityAccess is locked out at `now`.
pub open spec fn locked_out(m: UdsModel, now: u64) -> bool {
    m.attempts >= m.max_attempts && now < m.lockout_until
}

/// SecurityAccess. Refused while locked out; once the lockout has expired
/// the attempt count starts again from zero. An odd access type requests a
/// seed; an even one sends a key (four bytes, big-endian): the right key
/// unlocks level `access_type / 2` and clears the attempt count, a wrong one
/// counts an attempt, and reaching the maximum starts a lockout.
pub open spec fn on_security_access(m: UdsModel, data: Seq<u8>, suppress: bool, now: u64) -> UdsOutcome {
    if data.len() == 0 {
        respond(
            m,
            negative_bytes(SID_SECURITY_ACCESS, Nrc::IncorrectMessageLengthOrInvalidFormat),
        )
    } else if locked_out(m, now) {
        respond(m, negative_bytes(SID_SECURITY_ACCESS, Nrc::ExceededNumberOfAttempts))
    } else {
        let m1 = if m.attempts >= m.max_attempts {
            UdsModel { attempts: 0, ..m }
        } else {
            m
        };
        let access_type = data[0];
        if access_type % 2 == 1 {
            let seed = seed_for(access_type);
            positive_unless(
                UdsModel { security_seed: seed, ..m1 },
                suppress,
                positive_bytes(SID_SECURITY_ACCESS, seq![access_type] + be32(seed)),
            )
        } else if data.len() < 5 {
            respond(
                m1,
                negative_bytes(SID_SECURITY_ACCESS, Nrc::IncorrectMessageLengthOrInvalidFormat),
            )
        } else if u32_of(data.subrange(1, 5)) == key_for(m1.security_seed) {
            positive_unless(
                UdsModel { security_level: access_type / 2, attempts: 0, ..m1 },
                suppress,
                positive_bytes(SID_SECURITY_ACCESS, seq![access_type]),
            )
        } else {
            let attempts = (m1.attempts + 1) as u8;
            if attempts >= m1.max_attempts {
                respond(
                    UdsModel {
                        attempts,
                        lockout_until: lockout_end(m1, now),
                        ..m1
                    },
                    negative_bytes(SID_SECURITY_ACCESS, Nrc::ExceededNumberOfAttempts),
                )
            } else {
                respond(
                    UdsModel { attempts, ..m1 },
                    negative_bytes(SID_SECURITY_ACCESS, Nrc::InvalidKey),
                )
            }
        }
    }
}

/// ReadDataByIdentifier: the identifier and its value, or RequestOutOfRange
/// for an unknown identifier.
pub open spec fn on_read_did(m: UdsModel, data: Seq<u8>) -> UdsOutcome {
    if data.len() < 2 {
        respond(m, negative_bytes(SID_READ_DID, Nrc::IncorrectMessageLengthOrInvalidFormat))
    } else {
        let did = u16_of(data[0], data[1]);
        match did_value(m.dids, did) {
            Some(v) => respond(m, positive_bytes(SID_READ_DID, be16(did) + v)),
            None => respond(m, negative_bytes(SID_READ_DID, Nrc::RequestOutOfRange)),
        }
    }
}

/// Value stored by a write request: at most 32 bytes after the identifier.
pub open spec fn written_value(data: Seq<u8>) -> Seq<u8> {
    data.subrange(2, 2 + min_int(data.len() - 2, DID_DATA_MAX as int))
}

pub open spec fn min_int(a: int, b: int) -> int {
    if a <= b {
        a
    } else {
        b
    }
}

/// WriteDataByIdentifier: only outside the default session; replaces the
/// value of a known identifier, adds an unknown one while the table has
/// room, and fails otherwise.
pub open spec fn on_write_did(m: UdsModel, data: Seq<u8>, suppress: bool) -> UdsOutcome {
    if data.len() < 3 {
        respond(m, negative_bytes(SID_WRITE_DID, Nrc::IncorrectMessageLengthOrInvalidFormat))
    } else if m.session == UdsSessionType::Default {
        respond(m, negative_bytes(SID_WRITE_DID, Nrc::ServiceNotSupportedInActiveSession))
    } else {
        let did = u16_of(data[0], data[1]);
        let v = written_value(data);
        if has_did(m.dids, did) {
            positive_unless(
                UdsModel { dids: m.dids.update(did_pos(m.dids, did), (did, v)), ..m },
                suppress,
                positive_bytes(SID_WRITE_DID, data.take(2)),
            )
        } else if m.dids.len() < DID_TABLE_SIZE {
            positive_unless(
                UdsModel { dids: m.dids.push((did, v)), ..m },
                suppress,
                positive_bytes(SID_WRITE_DID, data.take(2)),
            )
        } else {
            respond(m, negative_bytes(SID_WRITE_DID, Nrc::GeneralProgrammingFailure))
        }
    }
}

/// RoutineControl. `data` is the request after the SID: the sub-function
/// byte, then the two-byte routine identifier. Start (1) and stop (2) echo
/// the sub-function and the routine identifier; request results (3) adds a
/// zero status byte.
pub open spec fn on_routine_control(m: UdsModel, sub: u8, data: Seq<u8>) -> UdsOutcome {
    if data.len() < 3 {
        respond(
            m,
            negative_bytes(SID_ROUTINE_CONTROL, Nrc::IncorrectMessageLengthOrInvalidFormat),
        )
    } else if sub == 1 || sub == 2 {
        respond(m, positive_bytes(SID_ROUTINE_CONTROL, seq![sub, data[1], data[2]]))
    } else if sub == 3 {
        respond(m, positive_bytes(SID_ROUTINE_CONTROL, seq![sub, data[1], data[2], 0u8]))
    } else {
        respond(m, negative_bytes(SID_ROUTINE_CONTROL, Nrc::SubFunctionNotSupported))
    }
}

/// Services whose first parameter is a sub-function with a
/// suppress-positive-response bit.
pub open spec fn has_sub_function(sid: u8) -> bool {
    sid == SID_DIAG_SESSION_CONTROL || sid == SID_ECU_RESET || sid == SID_TESTER_PRESENT || sid
        == SID_CLEAR_DTC
}

/// Handling of the request `req` at `now`. An empty request is rejected.
/// Any other request restarts the S3 timer and is dispatched on its SID;
/// unknown SIDs are not supported.
pub open spec fn serve(m: UdsModel, req: Seq<u8>, now: u64) -> UdsOutcome {
    if req.len() == 0 {
        respond(m, negative_bytes(0, Nrc::GeneralReject))
    } else {
        let sid = req[0];
        let sub = if req.len() > 1 {
            req[1]
        } else {
            0u8
        };
        let m1 = UdsModel { last_request_time: now, ..m };
        let suppress = has_sub_function(sid) && sub >= 0x80;
        let sub_clean = if has_sub_function(sid) {
            (sub % 128) as u8
        } else {
            sub
        };
        let rest = req.subrange(1, req.len() as int);
        if sid == SID_DIAG_SESSION_CONTROL {
            on_session_control(m1, sub_clean, suppress)
        } else if sid == SID_ECU_RESET {
            on_ecu_reset(m1, sub_clean, suppress)
        } else if sid == SID_CLEAR_DTC {
            positive_unless(m1, suppress, positive_bytes(SID_CLEAR_DTC, Seq::empty()))
        } else if sid == SID_READ_DID {
            on_read_did(m1, rest)
        } else if sid == SID_SECURITY_ACCESS {
            on_security_access(m1, rest, false, now)
        } else if sid == SID_WRITE_DID {
            on_write_did(m1, rest, false)
        } else if sid == SID_ROUTINE_CONTROL {
            on_routine_control(m1, sub_clean, rest)
        } else if sid == SID_TESTER_PRESENT {
            if sub_clean != 0 {
                respond(m1, negative_bytes(SID_TESTER_PRESENT, Nrc::SubFunctionNotSupported))
            } else {
                positive_unless(m1, suppress, positive_bytes(SID_TESTER_PRESENT, seq![0u8]))
            }
        } else {
            respond(m1, negative_bytes(sid, Nrc::ServiceNotSupported))
        }
    }
}

/// The S3 timer at `now`: outside the default session, once more than the
/// session timeout has elapsed since the last request, the session is reset.
pub open spec fn after_s3(m: UdsModel, now: u64) -> UdsModel {
    if m.session != UdsSessionType::Default && elapsed(now, m.last_request_time)
        > m.session_timeout {
        reset_session(m)
    } else {
        m
    }
}

/// End of a lockout started at `now`, saturating at the end of the clock.
pub open spec fn lockout_end(m: UdsModel, now: u64) -> u64 {
    if now + m.lockout_duration > u64::MAX {
        u64::MAX
    } else {
        (now + m.lockout_duration) as u64
    }
}

// ---------------------------------------------------------------------------
// Server
// ---------------------------------------------------------------------------

/// `out` is the response `expect`, sent with normal addressing.
pub open spec fn response_is(out: Option<IsotpPdu>, expect: Option<Seq<u8>>) -> bool {
    match out {
        None => expect is None,
        Some(p) => expect == Some(p@) && p.spec_addressing_mode() == IsotpAddressingMode::Normal,
    }
}

/// Bytes of the VIN the server starts with.
pub open spec fn initial_vin() -> Seq<u8> {
    seq![0x43u8, 0x4F, 0x50, 0x50, 0x45, 0x52, 0x56, 0x49, 0x4E, 0x30, 0x30, 0x30, 0x30, 0x30, 0x30, 0x30, 0x31]
}

/// Bytes of the software version the server starts with.
pub open spec fn initial_sw_version() -> Seq<u8> {
    seq![0x43u8, 0x55, 0x2D, 0x55, 0x44, 0x53, 0x20, 0x76, 0x30, 0x2E, 0x31, 0x2E, 0x30]
}

struct DidEntry {
    did: u16,
    data: Vec<u8>,
}

/// UDS diagnostic server.
pub struct UdsServer {
    session_type: UdsSessionType,
    last_request_time: u64,
    session_timeout: u64,
    p2_server_ms: u64,
    p2_star_server_ms: u64,
    security_level: u8,
    security_seed: u32,
    security_attempt_count: u8,
    security_lockout_until: u64,
    max_security_attempts: u8,
    security_lockout_duration: u64,
    did_table: Vec<DidEntry>,
}

impl UdsServer {
    closed spec fn dids(&self) -> Seq<DidModel> {
        self.did_table@.map_values(|e: DidEntry| (e.did, e.data@))
    }
}

impl View for UdsServer {
    type V = UdsModel;

    closed spec fn view(&self) -> UdsModel {
        UdsModel {
            session: self.session_type,
            last_request_time: self.last_request_time,
            session_timeout: self.session_timeout,
            p2_server_ms: self.p2_server_ms,
            p2_star_server_ms: self.p2_star_server_ms,
            security_level: self.security_level,
            security_seed: self.security_seed,
            attempts: self.security_attempt_count,
            lockout_until: self.security_lockout_until,
            max_attempts: self.max_security_attempts,
            lockout_duration: self.security_lockout_duration,
            dids: self.dids(),
        }
    }
}

/// Wraps response bytes into a PDU, truncated to what a PDU can carry.
fn resp_to_pdu(resp: &UdsResponse) -> (pdu: IsotpPdu)
    requires
        !resp.is_negative ==> resp.request_sid < 0xC0,
    ensures
        pdu@ == resp.wire().take(min_int(resp.wire().len() as int, ISOTP_MAX_PDU_SIZE as int)),
        pdu.spec_addressing_mode() == IsotpAddressingMode::Normal,
{
    let bytes = resp.to_bytes();
    let n = bytes.len();
    let copy = if n < ISOTP_MAX_PDU_SIZE {
        n
    } else {
        ISOTP_MAX_PDU_SIZE
    };
    let data = copy_range(bytes.as_slice(), 0, copy);
    assert(data@ =~= resp.wire().take(copy as int));
    IsotpPdu::from_data(data.as_slice())
}

/// A negative response PDU.
fn nrc_pdu(sid: u8, nrc: Nrc) -> (pdu: IsotpPdu)
    ensures
        pdu@ == negative_bytes(sid, nrc),
        pdu.spec_addressing_mode() == IsotpAddressingMode::Normal,
{
    let r = UdsResponse::negative(sid, nrc);
    let pdu = resp_to_pdu(&r);
    assert(r.wire().take(3) =~= r.wire());
    pdu
}

/// A positive response PDU.
fn positive_pdu(sid: u8, data: &[u8]) -> (pdu: IsotpPdu)
    requires
        sid < 0xC0,
        data@.len() <= 64,
    ensures
        pdu@ == positive_bytes(sid, data@),
        pdu.spec_addressing_mode() == IsotpAddressingMode::Normal,
{
    let r = UdsResponse::positive(sid, data);
    let pdu = resp_to_pdu(&r);
    assert(r.wire().take(r.wire().len() as int) =~= r.wire());
    pdu
}

/// Configuration keys of the server, each absent or holding the configured integer.
#[derive(Clone, Copy, Debug)]
pub struct UdsServerConfig {
    pub session_timeout_ms: Option<i64>,
    pub p2_server_ms: Option<i64>,
    pub p2_star_server_ms: Option<i64>,
    pub max_security_attempts: Option<i64>,
    pub security_lockout_ms: Option<i64>,
}

/// The configured value of a key, or its default when the key or the whole
/// configuration is absent.
pub open spec fn server_setting(
    config: Option<UdsServerConfig>,
    key: spec_fn(UdsServerConfig) -> Option<i64>,
    default: i64,
) -> i64 {
    match config {
        Some(c) => match key(c) {
            Some(v) => v,
            None => default,
        },
        None => default,
    }
}

pub open spec fn opt_server_config(c: Option<&UdsServerConfig>) -> Option<UdsServerConfig> {
    match c {
        Some(c) => Some(*c),
        None => None,
    }
}

pub open spec fn config_session_timeout_ms(c: Option<UdsServerConfig>) -> u64 {
    server_setting(c, |c: UdsServerConfig| c.session_timeout_ms, 5000) as u64
}

pub open spec fn config_lockout_ms(c: Option<UdsServerConfig>) -> u64 {
    server_setting(c, |c: UdsServerConfig| c.security_lockout_ms, 10_000) as u64
}

/// The configured durations are representable in nanoseconds.
pub open spec fn server_config_ok(c: Option<UdsServerConfig>) -> bool {
    &&& millis(config_session_timeout_ms(c) as int) <= u64::MAX
    &&& millis(config_lockout_ms(c) as int) <= u64::MAX
}

fn value_or(v: Option<i64>, default: i64) -> (r: i64)
    ensures
        r == (match v {
            Some(x) => x,
            None => default,
        }),
{
    match v {
        Some(x) => x,
        None => default,
    }
}

impl UdsServer {
    #[verifier::type_invariant]
    spec fn inv(self) -> bool {
        dids_wf(self.dids())
    }

    /// A server configured by `config` (absent keys take their defaults:
    /// S3 timeout 5000 ms, P2 50 ms, P2* 5000 ms, 3 attempts, lockout
    /// 10000 ms), in the default session, with the VIN (0xF190) and the
    /// software version (0xF101) in its table.
    pub fn new(config: Option<&UdsServerConfig>) -> (server: UdsServer)
        requires
            server_config_ok(opt_server_config(config)),
        ensures
            server@.session == UdsSessionType::Default,
            server@.last_request_time == 0,
            server@.session_timeout == millis(config_session_timeout_ms(opt_server_config(config)) as int),
            server@.p2_server_ms == server_setting(opt_server_config(config), |c: UdsServerConfig| c.p2_server_ms, 50) as u64,
            server@.p2_star_server_ms == server_setting(opt_server_config(config), |c: UdsServerConfig| c.p2_star_server_ms, 5000) as u64,
            server@.security_level == 0,
            server@.security_seed == 0,
            server@.attempts == 0,
            server@.lockout_until == 0,
            server@.max_attempts == server_setting(opt_server_config(config), |c: UdsServerConfig| c.max_security_attempts, 3) as u8,
            server@.lockout_duration == millis(config_lockout_ms(opt_server_config(config)) as int),
            server@.dids == seq![(DID_VIN, initial_vin()), (DID_SW_VERSION, initial_sw_version())],
    {
        let (timeout, p2, p2s, max_sec, lockout) = match config {
            Some(cfg) => (
                value_or(cfg.session_timeout_ms, DEFAULT_SESSION_TIMEOUT_MS as i64) as u64,
                value_or(cfg.p2_server_ms, DEFAULT_P2_SERVER_MS as i64) as u64,
                value_or(cfg.p2_star_server_ms, DEFAULT_P2_STAR_SERVER_MS as i64) as u64,
                value_or(cfg.max_security_attempts, DEFAULT_MAX_SECURITY_ATTEMPTS as i64) as u8,
                value_or(cfg.security_lockout_ms, DEFAULT_SECURITY_LOCKOUT_MS as i64) as u64,
            ),
            None => (
                DEFAULT_SESSION_TIMEOUT_MS,
                DEFAULT_P2_SERVER_MS,
                DEFAULT_P2_STAR_SERVER_MS,
                DEFAULT_MAX_SECURITY_ATTEMPTS,
                DEFAULT_SECURITY_LOCKOUT_MS,
            ),
        };
        let vin: Vec<u8> = vec![
            0x43u8, 0x4F, 0x50, 0x50, 0x45, 0x52, 0x56, 0x49, 0x4E, 0x30, 0x30, 0x30, 0x30, 0x30,
            0x30, 0x30, 0x31,
        ];
        let sw: Vec<u8> = vec![
            0x43u8, 0x55, 0x2D, 0x55, 0x44, 0x53, 0x20, 0x76, 0x30, 0x2E, 0x31, 0x2E, 0x30,
        ];
        assert(vin@ =~= initial_vin());
        assert(sw@ =~= initial_sw_version());
        let mut did_table: Vec<DidEntry> = Vec::new();
        did_table.push(DidEntry { did: DID_VIN, data: vin });
        did_table.push(DidEntry { did: DID_SW_VERSION, data: sw });
        let server = UdsServer {
            session_type: UdsSessionType::Default,
            last_request_time: 0,
            session_timeout: from_millis(timeout),
            p2_server_ms: p2,
            p2_star_server_ms: p2s,
            security_level: 0,
            security_seed: 0,
            security_attempt_count: 0,
            security_lockout_until: 0,
            max_security_attempts: max_sec,
            security_lockout_duration: from_millis(lockout),
            did_table,
        };
        assert(server.dids() =~= seq![(DID_VIN, initial_vin()), (DID_SW_VERSION, initial_sw_version())]);
        server
    }
}

impl UdsServer {
    fn reset_session(&mut self)
        ensures
            final(self)@ == reset_session(old(self)@),
    {
        proof {
            use_type_invariant(&*self);
        }
        self.session_type = UdsSessionType::Default;
        self.security_level = 0;
        self.security_attempt_count = 0;
    }

    fn handle_session(&mut self, sub: u8, suppress: bool) -> (out: Option<IsotpPdu>)
        ensures
            final(self)@ == on_session_control(old(self)@, sub, suppress).server,
            response_is(out, on_session_control(old(self)@, sub, suppress).response),
    {
        proof {
            use_type_invariant(&*self);
        }
        let session = if sub == 0x01 {
            UdsSessionType::Default
        } else if sub == 0x02 {
            UdsSessionType::Programming
        } else if sub == 0x03 {
            UdsSessionType::Extended
        } else {
            return Some(nrc_pdu(SID_DIAG_SESSION_CONTROL, Nrc::SubFunctionNotSupported));
        };
        self.session_type = session;
        self.security_level = 0;
        self.security_attempt_count = 0;
        if suppress {
            return None;
        }
        let p2 = self.p2_server_ms as u16;
        let p2s = (self.p2_star_server_ms / 10) as u16;
        let data: Vec<u8> = vec![
            sub,
            (p2 / 256) as u8,
            (p2 % 256) as u8,
            (p2s / 256) as u8,
            (p2s % 256) as u8,
        ];
        assert(data@ =~= seq![sub] + be16(p2) + be16(p2s));
        Some(positive_pdu(SID_DIAG_SESSION_CONTROL, data.as_slice()))
    }

    fn handle_ecu_reset(&mut self, sub: u8, suppress: bool) -> (out: Option<IsotpPdu>)
        ensures
            final(self)@ == on_ecu_reset(old(self)@, sub, suppress).server,
            response_is(out, on_ecu_reset(old(self)@, sub, suppress).response),
    {
        if 0x01 <= sub && sub <= 0x03 {
            self.reset_session();
            if suppress {
                None
            } else {
                let data: Vec<u8> = vec![sub];
                assert(data@ =~= seq![sub]);
                Some(positive_pdu(SID_ECU_RESET, data.as_slice()))
            }
        } else {
            Some(nrc_pdu(SID_ECU_RESET, Nrc::SubFunctionNotSupported))
        }
    }

    fn handle_security(&mut self, data: &[u8], suppress: bool, now: u64) -> (out: Option<IsotpPdu>)
        ensures
            final(self)@ == on_security_access(old(self)@, data@, suppress, now).server,
            response_is(out, on_security_access(old(self)@, data@, suppress, now).response),
    {
        proof {
            use_type_invariant(&*self);
        }
        if data.len() == 0 {
            return Some(
                nrc_pdu(SID_SECURITY_ACCESS, Nrc::IncorrectMessageLengthOrInvalidFormat),
            );
        }
        if self.security_attempt_count >= self.max_security_attempts && now
            < self.security_lockout_until {
            return Some(nrc_pdu(SID_SECURITY_ACCESS, Nrc::ExceededNumberOfAttempts));
        }
        if self.security_attempt_count >= self.max_security_attempts && now
            >= self.security_lockout_until {
            self.security_attempt_count = 0;
        }
        let access_type = data[0];
        if access_type % 2 == 1 {
            self.security_seed = SEED_MASK ^ ((access_type as u32) * 0x1234);
            let seed = self.security_seed;
            if suppress {
                return None;
            }
            let resp: Vec<u8> = vec![
                access_type,
                (seed / 0x100_0000) as u8,
                ((seed / 0x1_0000) % 256) as u8,
                ((seed / 256) % 256) as u8,
                (seed % 256) as u8,
            ];
            assert(resp@ =~= seq![access_type] + be32(seed));
            Some(positive_pdu(SID_SECURITY_ACCESS, resp.as_slice()))
        } else {
            if data.len() < 5 {
                return Some(
                    nrc_pdu(SID_SECURITY_ACCESS, Nrc::IncorrectMessageLengthOrInvalidFormat),
                );
            }
            let key: u32 = (data[1] as u32) * 0x100_0000 + (data[2] as u32) * 0x1_0000 + (
            data[3] as u32) * 256 + data[4] as u32;
            assert(key == u32_of(data@.subrange(1, 5)));
            let expected = self.security_seed ^ KEY_MASK;
            if key == expected {
                self.security_level = access_type / 2;
                self.security_attempt_count = 0;
                if suppress {
                    return None;
                }
                let resp: Vec<u8> = vec![access_type];
                assert(resp@ =~= seq![access_type]);
                Some(positive_pdu(SID_SECURITY_ACCESS, resp.as_slice()))
            } else {
                self.security_attempt_count = self.security_attempt_count + 1;
                if self.security_attempt_count >= self.max_security_attempts {
                    self.security_lockout_until = now.saturating_add(self.security_lockout_duration);
                    return Some(nrc_pdu(SID_SECURITY_ACCESS, Nrc::ExceededNumberOfAttempts));
                }
                Some(nrc_pdu(SID_SECURITY_ACCESS, Nrc::InvalidKey))
            }
        }
    }

    /// Position of `did` in the table, if present.
    fn find_did(&self, did: u16) -> (pos: Option<usize>)
        ensures
            match pos {
                Some(i) => has_did(self@.dids, did) && i == did_pos(self@.dids, did) && i
                    < self@.dids.len(),
                None => !has_did(self@.dids, did),
            },
    {
        proof {
            use_type_invariant(self);
        }
        let n = self.did_table.len();
        let mut i: usize = 0;
        while i < n
            invariant
                n == self.did_table@.len(),
                self@.dids.len() == n,
                dids_wf(self@.dids),
                i <= n,
                forall|j: int| 0 <= j < i ==> (#[trigger] self@.dids[j]).0 != did,
            decreases n - i,
        {
            assert(self@.dids[i as int].0 == self.did_table@[i as int].did);
            if self.did_table[i].did == did {
                assert(self@.dids[i as int].0 == did);
                assert(has_did(self@.dids, did));
                proof {
                    let k = did_pos(self@.dids, did);
                    assert(self@.dids[k].0 == did);
                    assert(k == i);
                }
                return Some(i);
            }
            i = i + 1;
        }
        None
    }

    fn handle_read_did(&self, data: &[u8]) -> (out: Option<IsotpPdu>)
        ensures
            response_is(out, on_read_did(self@, data@).response),
            on_read_did(self@, data@).server == self@,
    {
        proof {
            use_type_invariant(self);
        }
        if data.len() < 2 {
            return Some(nrc_pdu(SID_READ_DID, Nrc::IncorrectMessageLengthOrInvalidFormat));
        }
        let did: u16 = (data[0] as u16) * 256 + data[1] as u16;
        match self.find_did(did) {
            Some(i) => {
                let entry = &self.did_table[i];
                assert(self@.dids[i as int] == (entry.did, entry.data@));
                let mut resp: Vec<u8> = vec![(did / 256) as u8, (did % 256) as u8];
                let stored = entry.data.as_slice();
                let n = stored.len();
                let ext = copy_range(stored, 0, n);
                let mut ext2 = ext;
                resp.append(&mut ext2);
                assert(stored@.subrange(0, n as int) =~= stored@);
                assert(resp@ =~= be16(did) + entry.data@);
                Some(positive_pdu(SID_READ_DID, resp.as_slice()))
            },
            None => Some(nrc_pdu(SID_READ_DID, Nrc::RequestOutOfRange)),
        }
    }

    fn handle_write_did(&mut self, data: &[u8], suppress: bool) -> (out: Option<IsotpPdu>)
        ensures
            final(self)@ == on_write_did(old(self)@, data@, suppress).server,
            response_is(out, on_write_did(old(self)@, data@, suppress).response),
    {
        proof {
            use_type_invariant(&*self);
        }
        if data.len() < 3 {
            return Some(nrc_pdu(SID_WRITE_DID, Nrc::IncorrectMessageLengthOrInvalidFormat));
        }
        if self.session_type == UdsSessionType::Default {
            return Some(nrc_pdu(SID_WRITE_DID, Nrc::ServiceNotSupportedInActiveSession));
        }
        let did: u16 = (data[0] as u16) * 256 + data[1] as u16;
        let write_len = if data.len() - 2 < DID_DATA_MAX {
            data.len() - 2
        } else {
            DID_DATA_MAX
        };
        let value = copy_range(data, 2, 2 + write_len);
        assert(value@ == written_value(data@));
        let echo = copy_range(data, 0, 2);
        assert(echo@ =~= data@.take(2));
        let ghost old_dids = self@.dids;
        match self.find_did(did) {
            Some(i) => {
                let mut table: Vec<DidEntry> = Vec::new();
                std::mem::swap(&mut table, &mut self.did_table);
                table[i] = DidEntry { did, data: value };
                assert(table@.map_values(|e: DidEntry| (e.did, e.data@)) =~= old_dids.update(
                    i as int,
                    (did, written_value(data@)),
                ));
                self.did_table = table;
                assert(self@.dids =~= old_dids.update(i as int, (did, written_value(data@))));
            },
            None => {
                if self.did_table.len() < DID_TABLE_SIZE {
                    let mut table: Vec<DidEntry> = Vec::new();
                    std::mem::swap(&mut table, &mut self.did_table);
                    table.push(DidEntry { did, data: value });
                    assert(table@.map_values(|e: DidEntry| (e.did, e.data@)) =~= old_dids.push(
                        (did, written_value(data@)),
                    ));
                    self.did_table = table;
                    assert(self@.dids =~= old_dids.push((did, written_value(data@))));
                } else {
                    return Some(nrc_pdu(SID_WRITE_DID, Nrc::GeneralProgrammingFailure));
                }
            },
        }
        if suppress {
            return None;
        }
        Some(positive_pdu(SID_WRITE_DID, echo.as_slice()))
    }

    fn handle_routine(&self, sub: u8, data: &[u8]) -> (out: Option<IsotpPdu>)
        ensures
            response_is(out, on_routine_control(self@, sub, data@).response),
            on_routine_control(self@, sub, data@).server == self@,
    {
        if data.len() < 3 {
            return Some(
                nrc_pdu(SID_ROUTINE_CONTROL, Nrc::IncorrectMessageLengthOrInvalidFormat),
            );
        }
        let routine_id_hi = data[1];
        let routine_id_lo = data[2];
        if sub == 0x01 || sub == 0x02 {
            let resp: Vec<u8> = vec![sub, routine_id_hi, routine_id_lo];
            assert(resp@ =~= seq![sub, data@[1], data@[2]]);
            Some(positive_pdu(SID_ROUTINE_CONTROL, resp.as_slice()))
        } else if sub == 0x03 {
            let resp: Vec<u8> = vec![sub, routine_id_hi, routine_id_lo, 0x00];
            assert(resp@ =~= seq![sub, data@[1], data@[2], 0u8]);
            Some(positive_pdu(SID_ROUTINE_CONTROL, resp.as_slice()))
        } else {
            Some(nrc_pdu(SID_ROUTINE_CONTROL, Nrc::SubFunctionNotSupported))
        }
    }
}

impl UdsServer {
    /// Handles one request PDU received at `now`; returns the response PDU,
    /// or nothing when the positive response is suppressed.
    pub fn handle(&mut self, pdu: &IsotpPdu, now: u64) -> (out: Option<IsotpPdu>)
        ensures
            old(self)@.wf(),
            final(self)@.wf(),
            final(self)@ == serve(old(self)@, pdu@, now).server,
            response_is(out, serve(old(self)@, pdu@, now).response),
    {
        proof {
            use_type_invariant(&*self);
        }
        let req = pdu.data();
        let len = req.len();
        if len == 0 {
            return Some(nrc_pdu(0, Nrc::GeneralReject));
        }
        let sid = req[0];
        let sub = if len > 1 {
            req[1]
        } else {
            0
        };
        self.last_request_time = now;
        let has_subfn = sid == SID_DIAG_SESSION_CONTROL || sid == SID_ECU_RESET || sid
            == SID_TESTER_PRESENT || sid == SID_CLEAR_DTC;
        proof {
            assert(sub & 0x80 != 0 <==> sub >= 0x80) by (bit_vector);
            assert(sub & 0x7F == sub % 128) by (bit_vector);
        }
        let suppress = has_subfn && (sub & 0x80 != 0);
        let sub_clean = if has_subfn {
            sub & 0x7F
        } else {
            sub
        };
        let rest = &req[1..len];
        assert(rest@ == pdu@.subrange(1, len as int));
        if sid == SID_DIAG_SESSION_CONTROL {
            self.handle_session(sub_clean, suppress)
        } else if sid == SID_ECU_RESET {
            self.handle_ecu_reset(sub_clean, suppress)
        } else if sid == SID_CLEAR_DTC {
            if suppress {
                None
            } else {
                let empty: Vec<u8> = Vec::new();
                Some(positive_pdu(sid, empty.as_slice()))
            }
        } else if sid == SID_READ_DID {
            self.handle_read_did(rest)
        } else if sid == SID_SECURITY_ACCESS {
            self.handle_security(rest, false, now)
        } else if sid == SID_WRITE_DID {
            self.handle_write_did(rest, false)
        } else if sid == SID_ROUTINE_CONTROL {
            self.handle_routine(sub_clean, rest)
        } else if sid == SID_TESTER_PRESENT {
            if sub_clean != 0 {
                return Some(nrc_pdu(sid, Nrc::SubFunctionNotSupported));
            }
            if suppress {
                None
            } else {
                let zero: Vec<u8> = vec![0x00];
                assert(zero@ =~= seq![0u8]);
                Some(positive_pdu(sid, zero.as_slice()))
            }
        } else {
            Some(nrc_pdu(sid, Nrc::ServiceNotSupported))
        }
    }

    /// One processing cycle at `now`: the S3 timer first, then the request, if any.
    pub fn process(&mut self, now: u64, input: Option<&IsotpPdu>) -> (out: Option<IsotpPdu>)
        ensures
            final(self)@ == (match input {
                Some(p) => serve(after_s3(old(self)@, now), p@, now).server,
                None => after_s3(old(self)@, now),
            }),
            response_is(
                out,
                match input {
                    Some(p) => serve(after_s3(old(self)@, now), p@, now).response,
                    None => None,
                },
            ),
    {
        if self.session_type != UdsSessionType::Default && elapsed_since(
            now,
            self.last_request_time,
        ) > self.session_timeout {
            self.reset_session();
        }
        match input {
            Some(pdu) => self.handle(pdu, now),
            None => None,
        }
    }

    /// The current diagnostic session.
    pub fn session_type(&self) -> (s: UdsSessionType)
        ensures
            s == self@.session,
    {
        self.session_type
    }

    /// The unlocked security level (0 when locked).
    pub fn security_level(&self) -> (l: u8)
        ensures
            l == self@.security_level,
    {
        self.security_level
    }

    /// Failed SecurityAccess keys counted towards the lockout.
    pub fn security_attempt_count(&self) -> (c: u8)
        ensures
            c == self@.attempts,
    {
        self.security_attempt_count
    }

    /// The last seed handed out.
    pub fn security_seed(&self) -> (seed: u32)
        ensures
            seed == self@.security_seed,
    {
        self.security_seed
    }

    /// Time of the last request, in nanoseconds.
    pub fn last_request_time(&self) -> (t: u64)
        ensures
            t == self@.last_request_time,
    {
        self.last_request_time
    }

    /// Sets the number of failed keys that starts a lockout.
    pub fn set_max_security_attempts(&mut self, n: u8)
        ensures
            final(self)@ == (UdsModel { max_attempts: n, ..old(self)@ }),
    {
        proof {
            use_type_invariant(&*self);
        }
        self.max_security_attempts = n;
    }

    /// Sets the lockout duration (nanoseconds).
    pub fn set_security_lockout_duration(&mut self, ns: u64)
        ensures
            final(self)@ == (UdsModel { lockout_duration: ns, ..old(self)@ }),
    {
        proof {
            use_type_invariant(&*self);
        }
        self.security_lockout_duration = ns;
    }
}

} // verus!
