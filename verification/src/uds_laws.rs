//! Laws of the UDS server: what a read gives back of a write, session and
//! security rules, and the S3 timer.
use crate::payloads::{negative_bytes, positive_bytes, Nrc, UdsSessionType};
use crate::time::elapsed;
use crate::uds::{
    after_s3, be16, be32, did_pos, did_value, dids_wf, has_did, has_sub_function, key_for,
    locked_out, lockout_end, min_int, seed_for, serve, u16_of, u32_of, UdsModel, DID_DATA_MAX,
    DID_TABLE_SIZE, SID_READ_DID, SID_SECURITY_ACCESS, SID_WRITE_DID,
};
use vstd::prelude::*;

verus! {

/// A WriteDataByIdentifier request for `did` with value `v`.
pub open spec fn write_request(did: u16, v: Seq<u8>) -> Seq<u8> {
    seq![SID_WRITE_DID] + be16(did) + v
}

/// A ReadDataByIdentifier request for `did`.
pub open spec fn read_request(did: u16) -> Seq<u8> {
    seq![SID_READ_DID] + be16(did)
}

proof fn lemma_u16_roundtrip(did: u16)
    ensures
        u16_of(be16(did)[0], be16(did)[1]) == did,
{
}

proof fn lemma_u32_roundtrip(x: u32)
    ensures
        u32_of(be32(x)) == x,
{
    let b0 = (x / 0x100_0000) as u8;
    let b1 = ((x / 0x1_0000) % 256) as u8;
    let b2 = ((x / 256) % 256) as u8;
    let b3 = (x % 256) as u8;
    assert(b0 * 0x100_0000 + b1 * 0x1_0000 + b2 * 256 + b3 == x) by (nonlinear_arith)
        requires
            b0 == x / 0x100_0000,
            b1 == (x / 0x1_0000) % 256,
            b2 == (x / 256) % 256,
            b3 == x % 256,
            x <= 0xFFFF_FFFF,
    ;
}

/// Handling any request keeps the identifier table well formed: at most 16
/// identifiers, each stored once, each with at most 32 bytes.
pub proof fn lemma_serve_preserves_wf(m: UdsModel, req: Seq<u8>, now: u64)
    requires
        m.wf(),
    ensures
        serve(m, req, now).server.wf(),
{
    if req.len() >= 1 && req[0] == SID_WRITE_DID {
        let data = req.subrange(1, req.len() as int);
        if data.len() >= 3 && m.session != UdsSessionType::Default {
            let did = u16_of(data[0], data[1]);
            if has_did(m.dids, did) {
                let k = did_pos(m.dids, did);
                let d2 = m.dids.update(k, (did, data.subrange(2, 2 + min_int(data.len() - 2, DID_DATA_MAX as int))));
                assert forall|i: int, j: int| 0 <= i < j < d2.len() implies (#[trigger] d2[i]).0
                    != (#[trigger] d2[j]).0 by {
                    if i != k && j != k {
                        assert(d2[i] == m.dids[i] && d2[j] == m.dids[j]);
                    } else if i == k {
                        assert(m.dids[k].0 == did);
                        assert(d2[j] == m.dids[j]);
                    } else {
                        assert(m.dids[k].0 == did);
                        assert(d2[i] == m.dids[i]);
                    }
                }
                assert(dids_wf(d2));
            } else if m.dids.len() < DID_TABLE_SIZE {
                let d2 = m.dids.push((did, data.subrange(2, 2 + min_int(data.len() - 2, DID_DATA_MAX as int))));
                assert forall|i: int, j: int| 0 <= i < j < d2.len() implies (#[trigger] d2[i]).0
                    != (#[trigger] d2[j]).0 by {
                    if j == m.dids.len() {
                        assert(d2[i] == m.dids[i]);
                        if m.dids[i].0 == did {
                            assert(has_did(m.dids, did));
                        }
                    } else {
                        assert(d2[i] == m.dids[i] && d2[j] == m.dids[j]);
                    }
                }
                assert(dids_wf(d2));
            }
        }
    }
}

/// What a read gives back of a write: outside the default session, once a
/// WriteDataByIdentifier of a non-empty value `v` for `did` succeeded (the
/// identifier was known, or the table had room), a ReadDataByIdentifier of
/// `did` answers with `did` and the first 32 bytes of `v`.
pub proof fn lemma_write_then_read(m: UdsModel, did: u16, v: Seq<u8>, t1: u64, t2: u64)
    requires
        m.wf(),
        m.session != UdsSessionType::Default,
        v.len() >= 1,
        has_did(m.dids, did) || m.dids.len() < DID_TABLE_SIZE,
    ensures
        serve(m, write_request(did, v), t1).response == Some(positive_bytes(SID_WRITE_DID, be16(did))),
        serve(serve(m, write_request(did, v), t1).server, read_request(did), t2).response == Some(
            positive_bytes(SID_READ_DID, be16(did) + v.take(min_int(v.len() as int, DID_DATA_MAX as int))),
        ),
{
    let req = write_request(did, v);
    let data = req.subrange(1, req.len() as int);
    assert(data =~= be16(did) + v);
    lemma_u16_roundtrip(did);
    assert(u16_of(data[0], data[1]) == did);
    let stored = v.take(min_int(v.len() as int, DID_DATA_MAX as int));
    assert(data.subrange(2, 2 + min_int(data.len() - 2, DID_DATA_MAX as int)) =~= stored);
    assert(data.take(2) =~= be16(did));
    lemma_serve_preserves_wf(m, req, t1);
    let w = serve(m, req, t1).server;
    let rreq = read_request(did);
    let rdata = rreq.subrange(1, rreq.len() as int);
    assert(rdata =~= be16(did));
    let k = if has_did(m.dids, did) {
        did_pos(m.dids, did)
    } else {
        m.dids.len() as int
    };
    assert(w.dids[k] == (did, stored));
    assert(has_did(w.dids, did));
    let p = did_pos(w.dids, did);
    assert(w.dids[p].0 == did);
    assert(p == k);
    assert(did_value(w.dids, did) == Some(stored));
}

/// Writing `did` leaves the value of every other identifier as it was.
pub proof fn lemma_write_keeps_other_dids(m: UdsModel, did: u16, v: Seq<u8>, other: u16, t: u64)
    requires
        m.wf(),
        other != did,
    ensures
        did_value(serve(m, write_request(did, v), t).server.dids, other) == did_value(m.dids, other),
{
    let req = write_request(did, v);
    let data = req.subrange(1, req.len() as int);
    assert(data =~= be16(did) + v);
    lemma_u16_roundtrip(did);
    lemma_serve_preserves_wf(m, req, t);
    let w = serve(m, req, t).server;
    if w.dids != m.dids {
        if has_did(m.dids, other) {
            let q = did_pos(m.dids, other);
            assert(w.dids[q] == m.dids[q]);
            assert(has_did(w.dids, other));
            let q2 = did_pos(w.dids, other);
            assert(q2 == q);
        } else {
            assert forall|i: int| 0 <= i < w.dids.len() implies (#[trigger] w.dids[i]).0 != other by {
                if i < m.dids.len() && w.dids[i] == m.dids[i] {
                } else {
                    assert(w.dids[i].0 == did);
                }
            }
        }
    }
}

/// Every request but the empty one restarts the S3 session timer.
pub proof fn lemma_request_restarts_s3(m: UdsModel, req: Seq<u8>, now: u64)
    requires
        req.len() >= 1,
    ensures
        serve(m, req, now).server.last_request_time == now,
{
}

/// Selecting a session (sub-function 1, 2 or 3, suppressed or not) locks
/// security and clears the attempt count.
pub proof fn lemma_session_change_locks_security(m: UdsModel, sub: u8, now: u64)
    requires
        1 <= sub % 128 <= 3,
    ensures
        serve(m, seq![0x10u8, sub], now).server.security_level == 0,
        serve(m, seq![0x10u8, sub], now).server.attempts == 0,
{
    assert(sub & 0x7F == sub % 128) by (bit_vector);
}

/// While locked out, every SecurityAccess request is refused with
/// ExceededNumberOfAttempts and changes nothing but the S3 timer.
pub proof fn lemma_lockout_refuses(m: UdsModel, data: Seq<u8>, now: u64)
    requires
        locked_out(m, now),
        data.len() >= 1,
    ensures
        serve(m, seq![SID_SECURITY_ACCESS] + data, now).response == Some(
            negative_bytes(SID_SECURITY_ACCESS, Nrc::ExceededNumberOfAttempts),
        ),
        serve(m, seq![SID_SECURITY_ACCESS] + data, now).server == (UdsModel {
            last_request_time: now,
            ..m
        }),
{
    let req = seq![SID_SECURITY_ACCESS] + data;
    assert(req.subrange(1, req.len() as int) =~= data);
}

/// Seed and key: when SecurityAccess is not locked out, requesting a seed with
/// an odd access type and then sending the matching key with the next (even)
/// access type unlocks level `(access_type + 1) / 2` and clears the attempt count.
pub proof fn lemma_seed_key_unlocks(m: UdsModel, access_type: u8, t1: u64, t2: u64)
    requires
        access_type % 2 == 1,
        access_type < 255,
        m.max_attempts > 0,
        !locked_out(m, t1),
    ensures
        ({
            let s1 = serve(m, seq![SID_SECURITY_ACCESS, access_type], t1);
            let key = be32(key_for(seed_for(access_type)));
            let s2 = serve(s1.server, seq![SID_SECURITY_ACCESS, (access_type + 1) as u8] + key, t2);
            &&& s1.response == Some(
                positive_bytes(SID_SECURITY_ACCESS, seq![access_type] + be32(seed_for(access_type))),
            )
            &&& s2.response == Some(positive_bytes(SID_SECURITY_ACCESS, seq![(access_type + 1) as u8]))
            &&& s2.server.security_level == (access_type + 1) / 2
            &&& s2.server.attempts == 0
        }),
{
    let r1 = seq![SID_SECURITY_ACCESS, access_type];
    assert(r1.subrange(1, 2) =~= seq![access_type]);
    let s1 = serve(m, r1, t1);
    assert(s1.server.attempts < s1.server.max_attempts);
    let key = be32(key_for(seed_for(access_type)));
    let r2 = seq![SID_SECURITY_ACCESS, (access_type + 1) as u8] + key;
    let d2 = r2.subrange(1, r2.len() as int);
    assert(d2 =~= seq![(access_type + 1) as u8] + key);
    assert(d2.subrange(1, 5) =~= key);
    lemma_u32_roundtrip(key_for(seed_for(access_type)));
}

/// The suppress-positive-response bit. For DiagnosticSessionControl,
/// ECUReset, ClearDTC and TesterPresent, a request whose second byte has bit
/// 7 set does to the server what the same request with that bit cleared
/// does; it gets no answer where the cleared request would get a positive
/// one, and the same negative answer otherwise: a negative response is
/// never suppressed.
pub proof fn lemma_suppress_bit(m: UdsModel, sid: u8, sub: u8, rest: Seq<u8>, now: u64)
    requires
        has_sub_function(sid),
        sub >= 0x80,
    ensures
        ({
            let set = serve(m, seq![sid, sub] + rest, now);
            let clear = serve(m, seq![sid, (sub - 0x80) as u8] + rest, now);
            &&& set.server == clear.server
            &&& clear.response is Some
            &&& clear.response->Some_0[0] == 0x7F ==> set.response == clear.response
            &&& clear.response->Some_0[0] != 0x7F ==> set.response is None
        }),
{
    let c = (sub - 0x80) as u8;
    assert(c % 128 == sub % 128);
    let r1 = seq![sid, sub] + rest;
    let r2 = seq![sid, c] + rest;
    assert(r1[0] == sid && r1[1] == sub);
    assert(r2[0] == sid && r2[1] == c);
    assert(r1.subrange(1, r1.len() as int) =~= seq![sub] + rest);
    assert(r2.subrange(1, r2.len() as int) =~= seq![c] + rest);
}

/// Outside those four services bit 7 of the second byte is plain data:
/// every non-empty request to any other service is answered.
pub proof fn lemma_other_services_answer(m: UdsModel, req: Seq<u8>, now: u64)
    requires
        req.len() >= 1,
        !has_sub_function(req[0]),
    ensures
        serve(m, req, now).response is Some,
{
}

/// SecurityAccess key check. Outside a lockout (an expired lockout clears
/// the attempt count first), a key request with four key bytes unlocks level
/// `access_type / 2` and clears the count when the key matches the current
/// seed; otherwise it keeps the level, counts one attempt, and either starts
/// a lockout of the configured duration (saturating at the end of the clock)
/// with ExceededNumberOfAttempts, or answers InvalidKey.
pub proof fn lemma_key_outcome(m: UdsModel, access_type: u8, key: Seq<u8>, now: u64)
    requires
        access_type % 2 == 0,
        key.len() >= 4,
        !locked_out(m, now),
    ensures
        ({
            let out = serve(m, seq![SID_SECURITY_ACCESS, access_type] + key, now);
            let c0: int = if m.attempts >= m.max_attempts { 0 } else { m.attempts as int };
            if u32_of(key.take(4)) == key_for(m.security_seed) {
                &&& out.response == Some(positive_bytes(SID_SECURITY_ACCESS, seq![access_type]))
                &&& out.server.security_level == access_type / 2
                &&& out.server.attempts == 0
            } else {
                &&& out.server.security_level == m.security_level
                &&& out.server.attempts == (c0 + 1) as u8
                &&& if (c0 + 1) as u8 >= m.max_attempts {
                    &&& out.response == Some(
                        negative_bytes(SID_SECURITY_ACCESS, Nrc::ExceededNumberOfAttempts),
                    )
                    &&& out.server.lockout_until == lockout_end(m, now)
                } else {
                    &&& out.response == Some(negative_bytes(SID_SECURITY_ACCESS, Nrc::InvalidKey))
                    &&& out.server.lockout_until == m.lockout_until
                }
            }
        }),
{
    let req = seq![SID_SECURITY_ACCESS, access_type] + key;
    let data = req.subrange(1, req.len() as int);
    assert(data =~= seq![access_type] + key);
    assert(data.subrange(1, 5) =~= key.take(4));
}

/// A WriteDataByIdentifier that is accepted (outside the default session,
/// at least one value byte, and the identifier known or the table not full)
/// answers with the identifier, stores the first 32 value bytes for it in
/// place when it was known and at the end of the table otherwise, leaves
/// every other entry as it was, and keeps identifiers distinct.
pub proof fn lemma_write_outcome(m: UdsModel, data: Seq<u8>, now: u64)
    requires
        m.wf(),
        m.session != UdsSessionType::Default,
        data.len() >= 3,
        has_did(m.dids, u16_of(data[0], data[1])) || m.dids.len() < DID_TABLE_SIZE,
    ensures
        ({
            let did = u16_of(data[0], data[1]);
            let out = serve(m, seq![SID_WRITE_DID] + data, now);
            let v = data.subrange(2, 2 + min_int(data.len() - 2, DID_DATA_MAX as int));
            &&& out.response == Some(positive_bytes(SID_WRITE_DID, data.take(2)))
            &&& out.server.wf()
            &&& did_value(out.server.dids, did) == Some(v)
            &&& if has_did(m.dids, did) {
                &&& out.server.dids.len() == m.dids.len()
                &&& out.server.dids == m.dids.update(did_pos(m.dids, did), (did, v))
            } else {
                &&& out.server.dids.len() == m.dids.len() + 1
                &&& out.server.dids == m.dids.push((did, v))
            }
            &&& forall|i: int|
                0 <= i < m.dids.len() && m.dids[i].0 != did ==> #[trigger] out.server.dids[i]
                    == m.dids[i]
        }),
{
    let req = seq![SID_WRITE_DID] + data;
    assert(req.subrange(1, req.len() as int) =~= data);
    lemma_serve_preserves_wf(m, req, now);
    let did = u16_of(data[0], data[1]);
    let w = serve(m, req, now).server;
    let k = if has_did(m.dids, did) {
        did_pos(m.dids, did)
    } else {
        m.dids.len() as int
    };
    assert(w.dids[k].0 == did);
    assert(has_did(w.dids, did));
    let p = did_pos(w.dids, did);
    assert(w.dids[p].0 == did);
    assert(p == k);
}

/// A refused WriteDataByIdentifier changes no identifier: a request with
/// fewer than three data bytes is answered
/// IncorrectMessageLengthOrInvalidFormat, and outside the default session a
/// new identifier with the table full is answered GeneralProgrammingFailure.
pub proof fn lemma_write_refused(m: UdsModel, data: Seq<u8>, now: u64)
    requires
        data.len() < 3 || (m.session != UdsSessionType::Default && !has_did(
            m.dids,
            u16_of(data[0], data[1]),
        ) && m.dids.len() >= DID_TABLE_SIZE),
    ensures
        ({
            let out = serve(m, seq![SID_WRITE_DID] + data, now);
            &&& out.server.dids == m.dids
            &&& out.response == Some(
                negative_bytes(
                    SID_WRITE_DID,
                    if data.len() < 3 {
                        Nrc::IncorrectMessageLengthOrInvalidFormat
                    } else {
                        Nrc::GeneralProgrammingFailure
                    },
                ),
            )
        }),
{
    let req = seq![SID_WRITE_DID] + data;
    assert(req.subrange(1, req.len() as int) =~= data);
}

/// A request keeps the session alive: for as long as no more than the S3
/// timeout has elapsed since it, the S3 timer leaves the session that the
/// request left.
pub proof fn lemma_request_keeps_session_alive(m: UdsModel, req: Seq<u8>, t1: u64, t2: u64)
    requires
        req.len() >= 1,
        elapsed(t2, t1) <= m.session_timeout,
    ensures
        after_s3(serve(m, req, t1).server, t2) == serve(m, req, t1).server,
{
}

/// Once the lockout has expired, SecurityAccess is available again: a seed
/// request (odd access type) is answered with a seed and the attempt count
/// starts again from zero.
pub proof fn lemma_lockout_expires(m: UdsModel, access_type: u8, now: u64)
    requires
        m.attempts >= m.max_attempts,
        now >= m.lockout_until,
        access_type % 2 == 1,
    ensures
        serve(m, seq![SID_SECURITY_ACCESS, access_type], now).response == Some(
            positive_bytes(SID_SECURITY_ACCESS, seq![access_type] + be32(seed_for(access_type))),
        ),
        serve(m, seq![SID_SECURITY_ACCESS, access_type], now).server.attempts == 0,
{
    let req = seq![SID_SECURITY_ACCESS, access_type];
    assert(req.subrange(1, 2) =~= seq![access_type]);
}

/// DiagnosticSessionControl selects the session its sub-function names,
/// whatever the state and whether or not the positive response is
/// suppressed: 1 the default session, 2 programming, 3 extended; and the
/// positive answer (when not suppressed) echoes the sub-function.
pub proof fn lemma_session_control_selects(m: UdsModel, sub: u8, now: u64)
    requires
        1 <= sub % 128 <= 3,
    ensures
        ({
            let out = serve(m, seq![0x10u8, sub], now);
            &&& out.server.session == (if sub % 128 == 1 {
                UdsSessionType::Default
            } else if sub % 128 == 2 {
                UdsSessionType::Programming
            } else {
                UdsSessionType::Extended
            })
            &&& sub < 0x80 ==> (out.response matches Some(r) && r.len() >= 2 && r[0] == 0x50 && r[1]
                == sub)
        }),
{
    assert(sub & 0x7F == sub % 128) by (bit_vector);
}

/// The S3 timer ends every session but the default one: once more than the
/// session timeout has passed since the last request, the server is back in
/// the default session with security locked and the attempt count cleared;
/// before that, or in the default session, it changes nothing.
pub proof fn lemma_s3_ends_any_session(m: UdsModel, now: u64)
    ensures
        m.session != UdsSessionType::Default && elapsed(now, m.last_request_time)
            > m.session_timeout ==> {
            &&& after_s3(m, now).session == UdsSessionType::Default
            &&& after_s3(m, now).security_level == 0
            &&& after_s3(m, now).attempts == 0
        },
        !(m.session != UdsSessionType::Default && elapsed(now, m.last_request_time)
            > m.session_timeout) ==> after_s3(m, now) == m,
{
}

} // verus!
