use cu_automotive::uds::UdsServer;
use cu_automotive::{IsotpPdu, Nrc, UdsSessionType};

fn make_server() -> UdsServer {
    UdsServer::new(None)
}

fn make_pdu(bytes: &[u8]) -> IsotpPdu {
    IsotpPdu::from_data(bytes)
}

fn time(ms: u64) -> u64 {
    ms * 1_000_000
}

#[test]
fn session_control_default() {
    let mut server = make_server();
    let pdu = make_pdu(&[0x10, 0x01]);
    let resp = server.handle(&pdu, time(0)).unwrap();
    assert_eq!(resp.data()[0], 0x50); // positive
    assert_eq!(resp.data()[1], 0x01);
}

#[test]
fn session_control_extended() {
    let mut server = make_server();
    let pdu = make_pdu(&[0x10, 0x03]);
    let resp = server.handle(&pdu, time(0)).unwrap();
    assert_eq!(resp.data()[0], 0x50);
    assert_eq!(server.session_type(), UdsSessionType::Extended);
}

#[test]
fn tester_present() {
    let mut server = make_server();
    let pdu = make_pdu(&[0x3E, 0x00]);
    let resp = server.handle(&pdu, time(0)).unwrap();
    assert_eq!(resp.data()[0], 0x7E);
}

#[test]
fn tester_present_suppress() {
    let mut server = make_server();
    let pdu = make_pdu(&[0x3E, 0x80]);
    let resp = server.handle(&pdu, time(0));
    assert!(resp.is_none());
}

#[test]
fn read_did_vin() {
    let mut server = make_server();
    let pdu = make_pdu(&[0x22, 0xF1, 0x90]);
    let resp = server.handle(&pdu, time(0)).unwrap();
    assert_eq!(resp.data()[0], 0x62);
    assert_eq!(resp.data()[1], 0xF1);
    assert_eq!(resp.data()[2], 0x90);
    assert_eq!(&resp.data()[3..3 + 17], b"COPPERVIN00000001");
}

#[test]
fn read_did_not_found() {
    let mut server = make_server();
    let pdu = make_pdu(&[0x22, 0xFF, 0xFF]);
    let resp = server.handle(&pdu, time(0)).unwrap();
    assert_eq!(resp.data()[0], 0x7F);
    assert_eq!(resp.data()[1], 0x22);
    assert_eq!(resp.data()[2], Nrc::RequestOutOfRange.code());
}

#[test]
fn security_access_flow() {
    let mut server = make_server();
    // Request seed (level 1)
    let pdu = make_pdu(&[0x27, 0x01]);
    let resp = server.handle(&pdu, time(0)).unwrap();
    assert_eq!(resp.data()[0], 0x67);
    let d = resp.data();
    let seed = u32::from_be_bytes([d[2], d[3], d[4], d[5]]);

    // Send key
    let key = seed ^ 0xCAFE_BABE;
    let kb = key.to_be_bytes();
    let pdu2 = make_pdu(&[0x27, 0x02, kb[0], kb[1], kb[2], kb[3]]);
    let resp2 = server.handle(&pdu2, time(100)).unwrap();
    assert_eq!(resp2.data()[0], 0x67);
    assert_eq!(server.security_level(), 1);
    assert_eq!(server.security_attempt_count(), 0);
}

#[test]
fn security_lockout_after_max_attempts() {
    let mut server = make_server();
    server.set_max_security_attempts(3);
    server.set_security_lockout_duration(10_000 * 1_000_000);

    let seed_pdu = make_pdu(&[0x27, 0x01]);
    server.handle(&seed_pdu, time(0));

    // 3 wrong keys
    let bad_key = make_pdu(&[0x27, 0x02, 0x00, 0x00, 0x00, 0x00]);
    let r1 = server.handle(&bad_key, time(100)).unwrap();
    assert_eq!(r1.data()[2], Nrc::InvalidKey.code());

    server.handle(&seed_pdu, time(200));
    let r2 = server.handle(&bad_key, time(300)).unwrap();
    assert_eq!(r2.data()[2], Nrc::InvalidKey.code());

    server.handle(&seed_pdu, time(400));
    let r3 = server.handle(&bad_key, time(500)).unwrap();
    assert_eq!(r3.data()[2], Nrc::ExceededNumberOfAttempts.code());

    // During lockout, requests are rejected
    server.handle(&seed_pdu, time(600));
    let r4 = server.handle(&bad_key, time(700)).unwrap();
    assert_eq!(r4.data()[2], Nrc::ExceededNumberOfAttempts.code());

    // After lockout expires (500ms + 10000ms = 10500ms)
    server.handle(&seed_pdu, time(11_000));
    let _seed = u32::from_be_bytes([
        server.handle(&seed_pdu, time(11_001)).unwrap().data()[2],
        server.handle(&seed_pdu, time(11_002)).unwrap().data()[3],
        server.handle(&seed_pdu, time(11_003)).unwrap().data()[4],
        server.handle(&seed_pdu, time(11_004)).unwrap().data()[5],
    ]);
    assert_eq!(server.security_attempt_count(), 0);
}

#[test]
fn s3_timeout_resets_session() {
    let mut server = make_server();
    let pdu = make_pdu(&[0x10, 0x03]);
    server.handle(&pdu, time(100));
    assert_eq!(server.session_type(), UdsSessionType::Extended);
    assert_eq!(server.last_request_time(), time(100));

    // A processing cycle well after the S3 timeout (default 5000ms)
    server.process(time(6000), None);

    assert_eq!(server.session_type(), UdsSessionType::Default);
}

#[test]
fn s3_no_timeout_in_default_session() {
    let mut server = make_server();
    let pdu = make_pdu(&[0x3E, 0x00]);
    server.handle(&pdu, time(100));

    server.process(time(100_000), None);

    assert_eq!(server.session_type(), UdsSessionType::Default);
}

#[test]
fn s3_timer_resets_on_request() {
    let mut server = make_server();
    server.handle(&make_pdu(&[0x10, 0x03]), time(100));
    server.handle(&make_pdu(&[0x3E, 0x00]), time(4900));
    assert_eq!(server.last_request_time(), time(4900));

    server.process(time(9000), None);

    assert_eq!(server.session_type(), UdsSessionType::Extended);
}

#[test]
fn unsupported_service() {
    let mut server = make_server();
    let pdu = make_pdu(&[0x85, 0x02]);
    let resp = server.handle(&pdu, time(0)).unwrap();
    assert_eq!(resp.data()[0], 0x7F);
    assert_eq!(resp.data()[2], Nrc::ServiceNotSupported.code());
}

#[test]
fn empty_request_rejected() {
    let mut server = make_server();
    let pdu = IsotpPdu::default();
    let resp = server.handle(&pdu, time(0)).unwrap();
    assert_eq!(resp.data()[0], 0x7F);
}

#[test]
fn write_did_requires_non_default_session() {
    let mut server = make_server();
    let pdu = make_pdu(&[0x2E, 0xF1, 0x90, 0x41]);
    let resp = server.handle(&pdu, time(0)).unwrap();
    assert_eq!(resp.data()[2], Nrc::ServiceNotSupportedInActiveSession.code());
}

#[test]
fn write_and_read_did() {
    let mut server = make_server();
    server.handle(&make_pdu(&[0x10, 0x03]), time(0));
    let resp = server
        .handle(&make_pdu(&[0x2E, 0xF2, 0x00, 0xAA, 0xBB]), time(100))
        .unwrap();
    assert_eq!(resp.data()[0], 0x6E);
    let resp2 = server
        .handle(&make_pdu(&[0x22, 0xF2, 0x00]), time(200))
        .unwrap();
    assert_eq!(resp2.data()[0], 0x62);
    assert_eq!(&resp2.data()[3..5], &[0xAA, 0xBB]);
}

#[test]
fn ecu_reset_resets_session() {
    let mut server = make_server();
    server.handle(&make_pdu(&[0x10, 0x03]), time(0));
    assert_eq!(server.session_type(), UdsSessionType::Extended);
    let resp = server.handle(&make_pdu(&[0x11, 0x01]), time(100)).unwrap();
    assert_eq!(resp.data()[0], 0x51);
    assert_eq!(server.session_type(), UdsSessionType::Default);
}

#[test]
fn session_transition_clears_security() {
    let mut server = make_server();
    server.handle(&make_pdu(&[0x27, 0x01]), time(0));
    let seed = server.security_seed();
    let key = seed ^ 0xCAFE_BABE;
    let kb = key.to_be_bytes();
    server.handle(
        &make_pdu(&[0x27, 0x02, kb[0], kb[1], kb[2], kb[3]]),
        time(100),
    );
    assert_eq!(server.security_level(), 1);
    server.handle(&make_pdu(&[0x10, 0x02]), time(200));
    assert_eq!(server.security_level(), 0);
}
