use cu_automotive::isotp::IsotpCodec;
use cu_automotive::{CanFrame, CanId, IsotpConfig, IsotpPdu};

fn make_codec() -> IsotpCodec {
    let config = IsotpConfig {
        tx_id: Some(0x641),
        rx_id: Some(0x642),
        block_size: None,
        st_min_ms: None,
        n_bs_timeout_ms: None,
        n_cr_timeout_ms: None,
        n_wft_max: None,
    };
    IsotpCodec::new(Some(&config))
}

fn time(ms: u64) -> u64 {
    ms * 1_000_000
}

fn millis(ms: u64) -> u64 {
    ms * 1_000_000
}

fn fc_frame(b0: u8, bs: u8, st: u8) -> CanFrame {
    let mut fc = CanFrame::default();
    fc.dlc = 3;
    fc.data[0] = b0;
    fc.data[1] = bs;
    fc.data[2] = st;
    fc.id = CanId::Standard(0x642);
    fc
}

fn counting(n: usize) -> Vec<u8> {
    (0..n).map(|i| i as u8).collect()
}

#[test]
fn single_frame_round_trip() {
    let data = [0x10, 0x01]; // UDS DiagnosticSessionControl
    let pdu = IsotpPdu::from_data(&data);
    assert!(pdu.len() <= 7);

    let frame = IsotpCodec::build_single_frame(&pdu.data()[..pdu.len() as usize]);
    assert_eq!(frame.data[0] & 0xF0, 0x00); // SF
    assert_eq!(frame.data[0] & 0x0F, 2); // length
    assert_eq!(frame.data[1], 0x10);
    assert_eq!(frame.data[2], 0x01);
}

#[test]
fn multi_frame_segmentation() {
    let mut codec = make_codec();
    let data = counting(20);
    let pdu = IsotpPdu::from_data(&data);

    let ff = codec.start_tx(&pdu, time(0)).unwrap();
    assert_eq!(ff.data[0] >> 4, 1); // FF
    let announced_len = (((ff.data[0] & 0x0F) as usize) << 8) | ff.data[1] as usize;
    assert_eq!(announced_len, 20);

    // FC (CTS, BS=0, STmin=0)
    let fc = fc_frame(0x30, 0, 0);
    codec.handle_rx(&fc, time(10));

    let cf1 = codec.tx_next_frame(time(20)).unwrap();
    assert_eq!(cf1.data[0] >> 4, 2); // CF
    assert_eq!(cf1.data[0] & 0x0F, 1); // SN=1

    let cf2 = codec.tx_next_frame(time(30)).unwrap();
    assert_eq!(cf2.data[0] & 0x0F, 2); // SN=2
}

#[test]
fn reassembly_single_frame() {
    let mut codec = make_codec();
    let mut frame = CanFrame::default();
    frame.dlc = 4;
    frame.data[0] = 0x03; // SF, len=3
    frame.data[1] = 0x7F;
    frame.data[2] = 0x10;
    frame.data[3] = 0x22;
    frame.id = CanId::Standard(0x642);

    let (pdu, _fc) = codec.handle_rx(&frame, time(0));
    let pdu = pdu.unwrap();
    assert_eq!(pdu.len(), 3);
    assert_eq!(pdu.data()[0], 0x7F);
    assert_eq!(pdu.data()[1], 0x10);
    assert_eq!(pdu.data()[2], 0x22);
}

#[test]
fn stmin_ms_pacing() {
    let mut codec = make_codec();
    let data = counting(30);
    let pdu = IsotpPdu::from_data(&data);
    codec.start_tx(&pdu, time(0));

    // FC with STmin=20ms
    let fc = fc_frame(0x30, 0, 20);
    codec.handle_rx(&fc, time(10));

    assert!(codec.tx_next_frame(time(10)).is_none());
    assert!(codec.tx_next_frame(time(20)).is_none());
    assert!(codec.tx_next_frame(time(30)).is_some());
    assert!(codec.tx_next_frame(time(31)).is_none());
    assert!(codec.tx_next_frame(time(50)).is_some());
}

#[test]
fn stmin_microsecond_pacing() {
    // STmin byte 0xF3 = 300us
    let stmin = IsotpCodec::parse_stmin(0xF3);
    assert_eq!(stmin, 300_000); // 300us in ns
}

#[test]
fn stmin_reserved_uses_max() {
    // Reserved range 0x80-0xF0
    let stmin = IsotpCodec::parse_stmin(0x80);
    assert_eq!(stmin, millis(127));
}

#[test]
fn rx_timeout_aborts_reassembly() {
    let mut codec = make_codec();
    codec.set_n_cr_timeout(millis(100));

    let mut ff = CanFrame::default();
    ff.dlc = 8;
    ff.data[0] = 0x10; // FF
    ff.data[1] = 20; // total=20
    ff.id = CanId::Standard(0x642);
    let (_pdu, fc) = codec.handle_rx(&ff, time(0));
    assert!(fc.is_some());
    assert!(codec.rx_is_receiving());

    // No CF arrives for 200ms
    codec.process(time(200), None, None);
    assert!(!codec.rx_is_receiving());
}

#[test]
fn tx_timeout_aborts_sending() {
    let mut codec = make_codec();
    codec.set_n_bs_timeout(millis(100));

    let data = counting(20);
    let pdu = IsotpPdu::from_data(&data);
    codec.start_tx(&pdu, time(0));
    assert!(matches!(codec.tx_wait_state(), Some((true, _, _))));

    // No FC arrives for 200ms
    codec.process(time(200), None, None);
    assert!(!codec.tx_is_sending());
}

#[test]
fn wait_fc_resets_timer() {
    let mut codec = make_codec();
    let data = counting(20);
    let pdu = IsotpPdu::from_data(&data);
    codec.start_tx(&pdu, time(0));

    let fc = fc_frame(0x31, 0, 0); // FC Wait
    codec.handle_rx(&fc, time(50));

    match codec.tx_wait_state() {
        Some((waiting_fc, fc_wait_start, wait_fc_count)) => {
            assert!(waiting_fc);
            assert_eq!(fc_wait_start, time(50));
            assert_eq!(wait_fc_count, 1);
        }
        None => panic!("Expected Sending state"),
    }
}

#[test]
fn wait_fc_max_aborts() {
    let mut codec = make_codec();
    codec.set_n_wft_max(3);

    let data = counting(20);
    let pdu = IsotpPdu::from_data(&data);
    codec.start_tx(&pdu, time(0));

    let fc = fc_frame(0x31, 0, 0); // FC Wait

    codec.handle_rx(&fc, time(10));
    codec.handle_rx(&fc, time(20));
    assert!(codec.tx_is_sending());
    codec.handle_rx(&fc, time(30));
    assert!(!codec.tx_is_sending());
}

#[test]
fn overflow_fc_aborts() {
    let mut codec = make_codec();
    let data = [0u8; 20];
    let pdu = IsotpPdu::from_data(&data);
    codec.start_tx(&pdu, time(0));

    let fc = fc_frame(0x32, 0, 0); // FC Overflow
    codec.handle_rx(&fc, time(10));

    assert!(!codec.tx_is_sending());
}

#[test]
fn full_reassembly_20_bytes() {
    let mut codec = make_codec();

    let mut ff = CanFrame::default();
    ff.dlc = 8;
    ff.data[0] = 0x10;
    ff.data[1] = 20;
    for i in 0..6 {
        ff.data[2 + i] = i as u8;
    }
    ff.id = CanId::Standard(0x642);
    let (_pdu, fc) = codec.handle_rx(&ff, time(0));
    assert!(fc.is_some());

    let mut cf1 = CanFrame::default();
    cf1.dlc = 8;
    cf1.data[0] = 0x21;
    for i in 0..7 {
        cf1.data[1 + i] = (6 + i) as u8;
    }
    cf1.id = CanId::Standard(0x642);
    let (pdu, _) = codec.handle_rx(&cf1, time(10));
    assert!(pdu.is_none());

    let mut cf2 = CanFrame::default();
    cf2.dlc = 8;
    cf2.data[0] = 0x22;
    for i in 0..7 {
        cf2.data[1 + i] = (13 + i) as u8;
    }
    cf2.id = CanId::Standard(0x642);
    let (pdu, _) = codec.handle_rx(&cf2, time(20));
    let pdu = pdu.unwrap();
    assert_eq!(pdu.len(), 20);
    for i in 0..20 {
        assert_eq!(pdu.data()[i], i as u8);
    }
}

#[test]
fn sequence_number_error_aborts() {
    let mut codec = make_codec();

    let mut ff = CanFrame::default();
    ff.dlc = 8;
    ff.data[0] = 0x10;
    ff.data[1] = 20;
    ff.id = CanId::Standard(0x642);
    codec.handle_rx(&ff, time(0));

    // CF with wrong SN (expected 1, got 3)
    let mut bad_cf = CanFrame::default();
    bad_cf.dlc = 8;
    bad_cf.data[0] = 0x23;
    bad_cf.id = CanId::Standard(0x642);
    let (pdu, _) = codec.handle_rx(&bad_cf, time(10));
    assert!(pdu.is_none());
    assert!(!codec.rx_is_receiving());
}

#[test]
fn sn_wraps_around() {
    let mut codec = make_codec();

    // 120 bytes = FF(6) + 17 CFs of 7 = 125 > 120
    let mut ff = CanFrame::default();
    ff.dlc = 8;
    ff.data[0] = 0x10;
    ff.data[1] = 120;
    ff.id = CanId::Standard(0x642);
    codec.handle_rx(&ff, time(0));

    for sn_counter in 1u8..=17 {
        let sn = sn_counter & 0x0F;
        let mut cf = CanFrame::default();
        cf.dlc = 8;
        cf.data[0] = 0x20 | sn;
        cf.id = CanId::Standard(0x642);
        codec.handle_rx(&cf, time(sn_counter as u64 * 10));
    }
    assert!(!codec.rx_is_receiving());
}

#[test]
fn block_size_with_multiple_fc() {
    let mut codec = make_codec();
    let data = counting(30); // FF(6) + 4 CFs
    let pdu = IsotpPdu::from_data(&data);
    codec.start_tx(&pdu, time(0));

    // FC: CTS, BS=2, STmin=0
    let fc = fc_frame(0x30, 2, 0);
    codec.handle_rx(&fc, time(10));

    assert!(codec.tx_next_frame(time(20)).is_some()); // CF1
    assert!(codec.tx_next_frame(time(30)).is_some()); // CF2
    assert!(codec.tx_next_frame(time(40)).is_none());

    codec.handle_rx(&fc, time(50));
    assert!(codec.tx_next_frame(time(60)).is_some()); // CF3
}

#[test]
fn empty_pdu_no_frame() {
    let mut codec = make_codec();
    let pdu = IsotpPdu::default();
    assert!(codec.start_tx(&pdu, time(0)).is_none());
}

#[test]
fn sf_too_short_rejected() {
    let mut codec = make_codec();
    let mut frame = CanFrame::default();
    frame.dlc = 1;
    frame.data[0] = 0x05; // SF claiming 5 bytes but carrying none
    frame.id = CanId::Standard(0x642);
    let (pdu, _) = codec.handle_rx(&frame, time(0));
    assert!(pdu.is_none());
}

#[test]
fn ff_exceeding_max_pdu_rejected() {
    let mut codec = make_codec();
    let mut frame = CanFrame::default();
    frame.dlc = 8;
    frame.data[0] = 0x10; // FF, length high = 0
    frame.data[1] = 0x00; // length low = 0, total = 0
    frame.id = CanId::Standard(0x642);
    let (pdu, _fc) = codec.handle_rx(&frame, time(0));
    assert!(pdu.is_none());
}

#[test]
fn stmin_zero_allows_immediate() {
    let mut codec = make_codec();
    let data = [0u8; 20];
    let pdu = IsotpPdu::from_data(&data);
    codec.start_tx(&pdu, time(0));

    let fc = fc_frame(0x30, 0, 0);
    codec.handle_rx(&fc, time(10));

    let t = time(10);
    assert!(codec.tx_next_frame(t).is_some());
    assert!(codec.tx_next_frame(t).is_some());
}
