use cu_automotive::isotp::IsotpCodec;
use cu_automotive::{CanFrame, CanId, FlowStatus, IsotpConfig, IsotpFrameType, IsotpPdu};

fn ms(v: u64) -> u64 {
    v * 1_000_000
}

fn pattern(n: usize) -> Vec<u8> {
    (0..n).map(|i| (i * 7 + 3) as u8).collect()
}

fn addressed(mut f: CanFrame, id: u16) -> CanFrame {
    f.id = CanId::Standard(id);
    f
}

/// Sends `data` from one codec to another, frame by frame, and returns what
/// the receiver delivers.
fn transfer(data: &[u8]) -> Option<Vec<u8>> {
    let mut tx = IsotpCodec::new(None);
    let mut rx = IsotpCodec::new(None);
    let pdu = IsotpPdu::from_data(data);
    let first = tx.start_tx(&pdu, 0).unwrap();
    let (delivered, fc) = rx.handle_rx(&first, 0);
    if let Some(p) = delivered {
        return Some(p.data().to_vec());
    }
    let fc = fc.unwrap();
    assert_eq!(fc.data[0], 0x30);
    // Clear to send everything at once.
    let mut cts = CanFrame::default();
    cts.dlc = 3;
    cts.data[0] = 0x30;
    tx.handle_rx(&cts, 0);
    for step in 0..1000u64 {
        match tx.tx_next_frame(step) {
            Some(cf) => {
                let (delivered, _) = rx.handle_rx(&cf, step);
                if let Some(p) = delivered {
                    return Some(p.data().to_vec());
                }
            }
            None => break,
        }
    }
    None
}

#[test]
fn single_frame_law_each_length() {
    for n in 1..=7 {
        let data = pattern(n);
        let frame = IsotpCodec::build_single_frame(&data);
        assert_eq!(frame.dlc as usize, n + 1);
        let mut codec = IsotpCodec::new(None);
        let (pdu, fc) = codec.handle_rx(&frame, 0);
        assert!(fc.is_none());
        assert_eq!(pdu.unwrap().data(), &data[..]);
    }
}

#[test]
fn transfer_law_small_and_boundary_sizes() {
    for n in [1usize, 7, 8, 13, 14, 20, 27, 100, 120, 300, 4095] {
        let data = pattern(n);
        assert_eq!(transfer(&data), Some(data.clone()), "size {}", n);
    }
}

#[test]
fn transfer_law_sequence_number_wraps() {
    // 6 + 7 * 40 bytes: forty Consecutive Frames, numbers wrap twice.
    let data = pattern(286);
    assert_eq!(transfer(&data), Some(data));
}

#[test]
fn stmin_decoding_formula() {
    assert_eq!(IsotpCodec::parse_stmin(0x00), 0);
    assert_eq!(IsotpCodec::parse_stmin(0x01), ms(1));
    assert_eq!(IsotpCodec::parse_stmin(0x7F), ms(127));
    assert_eq!(IsotpCodec::parse_stmin(0xF1), 100_000);
    assert_eq!(IsotpCodec::parse_stmin(0xF9), 900_000);
    assert_eq!(IsotpCodec::parse_stmin(0xF0), ms(127));
    assert_eq!(IsotpCodec::parse_stmin(0xFA), ms(127));
    assert_eq!(IsotpCodec::parse_stmin(0xFF), ms(127));
}

#[test]
fn first_frame_encodes_twelve_bit_length() {
    let data = pattern(4095);
    let ff = IsotpCodec::build_first_frame(&data);
    assert_eq!(ff.dlc, 8);
    assert_eq!(ff.data[0], 0x1F);
    assert_eq!(ff.data[1], 0xFF);
    assert_eq!(&ff.data[2..8], &data[..6]);
    let ff = IsotpCodec::build_first_frame(&pattern(0x123));
    assert_eq!(ff.data[0], 0x11);
    assert_eq!(ff.data[1], 0x23);
}

#[test]
fn consecutive_frame_uses_low_nibble_of_sequence_number() {
    let cf = IsotpCodec::build_consecutive_frame(&[9, 8, 7], 0x1F);
    assert_eq!(cf.data[0], 0x2F);
    assert_eq!(cf.dlc, 4);
    assert_eq!(&cf.data[1..4], &[9, 8, 7]);
    assert_eq!(&cf.data[4..8], &[0, 0, 0, 0]);
    let cf = IsotpCodec::build_consecutive_frame(&pattern(10), 3);
    assert_eq!(cf.dlc, 8);
    assert_eq!(&cf.data[1..8], &pattern(10)[..7]);
}

#[test]
fn flow_control_frame_layout() {
    let fc = IsotpCodec::build_flow_control(FlowStatus::Wait, 4, 0xF2);
    assert_eq!(fc.dlc, 3);
    assert_eq!(&fc.data[..3], &[0x31, 4, 0xF2]);
    let fc = IsotpCodec::build_flow_control(FlowStatus::Overflow, 0, 0);
    assert_eq!(fc.data[0], 0x32);
}

#[test]
fn frame_type_by_high_nibble() {
    assert_eq!(IsotpCodec::frame_type(&[]), IsotpFrameType::SingleFrame);
    assert_eq!(IsotpCodec::frame_type(&[0x05]), IsotpFrameType::SingleFrame);
    assert_eq!(IsotpCodec::frame_type(&[0x10, 0]), IsotpFrameType::FirstFrame);
    assert_eq!(IsotpCodec::frame_type(&[0x21]), IsotpFrameType::ConsecutiveFrame);
    assert_eq!(IsotpCodec::frame_type(&[0x30]), IsotpFrameType::FlowControl);
    assert_eq!(IsotpCodec::frame_type(&[0x45]), IsotpFrameType::SingleFrame);
}

#[test]
fn first_frame_answered_with_advertised_flow_control() {
    let cfg = IsotpConfig {
        tx_id: None,
        rx_id: None,
        block_size: Some(4),
        st_min_ms: Some(25),
        n_bs_timeout_ms: None,
        n_cr_timeout_ms: None,
        n_wft_max: None,
    };
    let mut codec = IsotpCodec::new(Some(&cfg));
    let ff = IsotpCodec::build_first_frame(&pattern(50));
    let (_, fc) = codec.handle_rx(&ff, 0);
    let fc = fc.unwrap();
    assert_eq!(fc.dlc, 3);
    assert_eq!(&fc.data[..3], &[0x30, 4, 25]);
}

#[test]
fn process_filters_on_receive_identifier() {
    let mut codec = IsotpCodec::new(None);
    let sf = IsotpCodec::build_single_frame(&[1, 2, 3]);
    let (can, pdu) = codec.process(0, Some(&addressed(sf, 0x123)), None);
    assert!(can.is_none());
    assert!(pdu.is_none());
    let (can, pdu) = codec.process(0, Some(&addressed(sf, 0x7E8)), None);
    assert!(can.is_none());
    assert_eq!(pdu.unwrap().data(), &[1, 2, 3]);
}

#[test]
fn process_accepts_every_identifier_when_receive_identifier_is_zero() {
    let cfg = IsotpConfig {
        tx_id: None,
        rx_id: Some(0),
        block_size: None,
        st_min_ms: None,
        n_bs_timeout_ms: None,
        n_cr_timeout_ms: None,
        n_wft_max: None,
    };
    let mut codec = IsotpCodec::new(Some(&cfg));
    let sf = IsotpCodec::build_single_frame(&[5]);
    let (_, pdu) = codec.process(0, Some(&addressed(sf, 0x7AB)), None);
    assert_eq!(pdu.unwrap().data(), &[5]);
}

#[test]
fn process_sends_on_transmit_identifier() {
    let mut codec = IsotpCodec::new(None);
    let ff = IsotpCodec::build_first_frame(&pattern(30));
    let (can, _) = codec.process(0, Some(&addressed(ff, 0x7E8)), None);
    let fc = can.unwrap();
    assert_eq!(fc.id, CanId::Standard(0x7E0));
    assert_eq!(fc.data[0], 0x30);

    let mut sender = IsotpCodec::new(None);
    let pdu = IsotpPdu::from_data(&pattern(3));
    let (can, _) = sender.process(0, None, Some(&pdu));
    let sf = can.unwrap();
    assert_eq!(sf.id, CanId::Standard(0x7E0));
    assert_eq!(sf.data[0], 3);
}

#[test]
fn process_continues_transmission() {
    let mut codec = IsotpCodec::new(None);
    let pdu = IsotpPdu::from_data(&pattern(20));
    let (ff, _) = codec.process(0, None, Some(&pdu));
    assert_eq!(ff.unwrap().data[0] >> 4, 1);
    let mut cts = CanFrame::default();
    cts.dlc = 3;
    cts.data[0] = 0x30;
    let (none, _) = codec.process(ms(1), Some(&addressed(cts, 0x7E8)), None);
    // ContinueToSend is not answered, the first Consecutive Frame goes out.
    let cf = none.unwrap();
    assert_eq!(cf.data[0], 0x21);
    let (cf2, _) = codec.process(ms(2), None, None);
    assert_eq!(cf2.unwrap().data[0], 0x22);
}

#[test]
fn identifiers_clamped_to_eleven_bits() {
    let cfg = IsotpConfig {
        tx_id: Some(0x1234),
        rx_id: Some(0x700),
        block_size: None,
        st_min_ms: None,
        n_bs_timeout_ms: None,
        n_cr_timeout_ms: None,
        n_wft_max: None,
    };
    let mut codec = IsotpCodec::new(Some(&cfg));
    let pdu = IsotpPdu::from_data(&[1]);
    let (can, _) = codec.process(0, None, Some(&pdu));
    assert_eq!(can.unwrap().id, CanId::Standard(0x7FF));
}

#[test]
fn malformed_frames_ignored() {
    let mut codec = IsotpCodec::new(None);
    codec.start_tx(&IsotpPdu::from_data(&pattern(20)), 0);
    // No data at all.
    let f = CanFrame::default();
    let (pdu, fc) = codec.handle_rx(&f, 1);
    assert!(pdu.is_none() && fc.is_none());
    // A First Frame without its length byte.
    let mut f = CanFrame::default();
    f.dlc = 1;
    f.data[0] = 0x10;
    let (pdu, fc) = codec.handle_rx(&f, 1);
    assert!(pdu.is_none() && fc.is_none());
    assert!(!codec.rx_is_receiving());
    // A First Frame announcing no bytes at all.
    let mut f = CanFrame::default();
    f.dlc = 8;
    f.data[0] = 0x10;
    let (pdu, fc) = codec.handle_rx(&f, 1);
    assert!(pdu.is_none() && fc.is_none());
    assert!(!codec.rx_is_receiving());
    // A Single Frame announcing more bytes than it carries.
    let mut f = CanFrame::default();
    f.dlc = 3;
    f.data[0] = 0x05;
    let (pdu, fc) = codec.handle_rx(&f, 1);
    assert!(pdu.is_none() && fc.is_none());
    // The transmission in progress is untouched.
    assert_eq!(codec.tx_wait_state(), Some((true, 0, 0)));
}

#[test]
fn oversized_dlc_reads_eight_bytes() {
    let mut codec = IsotpCodec::new(None);
    let mut f = CanFrame::default();
    f.dlc = 9;
    f.data = [0x07, 1, 2, 3, 4, 5, 6, 7];
    let (pdu, fc) = codec.handle_rx(&f, 0);
    assert_eq!(pdu.unwrap().data(), &[1, 2, 3, 4, 5, 6, 7]);
    assert!(fc.is_none());
}

#[test]
fn default_identifiers() {
    let mut codec = IsotpCodec::new(None);
    let sf = IsotpCodec::build_single_frame(&[9]);
    // Frames on the default transmit identifier are not ours.
    let (_, pdu) = codec.process(0, Some(&addressed(sf, 0x7E0)), None);
    assert!(pdu.is_none());
    let (_, pdu) = codec.process(0, Some(&addressed(sf, 0x7E8)), None);
    assert_eq!(pdu.unwrap().data(), &[9]);
}

#[test]
fn n_bs_restarts_at_end_of_block() {
    let mut codec = IsotpCodec::new(None);
    let pdu = IsotpPdu::from_data(&pattern(30));
    codec.process(0, None, Some(&pdu));
    let mut cts = CanFrame::default();
    cts.dlc = 3;
    cts.data = [0x30, 1, 0, 0, 0, 0, 0, 0];
    // Block size 1: the first Consecutive Frame ends the block at 0.5 s.
    let (cf, _) = codec.process(ms(500), Some(&addressed(cts, 0x7E8)), None);
    assert_eq!(cf.unwrap().data[0], 0x21);
    assert_eq!(codec.tx_wait_state(), Some((true, ms(500), 0)));
    // 1.1 s after the First Frame, but only 0.6 s after the block ended.
    codec.process(ms(1100), None, None);
    assert!(codec.tx_is_sending());
    codec.process(ms(1500), None, None);
    assert!(codec.tx_is_sending());
    codec.process(ms(1500) + 1, None, None);
    assert!(!codec.tx_is_sending());
}

#[test]
fn unknown_flow_status_and_short_flow_control_ignored() {
    let mut codec = IsotpCodec::new(None);
    codec.start_tx(&IsotpPdu::from_data(&pattern(20)), 0);
    let mut fc = CanFrame::default();
    fc.dlc = 3;
    fc.data[0] = 0x35;
    codec.handle_rx(&fc, 1);
    assert_eq!(codec.tx_wait_state(), Some((true, 0, 0)));
    fc.dlc = 2;
    fc.data[0] = 0x32;
    codec.handle_rx(&fc, 2);
    assert!(codec.tx_is_sending());
}

#[test]
fn consecutive_frame_without_reassembly_ignored() {
    let mut codec = IsotpCodec::new(None);
    let cf = IsotpCodec::build_consecutive_frame(&[1, 2], 1);
    let (pdu, fc) = codec.handle_rx(&cf, 0);
    assert!(pdu.is_none() && fc.is_none());
    assert!(!codec.rx_is_receiving());
}

#[test]
fn single_frame_aborts_reassembly() {
    let mut codec = IsotpCodec::new(None);
    codec.handle_rx(&IsotpCodec::build_first_frame(&pattern(30)), 0);
    assert!(codec.rx_is_receiving());
    let (pdu, _) = codec.handle_rx(&IsotpCodec::build_single_frame(&[4, 4]), 1);
    assert_eq!(pdu.unwrap().data(), &[4, 4]);
    assert!(!codec.rx_is_receiving());
}

#[test]
fn reassembly_survives_within_n_cr() {
    let mut codec = IsotpCodec::new(None);
    codec.handle_rx(&IsotpCodec::build_first_frame(&pattern(30)), 0);
    codec.process(ms(1000), None, None); // exactly N_Cr: not expired
    assert!(codec.rx_is_receiving());
    codec.process(ms(1000) + 1, None, None);
    assert!(!codec.rx_is_receiving());
}

#[test]
fn transmission_ends_after_last_frame() {
    let mut codec = IsotpCodec::new(None);
    codec.start_tx(&IsotpPdu::from_data(&pattern(10)), 0);
    let mut cts = CanFrame::default();
    cts.dlc = 3;
    cts.data[0] = 0x30;
    codec.handle_rx(&cts, 0);
    let cf = codec.tx_next_frame(0).unwrap();
    assert_eq!(cf.dlc, 5);
    assert!(codec.tx_is_sending());
    assert!(codec.tx_next_frame(0).is_none());
    assert!(!codec.tx_is_sending());
}

/// Runs a transfer of `data` over a link: the receiver's own Flow Control
/// goes back to the sender, one sending step every `gap` nanoseconds.
fn linked_transfer(rx_cfg: Option<&IsotpConfig>, data: &[u8], gap: u64) {
    let mut tx = IsotpCodec::new(None);
    let mut rx = IsotpCodec::new(rx_cfg);
    let ff = tx.start_tx(&IsotpPdu::from_data(data), 0).unwrap();
    let (pdu, fc) = rx.handle_rx(&ff, 0);
    assert!(pdu.is_none());
    tx.handle_rx(&fc.unwrap(), 0);
    let count = (data.len() - 6 + 6) / 7;
    let mut t = 0;
    for i in 1..=count {
        t += gap;
        let cf = tx.tx_next_frame(t).unwrap();
        let (pdu, fc) = rx.handle_rx(&cf, t);
        assert!(fc.is_none());
        if i < count {
            assert!(pdu.is_none());
        } else {
            assert_eq!(pdu.unwrap().data(), data);
        }
    }
    assert!(!rx.rx_is_receiving());
    assert!(tx.tx_next_frame(t + gap).is_none());
    assert!(!tx.tx_is_sending());
}

#[test]
fn link_roundtrip_paced_by_receiver_stmin() {
    linked_transfer(None, &pattern(100), ms(10));
}

#[test]
fn link_roundtrip_with_covering_block_size() {
    let cfg = IsotpConfig {
        tx_id: None,
        rx_id: None,
        block_size: Some(14),
        st_min_ms: Some(0),
        n_bs_timeout_ms: None,
        n_cr_timeout_ms: None,
        n_wft_max: None,
    };
    linked_transfer(Some(&cfg), &pattern(100), 1);
}

#[test]
fn link_respects_receiver_stmin() {
    let mut tx = IsotpCodec::new(None);
    let mut rx = IsotpCodec::new(None);
    let ff = tx.start_tx(&IsotpPdu::from_data(&pattern(40)), 0).unwrap();
    let (_, fc) = rx.handle_rx(&ff, 0);
    tx.handle_rx(&fc.unwrap(), 0);
    assert!(tx.tx_next_frame(ms(10) - 1).is_none());
    assert!(tx.tx_next_frame(ms(10)).is_some());
}
