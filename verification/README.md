# cu_automotive

A verified ISO-TP (ISO 15765-2) transport codec and UDS (ISO 14229)
diagnostic server for CAN, written in Verus.

- `src/payloads.rs`: CAN frames, ISO-TP PDUs, UDS responses and codes.
- `src/isotp.rs`: the codec (frame encoding, reassembly, segmentation,
  Flow Control, STmin, N_Bs/N_Cr/N_WFTmax) and its abstract state machine.
- `src/isotp_laws.rs`: segmentation and reassembly are inverse, also over a
  link where the receiver's own Flow Control (any STmin; a block size of
  zero or one covering the whole transfer) paces the sender; Wait frames
  abort at N_WFTmax; STmin spacing; block-size pauses.
- `src/uds.rs`: the diagnostic server and its abstract state machine.
- `src/uds_laws.rs`: a read gives back what a write stored; write outcomes
  and refusals; seed/key unlocking and key outcomes; lockout refusal and
  expiry; the S3 timer; the suppress-positive-response bit.
- `app/`: Copper runtime tasks wrapping the codec and the server.
- `tests/`: scenario tests.

Time is a `u64` count of nanoseconds throughout.
