//! Verified ISO-TP (ISO 15765-2) transport codec and UDS (ISO 14229)
//! diagnostic server for CAN-based automotive stacks.
//!
//! Time is represented everywhere as a `u64` count of nanoseconds, the
//! representation used by the runtime clock that drives the tasks.
pub mod isotp;
pub mod isotp_laws;
pub mod payloads;
pub mod time;
pub mod uds;
pub mod uds_laws;

pub use payloads::{
    CanFrame, CanId, FlowControlParams, FlowStatus, IsotpAddressingMode, IsotpFrameType, IsotpPdu,
    Nrc, UdsResponse, UdsSessionType, ISOTP_MAX_PDU_SIZE, UDS_MAX_PAYLOAD_SIZE,
};
pub use isotp::{IsotpCodec, IsotpConfig};
pub use uds::{UdsServer, UdsServerConfig};
