//! RTCP packet handling per RFC 3550.
//!
//! RTCP provides feedback on quality of service and participant information.
//!
//! ```text
//!  0                   1                   2                   3
//!  0 1 2 3 4 5 6 7 8 9 0 1 2 3 4 5 6 7 8 9 0 1 2 3 4 5 6 7 8 9 0 1
//! +-+-+-+-+-+-+-+-+-+-+-+-+-+-+-+-+-+-+-+-+-+-+-+-+-+-+-+-+-+-+-+-+
//! |V=2|P|    RC   |   PT=SR=200   |             length            |
//! +-+-+-+-+-+-+-+-+-+-+-+-+-+-+-+-+-+-+-+-+-+-+-+-+-+-+-+-+-+-+-+-+
//! ```

pub mod compound;
pub mod header;
pub mod laws;
pub mod nack;
pub mod payload;
pub mod report;
pub mod sdes;

pub use compound::{RtcpCompound, RtcpPacket};
pub use header::{NtpTimestamp, RtcpHeader, RtcpParseError, RtcpType};
pub use nack::{Nack, NackEntry, TransportFeedbackType};
pub use payload::{Fir, FirEntry, PayloadFeedbackType, Pli, Remb};
pub use report::{ReceiverReport, ReportBlock, SenderReport};
pub use sdes::{Goodbye, SdesChunk, SdesItem, SdesType, SourceDescription};
