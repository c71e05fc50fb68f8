//! RTP sessions: the packets of one source.

use super::packet::{freeze_slice, PacketView, RtpPacket};
use crate::buf::fits;
use vstd::prelude::*;

verus! {

/// The sending side of an RTP session.
#[derive(Debug, Clone, Copy, PartialEq, Eq, Structural)]
pub struct RtpSession {
    pub ssrc: u32,
    pub payload_type: u8,
    pub clock_rate: u32,
    /// Of the next packet.
    pub sequence_number: u16,
    pub timestamp: u32,
}

impl RtpSession {
    /// Create a session of a source with a payload type and a clock rate.
    pub fn new(ssrc: u32, payload_type: u8, clock_rate: u32) -> (r: Self)
        ensures
            r == (RtpSession {
                ssrc,
                payload_type,
                clock_rate,
                sequence_number: 0,
                timestamp: 0,
            }),
    {
        RtpSession { ssrc, payload_type, clock_rate, sequence_number: 0, timestamp: 0 }
    }

    /// The source of the session.
    pub fn ssrc(&self) -> (r: u32)
        ensures
            r == self.ssrc,
    {
        self.ssrc
    }

    /// The next packet of the session. It stands for so many samples.
    pub fn create_packet(&mut self, payload: Vec<u8>, samples: u32, marker: bool) -> (r: RtpPacket)
        requires
            fits(payload@.len()),
        ensures
            r@ == (PacketView {
                version: 2,
                padding: false,
                extension: false,
                marker,
                payload_type: old(self).payload_type,
                sequence_number: old(self).sequence_number,
                timestamp: old(self).timestamp,
                ssrc: old(self).ssrc,
                csrc: Seq::empty(),
                extension_header: None,
                payload: payload@,
            }),
            *final(self) == (RtpSession {
                sequence_number: ((old(self).sequence_number + 1) % 0x1_0000) as u16,
                timestamp: ((old(self).timestamp + samples) % 0x1_0000_0000) as u32,
                ..*old(self)
            }),
    {
        let p = RtpPacket {
            version: 2,
            padding: false,
            extension: false,
            marker,
            payload_type: self.payload_type,
            sequence_number: self.sequence_number,
            timestamp: self.timestamp,
            ssrc: self.ssrc,
            csrc: Vec::new(),
            extension_header: None,
            payload: freeze_slice(payload.as_slice()),
        };
        self.sequence_number = self.sequence_number.wrapping_add(1);
        self.timestamp = self.timestamp.wrapping_add(samples);
        p
    }
}

} // verus!
