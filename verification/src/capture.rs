//! A packet capture as a seed: the TCP segments of the capture, in the
//! order in which they were captured.

use vstd::prelude::*;

verus! {

/// What a seed import reads of one captured TCP segment.
#[derive(Clone, Debug, PartialEq, Eq)]
pub struct TcpSegment {
    /// The port that the segment comes from.
    pub source_port: u16,
    /// The port that the segment goes to.
    pub destination_port: u16,
    /// The flag `SYN`.
    pub syn: bool,
    /// The flag `ACK`.
    pub ack: bool,
    /// The flag `FIN`.
    pub fin: bool,
    /// The flag `RST`.
    pub rst: bool,
    /// The bytes that the segment carries.
    pub payload: Vec<u8>,
}

impl TcpSegment {
    /// The two ports of the segment, source first.
    pub open spec fn ports(self) -> (u16, u16) {
        (self.source_port, self.destination_port)
    }

    /// Whether the segment opens a connection from the client's side.
    pub open spec fn opens(self) -> bool {
        self.syn && !self.ack
    }

    /// Whether the segment closes a connection.
    pub open spec fn closes(self) -> bool {
        self.fin || self.rst
    }
}

/// Whether a line ends at position `i` of `payload`: a carriage return
/// there, and a line feed behind it.
pub open spec fn is_line_end(payload: Seq<u8>, i: int) -> bool {
    0 <= i < payload.len() - 1 && payload[i] == 0x0du8 && payload[i + 1] == 0x0au8
}

/// Whether `end` is the first position of `payload` at which a line ends.
pub open spec fn is_first_line_end(payload: Seq<u8>, end: int) -> bool {
    is_line_end(payload, end) && forall|i: int| 0 <= i < end ==> !is_line_end(payload, i)
}

/// The first position of `payload` at which a line ends.
pub fn first_line_end(payload: &[u8]) -> (end: Option<usize>)
    ensures
        match end {
            Some(end) => is_first_line_end(payload@, end as int),
            None => forall|i: int| !is_line_end(payload@, i),
        },
{
    if payload.len() < 2 {
        return None;
    }
    let mut i: usize = 0;
    while i < payload.len() - 1
        invariant
            payload.len() >= 2,
            i <= payload.len() - 1,
            forall|k: int| 0 <= k < i ==> !is_line_end(payload@, k),
        decreases payload.len() - i,
    {
        if payload[i] == 0x0d && payload[i + 1] == 0x0a {
            return Some(i);
        }
        i = i + 1;
    }
    None
}

} // verus!
