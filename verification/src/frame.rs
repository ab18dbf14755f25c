//! Message framing for the caching layer: one logical message is a varint
//! byte-count prefix followed by exactly that many bytes. The caching layer
//! grows a buffer of the client's first bytes and asks, after every read,
//! whether the buffer now holds one complete framed message.

use vstd::prelude::*;

use crate::varint::{read_varint, spec_decode, VarIntError};

verus! {

/// What the buffer of initial client bytes holds so far.
#[derive(Debug, Clone, Copy, PartialEq, Eq, Structural)]
pub enum FrameStatus {
    /// No full framed message yet; keep reading.
    NeedMore,
    /// A full framed message occupies this many leading bytes.
    Complete(usize),
    /// The length prefix overflows the varint range; framing detection is
    /// abandoned and the bytes are forwarded as they are.
    Unframed,
}

/// The declared length of the message body: the decoded prefix value,
/// truncated to its low 32 bits as the decoder truncates.
pub open spec fn declared_len(value: nat) -> nat {
    value % 0x100000000
}

/// Framing status of a buffer: complete once the prefix decodes and the
/// buffer holds the prefix plus the declared number of body bytes.
pub open spec fn spec_frame_status(buf: Seq<u8>) -> FrameStatus {
    match spec_decode(buf, 5) {
        Err(VarIntError::Incomplete) => FrameStatus::NeedMore,
        Err(VarIntError::TooLarge) => FrameStatus::Unframed,
        Ok(p) => if buf.len() >= p.1 + declared_len(p.0) {
            FrameStatus::Complete((p.1 + declared_len(p.0)) as usize)
        } else {
            FrameStatus::NeedMore
        },
    }
}

/// Decides, after a read, whether the buffered initial bytes hold one
/// complete framed message, need more bytes, or lost framing.
pub fn frame_status(buffer: &Vec<u8>) -> (r: FrameStatus)
    ensures
        r == spec_frame_status(buffer@),
{
    match read_varint(buffer.as_slice()) {
        Err(VarIntError::Incomplete) => FrameStatus::NeedMore,
        Err(VarIntError::TooLarge) => FrameStatus::Unframed,
        Ok((value, offset)) => {
            proof {
                crate::varint::lemma_decode_bounds(buffer@, 5);
            }
            let body: usize = (#[verifier::truncate] (value as u32)) as usize;
            if buffer.len() - offset >= body {
                FrameStatus::Complete(offset + body)
            } else {
                FrameStatus::NeedMore
            }
        }
    }
}

/// A buffer that is exactly a varint length prefix followed by that many
/// body bytes holds one complete framed message spanning the whole buffer,
/// whatever bytes of a next message follow it.
pub proof fn lemma_well_framed_complete(body: Seq<u8>, rest: Seq<u8>)
    requires
        body.len() < 0x80000000,
    ensures
        ({
            let prefix = crate::varint::spec_encode(body.len() as nat);
            spec_frame_status(prefix + body + rest) == FrameStatus::Complete(
                (prefix.len() + body.len()) as usize,
            )
        }),
{
    let prefix = crate::varint::spec_encode(body.len() as nat);
    crate::varint::lemma_varint_round_trip(body.len() as nat);
    crate::varint::lemma_decode_extend(prefix, body + rest, 5);
    assert(prefix + body + rest =~= prefix + (body + rest));
}

} // verus!
