//! Request framing: how the byte stream of a connected client is cut into
//! whole requests. Standard framing carries the length in the 4-byte header;
//! big framing, once enabled on a client, reads an 8-byte header with a
//! 32-bit extended length whenever the 16-bit length field is zero.

use vstd::prelude::*;
use crate::codec::{u16_le_at, u32_le_at};

verus! {

/// The active request-framing strategy of one client.
#[derive(Clone, Copy, PartialEq, Eq, Structural)]
pub enum FramingMode {
    /// 4-byte header; the 16-bit length field counts 4-byte units.
    Standard,
    /// 4-byte header, but a zero length field announces an 8-byte header
    /// whose last four bytes hold a 32-bit length in 4-byte units.
    Big,
}

/// The outcome of cutting one request off the front of a client's buffer.
#[derive(Clone, Copy, PartialEq, Eq, Structural)]
pub enum FrameResult {
    /// The buffer does not yet hold a whole request.
    NeedMore,
    /// A whole request: its major opcode, its optional header byte, the
    /// length of its header, and its total length in bytes.
    Frame { opcode: u8, optional: u8, hdr_len: usize, total_len: usize },
    /// The length field is invalid — zero under standard framing, shorter
    /// than its own header, or beyond the server's maximum: a `Length`
    /// protocol error against the named opcode.
    BadLength { opcode: u8 },
}

/// What reading one frame from `b` yields under `mode`, with `max` the
/// server-chosen maximum request length in bytes.
pub open spec fn spec_read_frame(mode: FramingMode, b: Seq<u8>, max: int) -> FrameResult {
    if b.len() < 4 {
        FrameResult::NeedMore
    } else {
        let opcode = b[0];
        let optional = b[1];
        let len_field = u16_le_at(b, 2);
        if len_field == 0 {
            if mode is Standard {
                FrameResult::BadLength { opcode }
            } else if b.len() < 8 {
                FrameResult::NeedMore
            } else {
                let total = 4 * u32_le_at(b, 4);
                if total > max || total < 8 {
                    FrameResult::BadLength { opcode }
                } else if b.len() < total {
                    FrameResult::NeedMore
                } else {
                    FrameResult::Frame { opcode, optional, hdr_len: 8, total_len: total as usize }
                }
            }
        } else {
            let total = 4 * len_field;
            if total > max {
                FrameResult::BadLength { opcode }
            } else if b.len() < total {
                FrameResult::NeedMore
            } else {
                FrameResult::Frame { opcode, optional, hdr_len: 4, total_len: total as usize }
            }
        }
    }
}

/// Cuts one request off the front of `b` under `mode`; `max` is the
/// server-chosen maximum request length in bytes. A zero length field under
/// standard framing, and any length beyond `max`, are `Length` errors; a
/// buffer that does not yet hold the whole request is no error.
pub fn read_frame(mode: FramingMode, b: &[u8], max: usize) -> (r: FrameResult)
    requires
        max <= 0x10000000,
    ensures
        r == spec_read_frame(mode, b@, max as int),
        r matches FrameResult::Frame { opcode, optional, hdr_len, total_len } ==> 4 <= hdr_len
            <= total_len <= b@.len() && 4 <= total_len <= max,
{
    if b.len() < 4 {
        return FrameResult::NeedMore;
    }
    let opcode = b[0];
    let optional = b[1];
    let len_field = crate::codec::read_u16_le(b, 2);
    if len_field == 0 {
        match mode {
            FramingMode::Standard => FrameResult::BadLength { opcode },
            FramingMode::Big => {
                if b.len() < 8 {
                    return FrameResult::NeedMore;
                }
                let ext = crate::codec::read_u32_le(b, 4);
                let total: u64 = 4 * (ext as u64);
                if total > max as u64 || total < 8 {
                    FrameResult::BadLength { opcode }
                } else if (b.len() as u64) < total {
                    FrameResult::NeedMore
                } else {
                    FrameResult::Frame {
                        opcode,
                        optional,
                        hdr_len: 8,
                        total_len: total as usize,
                    }
                }
            }
        }
    } else {
        let total: usize = 4 * (len_field as usize);
        if total > max {
            FrameResult::BadLength { opcode }
        } else if b.len() < total {
            FrameResult::NeedMore
        } else {
            FrameResult::Frame { opcode, optional, hdr_len: 4, total_len: total }
        }
    }
}

} // verus!
