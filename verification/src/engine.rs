//! What is handed to a DEFLATE engine and what comes back.
//!
//! The engine is the code that decodes the stream: it owns the decode tables and writes the
//! output buffer. The library decides what each call is given and what its reply means.

use vstd::arithmetic::power2::pow2;
use vstd::prelude::*;

verus! {

/// How an engine call ended.
#[derive(Debug, Clone, Copy, PartialEq, Eq, Structural)]
pub enum Status {
    /// The final block of the stream was decoded.
    Success,
    /// The compressed data is invalid, corrupt or otherwise unsupported.
    BadData,
    /// The data decompressed to fewer bytes than the buffer holds, and the call asked for
    /// exactly that many.
    ShortOutput,
    /// The data would have decompressed to more bytes than the buffer holds.
    InsufficientSpace,
    /// The decoder stopped at the end of a block that is not the final one.
    BlockEnd,
}

/// A position inside a byte of the compressed stream: the bits of that byte that were read but
/// not yet decoded.
#[derive(Debug, Clone, Copy, PartialEq, Eq, Structural)]
pub struct BitCursor {
    /// The undecoded bits, in the low end.
    pub bitbuf: u64,
    /// How many there are.
    pub bitsleft: u32,
}

impl BitCursor {
    /// The cursor at a byte boundary, where every stream starts.
    pub open spec fn start() -> BitCursor {
        BitCursor { bitbuf: 0, bitsleft: 0 }
    }

    /// The cursor lies inside one byte, and no bit is set beyond those that it counts.
    pub open spec fn within_byte(self) -> bool {
        &&& self.bitsleft <= 7
        &&& self.bitbuf < pow2(self.bitsleft as nat)
    }
}

/// The arguments of an engine call that walks a stream, besides the two buffers.
#[derive(Debug, Clone, Copy, PartialEq, Eq, Structural)]
pub struct WalkCall {
    /// The bits left over from the block before.
    pub init: BitCursor,
    /// Where in the output buffer to start writing. Back-references reach into what lies
    /// before.
    pub out_offset: usize,
    /// Nonzero to stop at the end of each block that is not the final one.
    pub stop_at_block_end: i32,
}

/// What a walking engine call returns.
#[derive(Debug, Clone, Copy, PartialEq, Eq, Structural)]
pub struct WalkReply {
    /// How the call ended.
    pub status: Status,
    /// The bits left over at the block boundary; meaningful for [`Status::BlockEnd`] alone.
    pub cursor: BitCursor,
    /// Bytes consumed from the input.
    pub in_consumed: usize,
    /// Bytes written to the output, from the call's `out_offset` on.
    pub out_produced: usize,
}

impl WalkReply {
    /// The reply keeps to what `call` asked for: the engine stops at a block boundary only when
    /// told to, leaves a cursor inside one byte there, and never finds the output too short, since
    /// no call asks for an exact size.
    pub open spec fn honours(self, call: WalkCall) -> bool {
        &&& self.status !is ShortOutput
        &&& self.status is BlockEnd ==> call.stop_at_block_end != 0 && self.cursor.within_byte()
    }
}

/// The arguments of an engine call that resumes a stream, besides the two buffers.
#[derive(Debug, Clone, Copy)]
pub struct ResumeCall<'a> {
    /// The bits left over at the checkpoint.
    pub saved: BitCursor,
    /// The uncompressed bytes that precede the checkpoint. The engine copies them to the start
    /// of the output buffer and writes behind them.
    pub dictionary: &'a [u8],
}

/// What a resuming engine call returns.
#[derive(Debug, Clone, Copy, PartialEq, Eq, Structural)]
pub struct ResumeReply {
    /// How the call ended.
    pub status: Status,
    /// Bytes consumed from the input.
    pub in_consumed: usize,
    /// Bytes written to the output behind the dictionary.
    pub out_produced: usize,
}

impl ResumeReply {
    /// The reply is one that a resume can have: it runs to the end of the stream or fails, and
    /// never finds the output too short, since no call asks for an exact size.
    pub open spec fn honours(self) -> bool {
        self.status !is ShortOutput && self.status !is BlockEnd
    }
}

} // verus!
