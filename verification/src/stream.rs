//! A model of the stream behind an engine, over which the session laws are stated.
//!
//! A decoder is any function that tells what the next block of a stream holds, given the rest of
//! the compressed bytes, the bit cursor and everything produced so far. Nothing is said here of
//! how a block is encoded. That an engine follows a decoder is what the laws assume of it.

use vstd::prelude::*;

use crate::checkpoint::window_tail;
use crate::decompressor::{pending_after, walk_call};
use crate::engine::{BitCursor, ResumeReply, Status, WalkCall, WalkReply};

verus! {

/// What the next block of a stream turns out to be.
pub ghost enum Block {
    /// Another block follows: `bytes` were decoded, `in_consumed` bytes of input were used up, and
    /// decoding goes on from `cursor`.
    More { in_consumed: nat, bytes: Seq<u8>, cursor: BitCursor },
    /// The final block, which decodes to `bytes`.
    Last { in_consumed: nat, bytes: Seq<u8> },
    /// No block can be read.
    Corrupt,
}

/// A decoder: from the input, the cursor and the output so far to the next block.
pub type Decoder = spec_fn(Seq<u8>, BitCursor, Seq<u8>) -> Block;

/// What the decoder makes of a block depends on the output so far only through its last window:
/// no back-reference reaches further.
pub open spec fn reaches_only_window(decode: Decoder) -> bool {
    forall|input: Seq<u8>, cursor: BitCursor, history: Seq<u8>|
        decode(input, cursor, history) == #[trigger] decode(input, cursor, window_tail(history))
}

/// What a stream comes to when it is decoded to its end.
#[verifier::ext_equal]
pub ghost struct Decoded {
    /// The bytes of input that it takes up.
    pub in_consumed: nat,
    /// The bytes that it decompresses to.
    pub bytes: Seq<u8>,
}

/// What the stream at `cursor` of `input` comes to, with `history` before it, if it consists of
/// exactly `blocks` blocks; `None` if it does not.
pub open spec fn stream(
    decode: Decoder,
    input: Seq<u8>,
    cursor: BitCursor,
    history: Seq<u8>,
    blocks: nat,
) -> Option<Decoded>
    decreases blocks,
{
    if blocks == 0 {
        None
    } else {
        match decode(input, cursor, history) {
            Block::Corrupt => None,
            Block::Last { in_consumed, bytes } => if blocks == 1 {
                Some(Decoded { in_consumed, bytes })
            } else {
                None
            },
            Block::More { in_consumed, bytes, cursor: next } => match stream(
                decode,
                input.skip(in_consumed as int),
                next,
                history + bytes,
                (blocks - 1) as nat,
            ) {
                None => None,
                Some(rest) => Some(
                    Decoded {
                        in_consumed: in_consumed + rest.in_consumed,
                        bytes: bytes + rest.bytes,
                    },
                ),
            },
        }
    }
}

/// The stream at `cursor` of `input`, with `history` before it, decompresses to `decoded`.
pub open spec fn decompresses_to(
    decode: Decoder,
    input: Seq<u8>,
    cursor: BitCursor,
    history: Seq<u8>,
    decoded: Decoded,
) -> bool {
    exists|blocks: nat| #[trigger] stream(decode, input, cursor, history, blocks) == Some(decoded)
}

/// One engine call of a walk: the buffers before and after it, its arguments and its reply.
pub ghost struct WalkStep {
    pub input: Seq<u8>,
    pub before: Seq<u8>,
    pub call: WalkCall,
    pub after: Seq<u8>,
    pub reply: WalkReply,
}

impl WalkStep {
    /// The output that precedes the step.
    pub open spec fn history(self) -> Seq<u8> {
        self.before.take(self.call.out_offset as int)
    }

    /// Where in the buffer the step's output ends.
    pub open spec fn out_end(self) -> int {
        self.call.out_offset + self.reply.out_produced
    }

    /// The bytes that the step produced.
    pub open spec fn produced(self) -> Seq<u8> {
        self.after.subrange(self.call.out_offset as int, self.out_end())
    }

    /// What the step reports: the bytes consumed and the bytes produced.
    pub open spec fn decoded(self) -> Decoded {
        Decoded { in_consumed: self.reply.in_consumed as nat, bytes: self.produced() }
    }

    /// The step was asked to stop at block boundaries.
    pub open spec fn stops(self) -> bool {
        self.call.stop_at_block_end != 0
    }

    /// What the stream at the step comes to is `decoded`.
    pub open spec fn decompresses_to(self, decode: Decoder, decoded: Decoded) -> bool {
        decompresses_to(decode, self.input, self.call.init, self.history(), decoded)
    }

    /// `bytes` fit the buffer behind the output that precedes the step.
    pub open spec fn has_room_for(self, bytes: Seq<u8>) -> bool {
        self.call.out_offset + bytes.len() <= self.after.len()
    }

    /// The engine did what it was asked. It left the output so far alone and wrote behind it what
    /// it decoded: one block if it was told to stop at block boundaries, else the whole stream. It
    /// fails only where that does not decode or does not fit.
    pub open spec fn follows(self, decode: Decoder) -> bool {
        let block = decode(self.input, self.call.init, self.history());
        &&& self.call.out_offset <= self.before.len()
        &&& self.after.len() == self.before.len()
        &&& self.after.take(self.call.out_offset as int) == self.history()
        &&& match self.reply.status {
            Status::BlockEnd => {
                &&& self.stops()
                &&& self.reply.in_consumed <= self.input.len()
                &&& self.out_end() <= self.after.len()
                &&& block == (Block::More {
                    in_consumed: self.reply.in_consumed as nat,
                    bytes: self.produced(),
                    cursor: self.reply.cursor,
                })
            },
            Status::Success => {
                &&& self.reply.in_consumed <= self.input.len()
                &&& self.out_end() <= self.after.len()
                &&& if self.stops() {
                    block == (Block::Last {
                        in_consumed: self.reply.in_consumed as nat,
                        bytes: self.produced(),
                    })
                } else {
                    self.decompresses_to(decode, self.decoded())
                }
            },
            Status::BadData => if self.stops() {
                block is Corrupt
            } else {
                forall|decoded: Decoded| !#[trigger] self.decompresses_to(decode, decoded)
            },
            Status::InsufficientSpace => if self.stops() {
                match block {
                    Block::More { in_consumed, bytes, cursor } => !self.has_room_for(bytes),
                    Block::Last { in_consumed, bytes } => !self.has_room_for(bytes),
                    Block::Corrupt => true,
                }
            } else {
                forall|decoded: Decoded| #[trigger]
                    self.decompresses_to(decode, decoded) ==> !self.has_room_for(decoded.bytes)
            },
            Status::ShortOutput => false,
        }
    }
}

/// `next` is the walk that follows `step` in one session: the same buffer, the write offset moved
/// on by what was produced, the input by what was consumed, and the pending bits that `step` left.
pub open spec fn continues(step: WalkStep, next: WalkStep) -> bool {
    &&& step.reply.status is BlockEnd
    &&& next.input == step.input.skip(step.reply.in_consumed as int)
    &&& next.before == step.after
    &&& next.call.out_offset == step.out_end()
    &&& exists|stop: bool| #[trigger]
        walk_call(pending_after(step.call.init, step.reply), next.call.out_offset, stop)
            == next.call
}

/// Walks of one stream by an engine that follows the decoder, each continuing the one before.
pub open spec fn is_chain(decode: Decoder, steps: Seq<WalkStep>) -> bool {
    &&& steps.len() > 0
    &&& forall|i: int| 0 <= i < steps.len() ==> (#[trigger] steps[i]).follows(decode)
    &&& forall|i: int, j: int|
        0 <= i < steps.len() && j == i + 1 && j < steps.len() ==> continues(
            #[trigger] steps[i],
            #[trigger] steps[j],
        )
}

/// A session: a chain of walks up to the end of the stream.
pub open spec fn is_session(decode: Decoder, steps: Seq<WalkStep>) -> bool {
    is_chain(decode, steps) && steps.last().reply.status is Success
}

/// Where in the input of the first walk the one after `k` walks starts: the sum of what they
/// consumed.
pub open spec fn in_position(steps: Seq<WalkStep>, k: int) -> nat
    decreases k,
{
    if k <= 0 {
        0
    } else {
        in_position(steps, k - 1) + steps[k - 1].reply.in_consumed as nat
    }
}

/// What a chain of walks reports in all: the bytes consumed, and the bytes that stand in the
/// buffer from where the first walk wrote to where the last one stopped.
pub open spec fn chain_decoded(steps: Seq<WalkStep>) -> Decoded {
    Decoded {
        in_consumed: in_position(steps, steps.len() as int),
        bytes: steps.last().after.subrange(
            steps[0].call.out_offset as int,
            steps.last().out_end(),
        ),
    }
}

/// One engine call of a resume: its arguments, the buffer after it and its reply.
pub ghost struct ResumeStep {
    pub input: Seq<u8>,
    pub saved: BitCursor,
    pub dictionary: Seq<u8>,
    pub after: Seq<u8>,
    pub reply: ResumeReply,
}

impl ResumeStep {
    /// Where in the buffer the step's output ends.
    pub open spec fn out_end(self) -> int {
        self.dictionary.len() + self.reply.out_produced
    }

    /// The bytes that the step produced, behind the dictionary.
    pub open spec fn produced(self) -> Seq<u8> {
        self.after.subrange(self.dictionary.len() as int, self.out_end())
    }

    /// What the step reports: the bytes consumed and the bytes produced.
    pub open spec fn decoded(self) -> Decoded {
        Decoded { in_consumed: self.reply.in_consumed as nat, bytes: self.produced() }
    }

    /// What the stream at the step comes to is `decoded`.
    pub open spec fn decompresses_to(self, decode: Decoder, decoded: Decoded) -> bool {
        decompresses_to(decode, self.input, self.saved, self.dictionary, decoded)
    }

    /// `bytes` fit the buffer behind the dictionary.
    pub open spec fn has_room_for(self, bytes: Seq<u8>) -> bool {
        self.dictionary.len() + bytes.len() <= self.after.len()
    }

    /// The engine did what it was asked: on success the buffer starts with the dictionary, and
    /// behind it stands what the stream decompresses to. It fails only where the stream does not
    /// decompress or does not fit behind the dictionary.
    pub open spec fn follows(self, decode: Decoder) -> bool {
        match self.reply.status {
            Status::Success => {
                &&& self.out_end() <= self.after.len()
                &&& self.after.take(self.dictionary.len() as int) == self.dictionary
                &&& self.decompresses_to(decode, self.decoded())
            },
            Status::BadData => forall|decoded: Decoded|
                !#[trigger] self.decompresses_to(decode, decoded),
            Status::InsufficientSpace => forall|decoded: Decoded| #[trigger]
                self.decompresses_to(decode, decoded) ==> !self.has_room_for(decoded.bytes),
            _ => false,
        }
    }
}

} // verus!
