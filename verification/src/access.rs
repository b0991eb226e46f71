//! Index build and random access, stated of the calls that do them.
//!
//! Each law is about an engine that follows a decoder: every call of it that can return is a step
//! that follows (see [`crate::stream`]). What the decoder makes of the input then fixes what the
//! caller gets.

use vstd::prelude::*;

use crate::calls::{law_resume_runs_the_engine, law_walk_runs_the_engine};
use crate::checkpoint::{window_tail, Checkpoint};
use crate::decompressor::{Decompressor, WalkOutcome};
use crate::engine::{BitCursor, ResumeCall, ResumeReply, WalkCall, WalkReply};
use crate::error::{Error, Result};
use crate::laws::{
    law_stream_decodes_one_way, law_window_is_the_last_bytes, law_stream_sees_only_the_window,
};
use crate::stream::{
    decompresses_to, reaches_only_window, stream, Block, Decoded, Decoder, ResumeStep, WalkStep,
};

verus! {

/// A walk in one go: where the stream at the pending bits, with the output before the offset as its
/// history, comes to `whole`, the walk succeeds if and only if the buffer has room for it. The
/// caller then gets the counts of the stream, finds its bytes at the offset and the output before
/// it untouched, and is told that the stream is done; the session is at a byte boundary again.
pub proof fn law_walk_decompresses_the_stream<H, F>(
    decode: Decoder,
    input: &[u8],
    out_offset: usize,
    engine: F,
    whole: Decoded,
) where F: FnOnce(&H, &[u8], &mut [u8], WalkCall) -> WalkReply
    requires
        forall|
            handle: &H,
            bytes: &[u8],
            buffer: &mut [u8],
            call: WalkCall,
            reply: WalkReply,
        | #[trigger]
            call_ensures(engine, (handle, bytes, buffer, call), reply) ==> (WalkStep {
                input: bytes@,
                before: (*buffer)@,
                call,
                after: final(buffer)@,
                reply,
            }).follows(decode),
    ensures
        forall|
            session: &mut Decompressor<H>,
            output: &mut [u8],
            result: Result<WalkOutcome>,
        |
            {
                &&& #[trigger] call_ensures(
                    Decompressor::<H>::decompress_walk::<F>,
                    (session, input, output, out_offset, false, engine),
                    result,
                )
                &&& out_offset <= (*output)@.len()
                &&& decompresses_to(
                    decode,
                    input@,
                    (*session)@,
                    (*output)@.take(out_offset as int),
                    whole,
                )
            } ==> {
                let end = out_offset + whole.bytes.len();
                &&& end <= (*output)@.len() <==> result is Ok
                &&& end > (*output)@.len() ==> result == Err::<WalkOutcome, Error>(
                    Error::InsufficientSpace,
                )
                &&& result matches Ok(outcome) ==> {
                    &&& outcome.in_consumed == whole.in_consumed
                    &&& outcome.out_produced == whole.bytes.len()
                    &&& outcome.done
                    &&& outcome.checkpoint is None
                    &&& final(output)@.len() == (*output)@.len()
                    &&& final(output)@.take(out_offset as int) == (*output)@.take(out_offset as int)
                    &&& final(output)@.subrange(out_offset as int, end) == whole.bytes
                    &&& final(session)@.bitbuf == 0 && final(session)@.bitsleft == 0
                }
            },
{
    law_walk_runs_the_engine::<H, F>(input, out_offset, false, engine);
    assert forall|
        session: &mut Decompressor<H>,
        output: &mut [u8],
        buffer: &mut [u8],
        call: WalkCall,
        reply: WalkReply,
    |
        {
            &&& #[trigger] call_ensures(
                engine,
                (&(*session).handle(), input, buffer, call),
                reply,
            )
            &&& (*buffer)@ == #[trigger] (*output)@
            &&& call.init == (*session)@
            &&& call.out_offset == out_offset
            &&& call.stop_at_block_end == 0
            &&& decompresses_to(
                decode,
                input@,
                (*session)@,
                (*output)@.take(out_offset as int),
                whole,
            )
        } implies {
        let step = WalkStep {
            input: input@,
            before: (*buffer)@,
            call,
            after: final(buffer)@,
            reply,
        };
        &&& step.has_room_for(whole.bytes) ==> reply.status is Success
        &&& !step.has_room_for(whole.bytes) ==> reply.status is InsufficientSpace
        &&& reply.status is Success ==> step.decoded() == whole && step.produced().len()
            == reply.out_produced
    } by {
        let step = WalkStep {
            input: input@,
            before: (*buffer)@,
            call,
            after: final(buffer)@,
            reply,
        };
        assert(step.follows(decode));
        assert(step.decompresses_to(decode, whole));
        if reply.status is Success {
            law_stream_decodes_one_way(
                decode,
                step.input,
                step.call.init,
                step.history(),
                step.decoded(),
                whole,
            );
        }
    }
}

/// Index build: where more blocks follow, a walk that was asked to stop does so at the end of the
/// next block, at every offset, if the buffer has room for the block. The caller gets the counts of
/// the block, finds its bytes at the offset and the output before it untouched, and is handed a
/// checkpoint: the bits at the boundary, and the last 32768 bytes of the output there, or all of
/// them while they are fewer. The session goes on from those bits.
pub proof fn law_walk_stops_at_the_block_end<H, F>(
    decode: Decoder,
    input: &[u8],
    out_offset: usize,
    engine: F,
    in_consumed: nat,
    bytes: Seq<u8>,
    cursor: BitCursor,
) where F: FnOnce(&H, &[u8], &mut [u8], WalkCall) -> WalkReply
    requires
        forall|
            handle: &H,
            rest: &[u8],
            buffer: &mut [u8],
            call: WalkCall,
            reply: WalkReply,
        | #[trigger]
            call_ensures(engine, (handle, rest, buffer, call), reply) ==> (WalkStep {
                input: rest@,
                before: (*buffer)@,
                call,
                after: final(buffer)@,
                reply,
            }).follows(decode),
    ensures
        forall|
            session: &mut Decompressor<H>,
            output: &mut [u8],
            result: Result<WalkOutcome>,
        |
            {
                &&& #[trigger] call_ensures(
                    Decompressor::<H>::decompress_walk::<F>,
                    (session, input, output, out_offset, true, engine),
                    result,
                )
                &&& out_offset <= (*output)@.len()
                &&& decode(input@, (*session)@, (*output)@.take(out_offset as int)) == (
                Block::More { in_consumed, bytes, cursor })
            } ==> {
                let end = out_offset + bytes.len();
                &&& end <= (*output)@.len() <==> result is Ok
                &&& end > (*output)@.len() ==> result == Err::<WalkOutcome, Error>(
                    Error::InsufficientSpace,
                )
                &&& result matches Ok(outcome) ==> {
                    &&& outcome.in_consumed == in_consumed
                    &&& outcome.out_produced == bytes.len()
                    &&& !outcome.done
                    &&& final(output)@.len() == (*output)@.len()
                    &&& final(output)@.take(out_offset as int) == (*output)@.take(out_offset as int)
                    &&& final(output)@.subrange(out_offset as int, end) == bytes
                    &&& final(session)@ == cursor
                    &&& outcome.checkpoint matches Some(checkpoint)
                    &&& checkpoint.bitbuf == cursor.bitbuf
                    &&& checkpoint.bitsleft == cursor.bitsleft
                    &&& checkpoint.window_used == if end < 32768 {
                        end
                    } else {
                        32768
                    }
                    &&& checkpoint.window@.subrange(32768 - checkpoint.window_used, 32768)
                        == final(output)@.subrange(end - checkpoint.window_used, end)
                }
            },
{
    law_walk_runs_the_engine::<H, F>(input, out_offset, true, engine);
    assert forall|
        session: &mut Decompressor<H>,
        output: &mut [u8],
        buffer: &mut [u8],
        call: WalkCall,
        reply: WalkReply,
    |
        {
            &&& #[trigger] call_ensures(
                engine,
                (&(*session).handle(), input, buffer, call),
                reply,
            )
            &&& (*buffer)@ == #[trigger] (*output)@
            &&& call.init == (*session)@
            &&& call.out_offset == out_offset
            &&& call.stop_at_block_end != 0
            &&& decode(input@, (*session)@, (*output)@.take(out_offset as int)) == (Block::More {
                in_consumed,
                bytes,
                cursor,
            })
        } implies {
        let step = WalkStep {
            input: input@,
            before: (*buffer)@,
            call,
            after: final(buffer)@,
            reply,
        };
        &&& step.has_room_for(bytes) ==> reply.status is BlockEnd
        &&& !step.has_room_for(bytes) ==> reply.status is InsufficientSpace
        &&& reply.status is BlockEnd ==> step.produced() == bytes && step.produced().len()
            == reply.out_produced
    } by {
        let step = WalkStep {
            input: input@,
            before: (*buffer)@,
            call,
            after: final(buffer)@,
            reply,
        };
        assert(step.follows(decode));
    }
    assert forall|window: Seq<u8>, output: Seq<u8>, used: int, end: int|
        {
            &&& 0 <= used <= 32768 == window.len()
            &&& used <= end <= output.len()
            &&& forall|i: int|
                0 <= i < used ==> #[trigger] window[32768 - used + i] == output[end - used + i]
        } implies #[trigger] window.subrange(32768 - used, 32768) == #[trigger] output.subrange(
        end - used,
        end,
    ) by {
        assert forall|i: int| 0 <= i < used implies #[trigger] window.subrange(
            32768 - used,
            32768,
        )[i] == output.subrange(end - used, end)[i] by {
            assert(window[32768 - used + i] == output[end - used + i]);
        }
        assert(window.subrange(32768 - used, 32768) =~= output.subrange(end - used, end));
    }
}

/// Random access: let a checkpoint hold, at the end of its window, the last 32768 bytes of a
/// history, or all of it while it is shorter. Where the stream at the checkpoint's bits, with that
/// history before it, comes to `rest`, a resume succeeds if and only if the buffer has room for the
/// window and for `rest`, however large it is. The caller then gets the counts of `rest`, and finds
/// its bytes behind a copy of the window.
pub proof fn law_resume_decompresses_the_rest<H, F>(
    decode: Decoder,
    input: &[u8],
    checkpoint: &Checkpoint,
    engine: F,
    history: Seq<u8>,
    rest: Decoded,
) where F: FnOnce(&H, &[u8], &mut [u8], ResumeCall<'_>) -> ResumeReply
    requires
        reaches_only_window(decode),
        forall|
            handle: &H,
            bytes: &[u8],
            buffer: &mut [u8],
            call: ResumeCall,
            reply: ResumeReply,
        | #[trigger]
            call_ensures(engine, (handle, bytes, buffer, call), reply) ==> {
                &&& final(buffer)@.len() == (*buffer)@.len()
                &&& (ResumeStep {
                    input: bytes@,
                    saved: call.saved,
                    dictionary: call.dictionary@,
                    after: final(buffer)@,
                    reply,
                }).follows(decode)
            },
        checkpoint.window_used == if history.len() < 32768 {
            history.len() as int
        } else {
            32768
        },
        checkpoint.window@.subrange(32768 - checkpoint.window_used, 32768) == history.subrange(
            history.len() - checkpoint.window_used,
            history.len() as int,
        ),
        decompresses_to(
            decode,
            input@,
            (BitCursor { bitbuf: checkpoint.bitbuf, bitsleft: checkpoint.bitsleft }),
            history,
            rest,
        ),
    ensures
        forall|
            session: &mut Decompressor<H>,
            output: &mut [u8],
            result: Result<(usize, usize)>,
        | #[trigger]
            call_ensures(
                Decompressor::<H>::decompress_resume::<F>,
                (session, input, output, checkpoint, engine),
                result,
            ) ==> {
                let used = checkpoint.window_used as int;
                let end = used + rest.bytes.len();
                &&& end <= (*output)@.len() <==> result is Ok
                &&& end > (*output)@.len() ==> result == Err::<(usize, usize), Error>(
                    Error::InsufficientSpace,
                )
                &&& result matches Ok(counts) ==> {
                    &&& counts.0 == rest.in_consumed
                    &&& counts.1 == rest.bytes.len()
                    &&& final(output)@.len() == (*output)@.len()
                    &&& final(output)@.take(used) == checkpoint.window@.subrange(
                        32768 - used,
                        32768,
                    )
                    &&& final(output)@.subrange(used, end) == rest.bytes
                    &&& final(session)@.bitbuf == 0 && final(session)@.bitsleft == 0
                }
            },
{
    law_resume_runs_the_engine::<H, F>(input, checkpoint, engine);
    let cursor = BitCursor { bitbuf: checkpoint.bitbuf, bitsleft: checkpoint.bitsleft };
    let used = checkpoint.window_used as int;
    let dictionary = checkpoint.window@.subrange(32768 - used, 32768);
    law_window_is_the_last_bytes(history);
    law_window_is_the_last_bytes(dictionary);
    assert(dictionary == window_tail(history)) by {
        assert(history.subrange(0, history.len() as int) =~= history);
    }
    let blocks = choose|blocks: nat| #[trigger]
        stream(decode, input@, cursor, history, blocks) == Some(rest);
    law_stream_sees_only_the_window(decode, input@, cursor, history, dictionary, blocks);
    assert forall|
        session: &mut Decompressor<H>,
        buffer: &mut [u8],
        call: ResumeCall,
        reply: ResumeReply,
    |
        {
            &&& #[trigger] call_ensures(
                engine,
                (&(*session).handle(), input, buffer, call),
                reply,
            )
            &&& call.saved == cursor
            &&& call.dictionary@ == dictionary
        } implies {
        let step = ResumeStep {
            input: input@,
            saved: cursor,
            dictionary,
            after: final(buffer)@,
            reply,
        };
        &&& final(buffer)@.len() == (*buffer)@.len()
        &&& step.has_room_for(rest.bytes) ==> reply.status is Success
        &&& !step.has_room_for(rest.bytes) ==> reply.status is InsufficientSpace
        &&& reply.status is Success ==> step.follows(decode) && step.decoded() == rest
            && step.produced().len() == reply.out_produced
    } by {
        let step = ResumeStep {
            input: input@,
            saved: cursor,
            dictionary,
            after: final(buffer)@,
            reply,
        };
        assert(step.follows(decode));
        assert(step.decompresses_to(decode, rest));
        if reply.status is Success {
            law_stream_decodes_one_way(
                decode,
                step.input,
                step.saved,
                step.dictionary,
                step.decoded(),
                rest,
            );
        }
    }
}

/// The two together: let a walk that was asked to stop hand out a checkpoint, in a stream that
/// comes to `whole`. Resuming from it, in any session, on the input that the walk left, succeeds if
/// and only if the buffer has room for the window and for what the walk left of `whole`. The caller
/// then finds exactly those bytes behind the window, and the walk and the resume have consumed
/// together what the stream takes up.
pub proof fn law_checkpoint_gives_access<H, F, G>(
    decode: Decoder,
    input: &[u8],
    out_offset: usize,
    engine: F,
    whole: Decoded,
    checkpoint: &Checkpoint,
    rest_input: &[u8],
    reader: G,
) where
    F: FnOnce(&H, &[u8], &mut [u8], WalkCall) -> WalkReply,
    G: FnOnce(&H, &[u8], &mut [u8], ResumeCall<'_>) -> ResumeReply,

    requires
        reaches_only_window(decode),
        forall|
            handle: &H,
            bytes: &[u8],
            buffer: &mut [u8],
            call: WalkCall,
            reply: WalkReply,
        | #[trigger]
            call_ensures(engine, (handle, bytes, buffer, call), reply) ==> (WalkStep {
                input: bytes@,
                before: (*buffer)@,
                call,
                after: final(buffer)@,
                reply,
            }).follows(decode),
        forall|
            handle: &H,
            bytes: &[u8],
            buffer: &mut [u8],
            call: ResumeCall,
            reply: ResumeReply,
        | #[trigger]
            call_ensures(reader, (handle, bytes, buffer, call), reply) ==> {
                &&& final(buffer)@.len() == (*buffer)@.len()
                &&& (ResumeStep {
                    input: bytes@,
                    saved: call.saved,
                    dictionary: call.dictionary@,
                    after: final(buffer)@,
                    reply,
                }).follows(decode)
            },
    ensures
        forall|
            session: &mut Decompressor<H>,
            output: &mut [u8],
            outcome: WalkOutcome,
            reading: &mut Decompressor<H>,
            target: &mut [u8],
            result: Result<(usize, usize)>,
        |
            {
                &&& #[trigger] call_ensures(
                    Decompressor::<H>::decompress_walk::<F>,
                    (session, input, output, out_offset, true, engine),
                    Ok(outcome),
                )
                &&& out_offset <= (*output)@.len()
                &&& decompresses_to(
                    decode,
                    input@,
                    (*session)@,
                    (*output)@.take(out_offset as int),
                    whole,
                )
                &&& outcome.checkpoint == Some(*checkpoint)
                &&& rest_input@ == input@.skip(outcome.in_consumed as int)
                &&& #[trigger] call_ensures(
                    Decompressor::<H>::decompress_resume::<G>,
                    (reading, rest_input, target, checkpoint, reader),
                    result,
                )
            } ==> {
                let used = checkpoint.window_used as int;
                let end = used + (whole.bytes.len() - outcome.out_produced);
                &&& outcome.out_produced <= whole.bytes.len()
                &&& end <= (*target)@.len() <==> result is Ok
                &&& end > (*target)@.len() ==> result == Err::<(usize, usize), Error>(
                    Error::InsufficientSpace,
                )
                &&& result matches Ok(counts) ==> {
                    &&& outcome.in_consumed + counts.0 == whole.in_consumed
                    &&& outcome.out_produced + counts.1 == whole.bytes.len()
                    &&& final(target)@.subrange(used, end) == whole.bytes.skip(
                        outcome.out_produced as int,
                    )
                }
            },
{
    assert forall|
        session: &mut Decompressor<H>,
        output: &mut [u8],
        outcome: WalkOutcome,
        reading: &mut Decompressor<H>,
        target: &mut [u8],
        result: Result<(usize, usize)>,
    |
        {
            &&& #[trigger] call_ensures(
                Decompressor::<H>::decompress_walk::<F>,
                (session, input, output, out_offset, true, engine),
                Ok(outcome),
            )
            &&& out_offset <= (*output)@.len()
            &&& decompresses_to(
                decode,
                input@,
                (*session)@,
                (*output)@.take(out_offset as int),
                whole,
            )
            &&& outcome.checkpoint == Some(*checkpoint)
            &&& rest_input@ == input@.skip(outcome.in_consumed as int)
            &&& #[trigger] call_ensures(
                Decompressor::<H>::decompress_resume::<G>,
                (reading, rest_input, target, checkpoint, reader),
                result,
            )
        } implies {
        let used = checkpoint.window_used as int;
        let end = used + (whole.bytes.len() - outcome.out_produced);
        &&& outcome.out_produced <= whole.bytes.len()
        &&& end <= (*target)@.len() <==> result is Ok
        &&& end > (*target)@.len() ==> result == Err::<(usize, usize), Error>(
            Error::InsufficientSpace,
        )
        &&& result matches Ok(counts) ==> {
            &&& outcome.in_consumed + counts.0 == whole.in_consumed
            &&& outcome.out_produced + counts.1 == whole.bytes.len()
            &&& final(target)@.subrange(used, end) == whole.bytes.skip(outcome.out_produced as int)
        }
    } by {
        let history = (*output)@.take(out_offset as int);
        let blocks = choose|blocks: nat| #[trigger]
            stream(decode, input@, (*session)@, history, blocks) == Some(whole);
        law_walk_runs_the_engine::<H, F>(input, out_offset, true, engine);
        if let Block::More { in_consumed, bytes, cursor } = decode(input@, (*session)@, history) {
            law_walk_stops_at_the_block_end::<H, F>(
                decode,
                input,
                out_offset,
                engine,
                in_consumed,
                bytes,
                cursor,
            );
            let rest = stream(
                decode,
                input@.skip(in_consumed as int),
                cursor,
                history + bytes,
                (blocks - 1) as nat,
            )->Some_0;
            let end = out_offset + bytes.len();
            assert(whole.bytes.skip(bytes.len() as int) =~= rest.bytes);
            assert(final(output)@.take(end) =~= history + bytes) by {
                assert(final(output)@.take(end).take(out_offset as int) =~= history);
            }
            assert(final(output)@.subrange(end - checkpoint.window_used, end) =~= (history
                + bytes).subrange(end - checkpoint.window_used, end));
            law_resume_decompresses_the_rest::<H, G>(
                decode,
                rest_input,
                checkpoint,
                reader,
                history + bytes,
                rest,
            );
        }
    }
}

/// The end of an index build: a walk that was asked to stop and meets the final block runs to the
/// end of the stream, if the buffer has room for the block, and says so.
pub proof fn law_walk_ends_with_the_final_block<H, F>(
    decode: Decoder,
    input: &[u8],
    out_offset: usize,
    engine: F,
    in_consumed: nat,
    bytes: Seq<u8>,
) where F: FnOnce(&H, &[u8], &mut [u8], WalkCall) -> WalkReply
    requires
        forall|
            handle: &H,
            rest: &[u8],
            buffer: &mut [u8],
            call: WalkCall,
            reply: WalkReply,
        | #[trigger]
            call_ensures(engine, (handle, rest, buffer, call), reply) ==> (WalkStep {
                input: rest@,
                before: (*buffer)@,
                call,
                after: final(buffer)@,
                reply,
            }).follows(decode),
    ensures
        forall|
            session: &mut Decompressor<H>,
            output: &mut [u8],
            result: Result<WalkOutcome>,
        |
            {
                &&& #[trigger] call_ensures(
                    Decompressor::<H>::decompress_walk::<F>,
                    (session, input, output, out_offset, true, engine),
                    result,
                )
                &&& out_offset <= (*output)@.len()
                &&& decode(input@, (*session)@, (*output)@.take(out_offset as int)) == (
                Block::Last { in_consumed, bytes })
            } ==> {
                let end = out_offset + bytes.len();
                &&& end <= (*output)@.len() <==> result is Ok
                &&& end > (*output)@.len() ==> result == Err::<WalkOutcome, Error>(
                    Error::InsufficientSpace,
                )
                &&& result matches Ok(outcome) ==> {
                    &&& outcome.in_consumed == in_consumed
                    &&& outcome.out_produced == bytes.len()
                    &&& outcome.done
                    &&& outcome.checkpoint is None
                    &&& final(output)@.take(out_offset as int) == (*output)@.take(out_offset as int)
                    &&& final(output)@.subrange(out_offset as int, end) == bytes
                    &&& final(session)@.bitbuf == 0 && final(session)@.bitsleft == 0
                }
            },
{
    law_walk_runs_the_engine::<H, F>(input, out_offset, true, engine);
    assert forall|handle: &H, buffer: &mut [u8], call: WalkCall, reply: WalkReply|
        {
            &&& #[trigger] call_ensures(engine, (handle, input, buffer, call), reply)
            &&& reply.status is Success
            &&& call.stop_at_block_end != 0
        } implies final(buffer)@.subrange(
        call.out_offset as int,
        call.out_offset + reply.out_produced,
    ).len() == reply.out_produced by {
        assert((WalkStep {
            input: input@,
            before: (*buffer)@,
            call,
            after: final(buffer)@,
            reply,
        }).follows(decode));
    }
}

} // verus!
