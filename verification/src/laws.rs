//! What holds of the library across calls.
//!
//! The laws on whole streams speak of an engine that follows a decoder (see [`crate::stream`]).
//! That an engine does so is a hypothesis of theirs; nothing here proves it of a given engine.

use vstd::arithmetic::power2::lemma_pow2_pos;
use vstd::prelude::*;

use crate::checkpoint::{window_tail, Checkpoint, WINDOW_SIZE};
use crate::decompressor::{
    hands_over, pending_after, resume_returns, walk_call, walk_returns, WalkOutcome,
};
use crate::engine::{BitCursor, ResumeCall, ResumeReply, WalkCall, WalkReply};
use crate::error::{Error, Result};
use crate::stream::{
    chain_decoded, continues, decompresses_to, in_position, is_chain, is_session,
    reaches_only_window, stream, Block, Decoded, Decoder, ResumeStep, WalkStep,
};

verus! {

/// The window holds the last 32768 bytes of the history, in order, or all of it while it is
/// shorter.
pub proof fn law_window_is_the_last_bytes(history: Seq<u8>)
    ensures
        history.len() <= 32768 ==> window_tail(history) == history,
        history.len() > 32768 ==> window_tail(history) == history.subrange(
            history.len() - 32768,
            history.len() as int,
        ),
{
}

/// Cutting the history down to the window before more is appended loses nothing that is still
/// in the window afterwards.
pub proof fn law_window_slides(history: Seq<u8>, more: Seq<u8>)
    ensures
        window_tail(window_tail(history) + more) == window_tail(history + more),
{
}

/// Streams whose histories end in the same window decompress alike.
pub proof fn law_stream_sees_only_the_window(
    decode: Decoder,
    input: Seq<u8>,
    cursor: BitCursor,
    first: Seq<u8>,
    second: Seq<u8>,
    blocks: nat,
)
    requires
        reaches_only_window(decode),
        window_tail(first) == window_tail(second),
    ensures
        stream(decode, input, cursor, first, blocks) == stream(
            decode,
            input,
            cursor,
            second,
            blocks,
        ),
    decreases blocks,
{
    if blocks > 0 {
        assert(decode(input, cursor, first) == decode(input, cursor, window_tail(first)));
        assert(decode(input, cursor, second) == decode(input, cursor, window_tail(second)));
        if let Block::More { in_consumed, bytes, cursor: next } = decode(input, cursor, first) {
            law_window_slides(first, bytes);
            law_window_slides(second, bytes);
            law_stream_sees_only_the_window(
                decode,
                input.skip(in_consumed as int),
                next,
                first + bytes,
                second + bytes,
                (blocks - 1) as nat,
            );
        }
    }
}

/// A stream has one number of blocks.
proof fn lemma_stream_blocks_unique(
    decode: Decoder,
    input: Seq<u8>,
    cursor: BitCursor,
    history: Seq<u8>,
    m: nat,
    n: nat,
)
    requires
        stream(decode, input, cursor, history, m) is Some,
        stream(decode, input, cursor, history, n) is Some,
    ensures
        m == n,
    decreases m,
{
    if let Block::More { in_consumed, bytes, cursor: next } = decode(input, cursor, history) {
        lemma_stream_blocks_unique(
            decode,
            input.skip(in_consumed as int),
            next,
            history + bytes,
            (m - 1) as nat,
            (n - 1) as nat,
        );
    }
}

/// A stream decompresses to one thing only: the same bytes, out of the same amount of input.
pub proof fn law_stream_decodes_one_way(
    decode: Decoder,
    input: Seq<u8>,
    cursor: BitCursor,
    history: Seq<u8>,
    first: Decoded,
    second: Decoded,
)
    requires
        decompresses_to(decode, input, cursor, history, first),
        decompresses_to(decode, input, cursor, history, second),
    ensures
        first == second,
{
    let m = choose|blocks: nat| #[trigger]
        stream(decode, input, cursor, history, blocks) == Some(first);
    let n = choose|blocks: nat| #[trigger]
        stream(decode, input, cursor, history, blocks) == Some(second);
    lemma_stream_blocks_unique(decode, input, cursor, history, m, n);
}

/// A walk that stopped at a block boundary took the first block off the stream: what is left
/// there is the rest of what the stream comes to.
proof fn lemma_block_taken(decode: Decoder, step: WalkStep, blocks: nat, whole: Decoded)
    requires
        step.follows(decode),
        step.reply.status is BlockEnd,
        stream(decode, step.input, step.call.init, step.history(), blocks) == Some(whole),
    ensures
        blocks >= 2,
        step.reply.in_consumed <= whole.in_consumed,
        step.reply.out_produced <= whole.bytes.len(),
        step.produced() == whole.bytes.take(step.reply.out_produced as int),
        step.after.take(step.out_end()) == step.history() + step.produced(),
        stream(
            decode,
            step.input.skip(step.reply.in_consumed as int),
            step.reply.cursor,
            step.after.take(step.out_end()),
            (blocks - 1) as nat,
        ) == Some(
            (Decoded {
                in_consumed: (whole.in_consumed - step.reply.in_consumed) as nat,
                bytes: whole.bytes.skip(step.reply.out_produced as int),
            }),
        ),
{
    let off = step.call.out_offset as int;
    assert(step.after.take(step.out_end()) =~= step.after.take(off) + step.produced());
}

/// Where the walks of a chain stand, given what the stream at its start comes to: the input is at
/// the sum of what was consumed, the buffer holds what was produced, and what is left of the
/// stream is what has not been produced yet.
proof fn lemma_chain_at(
    decode: Decoder,
    steps: Seq<WalkStep>,
    i: int,
    blocks: nat,
    whole: Decoded,
)
    requires
        is_chain(decode, steps),
        0 <= i < steps.len(),
        stream(decode, steps[0].input, steps[0].call.init, steps[0].history(), blocks) == Some(
            whole,
        ),
    ensures
        i < blocks,
        steps[0].call.out_offset <= steps[i].call.out_offset <= steps[0].call.out_offset
            + whole.bytes.len(),
        in_position(steps, i) <= whole.in_consumed,
        in_position(steps, i) <= steps[0].input.len(),
        steps[i].input == steps[0].input.skip(in_position(steps, i) as int),
        steps[i].after.len() == steps[0].after.len(),
        steps[i].history() == steps[0].history() + whole.bytes.take(
            steps[i].call.out_offset - steps[0].call.out_offset,
        ),
        stream(
            decode,
            steps[i].input,
            steps[i].call.init,
            steps[i].history(),
            (blocks - i) as nat,
        ) == Some(
            (Decoded {
                in_consumed: (whole.in_consumed - in_position(steps, i)) as nat,
                bytes: whole.bytes.skip(steps[i].call.out_offset - steps[0].call.out_offset),
            }),
        ),
    decreases i,
{
    let base = steps[0].call.out_offset as int;
    if i > 0 {
        let prev = steps[i - 1];
        let step = steps[i];
        assert(continues(prev, step));
        lemma_chain_at(decode, steps, i - 1, blocks, whole);
        let done = prev.call.out_offset - base;
        let left = Decoded {
            in_consumed: (whole.in_consumed - in_position(steps, i - 1)) as nat,
            bytes: whole.bytes.skip(done),
        };
        lemma_block_taken(decode, prev, (blocks - (i - 1)) as nat, left);
        let produced = prev.reply.out_produced as int;
        assert(whole.bytes.take(done) + left.bytes.take(produced) =~= whole.bytes.take(
            done + produced,
        ));
        assert(step.history() =~= steps[0].history() + whole.bytes.take(done + produced));
    }
}

/// A walk of a stream that decompresses and fits does not fail. Unless it was asked to stop and
/// more blocks follow, it reaches the end and reports the whole stream.
pub proof fn law_walk_succeeds(decode: Decoder, step: WalkStep, blocks: nat, whole: Decoded)
    requires
        step.follows(decode),
        stream(decode, step.input, step.call.init, step.history(), blocks) == Some(whole),
        step.has_room_for(whole.bytes),
    ensures
        step.stops() && blocks > 1 ==> step.reply.status is BlockEnd,
        !step.stops() || blocks == 1 ==> step.reply.status is Success && step.decoded() == whole,
{
    reveal_with_fuel(stream, 2);
    assert(step.decompresses_to(decode, whole));
    if !step.stops() && step.reply.status is Success {
        law_stream_decodes_one_way(
            decode,
            step.input,
            step.call.init,
            step.history(),
            step.decoded(),
            whole,
        );
    }
}

/// Which error a walk without stops returns: none where the stream decompresses and fits,
/// [`Error::InsufficientSpace`] where it decompresses and does not fit. Where it does not
/// decompress, the walk fails with [`Error::BadData`], or with [`Error::InsufficientSpace`] if the
/// buffer was full before the damage was met.
pub proof fn law_walk_errors(decode: Decoder, step: WalkStep, result: Result<WalkOutcome>)
    requires
        step.follows(decode),
        !step.stops(),
        walk_returns(step.after, step.call.out_offset, step.reply, result),
    ensures
        forall|whole: Decoded| #[trigger]
            step.decompresses_to(decode, whole) ==> if step.has_room_for(whole.bytes) {
                result is Ok
            } else {
                result == Err::<WalkOutcome, Error>(Error::InsufficientSpace)
            },
        (forall|whole: Decoded| !#[trigger] step.decompresses_to(decode, whole)) ==> {
            ||| result == Err::<WalkOutcome, Error>(Error::BadData)
            ||| result == Err::<WalkOutcome, Error>(Error::InsufficientSpace)
        },
{
    assert forall|whole: Decoded| #[trigger] step.decompresses_to(decode, whole) implies if step
        .has_room_for(whole.bytes) {
        result is Ok
    } else {
        result == Err::<WalkOutcome, Error>(Error::InsufficientSpace)
    } by {
        if step.reply.status is Success {
            law_stream_decodes_one_way(
                decode,
                step.input,
                step.call.init,
                step.history(),
                step.decoded(),
                whole,
            );
        }
    }
}

/// Which error a walk with stops returns: none where the next block decodes and fits,
/// [`Error::InsufficientSpace`] where it decodes and does not fit. Where it is corrupt, the walk
/// fails with [`Error::BadData`], or with [`Error::InsufficientSpace`] if the buffer was full
/// before the damage was met.
pub proof fn law_block_walk_errors(decode: Decoder, step: WalkStep, result: Result<WalkOutcome>)
    requires
        step.follows(decode),
        step.stops(),
        walk_returns(step.after, step.call.out_offset, step.reply, result),
    ensures
        match decode(step.input, step.call.init, step.history()) {
            Block::More { in_consumed, bytes, cursor } => if step.has_room_for(bytes) {
                result matches Ok(outcome) && !outcome.done
            } else {
                result == Err::<WalkOutcome, Error>(Error::InsufficientSpace)
            },
            Block::Last { in_consumed, bytes } => if step.has_room_for(bytes) {
                result matches Ok(outcome) && outcome.done
            } else {
                result == Err::<WalkOutcome, Error>(Error::InsufficientSpace)
            },
            Block::Corrupt => {
                ||| result == Err::<WalkOutcome, Error>(Error::BadData)
                ||| result == Err::<WalkOutcome, Error>(Error::InsufficientSpace)
            },
        },
{
}

/// Which error a resume returns once the engine was called: none where the stream decompresses and
/// fits behind the dictionary, [`Error::InsufficientSpace`] where it decompresses and does not fit.
/// Where it does not decompress, the resume fails with [`Error::BadData`], or with
/// [`Error::InsufficientSpace`] if the buffer was full before the damage was met.
pub proof fn law_resume_errors(
    decode: Decoder,
    resumed: ResumeStep,
    result: Result<(usize, usize)>,
)
    requires
        resumed.follows(decode),
        resume_returns(resumed.reply, result),
    ensures
        forall|whole: Decoded| #[trigger]
            resumed.decompresses_to(decode, whole) ==> if resumed.has_room_for(whole.bytes) {
                result is Ok
            } else {
                result == Err::<(usize, usize), Error>(Error::InsufficientSpace)
            },
        (forall|whole: Decoded| !#[trigger] resumed.decompresses_to(decode, whole)) ==> {
            ||| result == Err::<(usize, usize), Error>(Error::BadData)
            ||| result == Err::<(usize, usize), Error>(Error::InsufficientSpace)
        },
{
    assert forall|whole: Decoded| #[trigger] resumed.decompresses_to(decode, whole) implies if
        resumed.has_room_for(whole.bytes) {
        result is Ok
    } else {
        result == Err::<(usize, usize), Error>(Error::InsufficientSpace)
    } by {
        if resumed.reply.status is Success {
            law_stream_decodes_one_way(
                decode,
                resumed.input,
                resumed.saved,
                resumed.dictionary,
                resumed.decoded(),
                whole,
            );
        }
    }
}

/// Walking a stream of `blocks` blocks that decompresses and fits, with a stop at every block
/// boundary, never fails: the walk of each non-final block stops at its end, the walk of the final
/// block reaches the end of the stream, and there are no more walks than blocks.
pub proof fn law_walks_succeed(
    decode: Decoder,
    steps: Seq<WalkStep>,
    blocks: nat,
    whole: Decoded,
)
    requires
        is_chain(decode, steps),
        forall|i: int| 0 <= i < steps.len() ==> (#[trigger] steps[i]).stops(),
        stream(decode, steps[0].input, steps[0].call.init, steps[0].history(), blocks) == Some(
            whole,
        ),
        steps[0].has_room_for(whole.bytes),
    ensures
        steps.len() <= blocks,
        forall|i: int|
            0 <= i < steps.len() ==> if i < blocks - 1 {
                (#[trigger] steps[i]).reply.status is BlockEnd
            } else {
                steps[i].reply.status is Success
            },
{
    lemma_chain_at(decode, steps, steps.len() - 1, blocks, whole);
    assert forall|i: int| 0 <= i < steps.len() implies if i < blocks - 1 {
        (#[trigger] steps[i]).reply.status is BlockEnd
    } else {
        steps[i].reply.status is Success
    } by {
        lemma_chain_at(decode, steps, i, blocks, whole);
        let left = Decoded {
            in_consumed: (whole.in_consumed - in_position(steps, i)) as nat,
            bytes: whole.bytes.skip(steps[i].call.out_offset - steps[0].call.out_offset),
        };
        law_walk_succeeds(decode, steps[i], (blocks - i) as nat, left);
    }
}

/// What a walk of a session has put into the buffer is still there at the session's end, and what
/// is left of the stream from that walk on is what the walks from it on report.
proof fn lemma_session_from(decode: Decoder, steps: Seq<WalkStep>, i: int)
    requires
        is_session(decode, steps),
        0 <= i < steps.len(),
    ensures
        steps[i].out_end() <= steps.last().out_end() <= steps.last().after.len(),
        steps[i].after.len() == steps.last().after.len(),
        steps.last().after.take(steps[i].out_end()) == steps[i].after.take(steps[i].out_end()),
        in_position(steps, i) <= in_position(steps, steps.len() as int),
        steps[i].decompresses_to(
            decode,
            (Decoded {
                in_consumed: (in_position(steps, steps.len() as int) - in_position(steps, i)) as nat,
                bytes: steps.last().after.subrange(
                    steps[i].call.out_offset as int,
                    steps.last().out_end(),
                ),
            }),
        ),
    decreases steps.len() - i,
{
    let step = steps[i];
    let last = steps.last();
    let total = in_position(steps, steps.len() as int);
    let off = step.call.out_offset as int;
    let end = last.out_end();
    if i == steps.len() - 1 {
        if step.stops() {
            assert(stream(decode, step.input, step.call.init, step.history(), 1) == Some(
                step.decoded(),
            ));
        }
    } else {
        let next = steps[i + 1];
        assert(continues(step, next));
        lemma_session_from(decode, steps, i + 1);
        let mid = step.out_end();
        assert(in_position(steps, i + 1) == in_position(steps, i) + step.reply.in_consumed as nat);
        assert(last.after.take(mid) =~= step.after.take(mid));
        assert(next.history() =~= step.history() + step.produced());
        let rest = Decoded {
            in_consumed: (total - in_position(steps, i + 1)) as nat,
            bytes: last.after.subrange(mid, end),
        };
        let blocks = choose|blocks: nat| #[trigger]
            stream(decode, next.input, next.call.init, next.history(), blocks) == Some(rest);
        assert(last.after.subrange(off, end) =~= step.produced() + rest.bytes) by {
            assert(step.produced() =~= last.after.take(mid).subrange(off, mid));
        }
        assert(stream(decode, step.input, step.call.init, step.history(), blocks + 1) == Some(
            (Decoded {
                in_consumed: (total - in_position(steps, i)) as nat,
                bytes: last.after.subrange(off, end),
            }),
        ));
    }
}

/// Walking a stream block by block into one growing buffer decompresses it as a whole: the session
/// consumes what the stream at its start takes up, and at its end the buffer holds, from where the
/// first walk wrote, exactly what that stream decompresses to.
pub proof fn law_walks_form_one_stream(decode: Decoder, steps: Seq<WalkStep>)
    requires
        is_session(decode, steps),
    ensures
        steps[0].decompresses_to(decode, chain_decoded(steps)),
{
    lemma_session_from(decode, steps, 0);
}

/// Two sessions of one stream agree, wherever each of them stopped: they consume the same amount
/// of input and leave the same bytes.
pub proof fn law_sessions_agree(decode: Decoder, first: Seq<WalkStep>, second: Seq<WalkStep>)
    requires
        is_session(decode, first),
        is_session(decode, second),
        first[0].input == second[0].input,
        first[0].call.init == second[0].call.init,
        first[0].history() == second[0].history(),
    ensures
        chain_decoded(first) == chain_decoded(second),
{
    law_walks_form_one_stream(decode, first);
    law_walks_form_one_stream(decode, second);
    law_stream_decodes_one_way(
        decode,
        first[0].input,
        first[0].call.init,
        first[0].history(),
        chain_decoded(first),
        chain_decoded(second),
    );
}

/// Walking block by block until done and walking in one go decode a stream alike. Given a stream
/// of `blocks` blocks and buffers with room for it, every call returns an outcome; the walks with
/// stops are as many as the blocks, with one checkpoint for each block but the final one; and both
/// ways consume the same amount of input and leave the same bytes.
pub proof fn law_walks_decode_alike(
    decode: Decoder,
    steps: Seq<WalkStep>,
    results: Seq<Result<WalkOutcome>>,
    single: WalkStep,
    result: Result<WalkOutcome>,
    blocks: nat,
    whole: Decoded,
)
    requires
        is_chain(decode, steps),
        forall|i: int| 0 <= i < steps.len() ==> (#[trigger] steps[i]).stops(),
        steps.last().reply.status !is BlockEnd,
        results.len() == steps.len(),
        forall|i: int|
            #![trigger results[i]]
            0 <= i < steps.len() ==> walk_returns(
                steps[i].after,
                steps[i].call.out_offset,
                steps[i].reply,
                results[i],
            ),
        single.follows(decode),
        !single.stops(),
        walk_returns(single.after, single.call.out_offset, single.reply, result),
        single.input == steps[0].input,
        single.call.init == steps[0].call.init,
        single.history() == steps[0].history(),
        stream(decode, single.input, single.call.init, single.history(), blocks) == Some(whole),
        steps[0].has_room_for(whole.bytes),
        single.has_room_for(whole.bytes),
    ensures
        steps.len() == blocks,
        forall|i: int|
            0 <= i < results.len() ==> {
                &&& #[trigger] results[i] matches Ok(outcome)
                &&& outcome.done <==> i == blocks - 1
                &&& outcome.checkpoint is Some <==> i < blocks - 1
            },
        result matches Ok(outcome) && outcome.done,
        single.decoded() == whole,
        chain_decoded(steps) == whole,
{
    law_walks_succeed(decode, steps, blocks, whole);
    law_walk_succeeds(decode, single, blocks, whole);
    law_walks_form_one_stream(decode, steps);
    law_stream_decodes_one_way(
        decode,
        single.input,
        single.call.init,
        single.history(),
        chain_decoded(steps),
        whole,
    );
}

/// A checkpoint holds where the next walk of the session would start: its bits are the pending
/// bits that the walk left behind, and its dictionary is the last window of the output so far. It
/// is never refused for the size of its window.
pub proof fn law_checkpoint_is_session_state(
    pending: BitCursor,
    output: Seq<u8>,
    out_offset: usize,
    reply: WalkReply,
    outcome: WalkOutcome,
    checkpoint: Checkpoint,
)
    requires
        walk_returns(output, out_offset, reply, Ok(outcome)),
        outcome.checkpoint == Some(checkpoint),
    ensures
        checkpoint.cursor() == pending_after(pending, reply),
        checkpoint.dictionary() == window_tail(output.take(out_offset + reply.out_produced)),
        checkpoint.window_used <= WINDOW_SIZE,
{
}

/// Random access from one checkpoint: where the stream at the checkpoint, with the whole output so
/// far before it, comes to `rest`, a resume succeeds if and only if the buffer has room for the
/// dictionary and `rest`. It then consumes what `rest` takes up and produces exactly its bytes,
/// behind a copy of the dictionary.
pub proof fn law_resume_produces_rest(
    decode: Decoder,
    step: WalkStep,
    outcome: WalkOutcome,
    checkpoint: Checkpoint,
    call: ResumeCall,
    resumed: ResumeStep,
    result: Result<(usize, usize)>,
    rest: Decoded,
)
    requires
        reaches_only_window(decode),
        step.follows(decode),
        walk_returns(step.after, step.call.out_offset, step.reply, Ok(outcome)),
        outcome.checkpoint == Some(checkpoint),
        decompresses_to(
            decode,
            step.input.skip(step.reply.in_consumed as int),
            checkpoint.cursor(),
            step.after.take(step.out_end()),
            rest,
        ),
        hands_over(call, checkpoint),
        resumed.input == step.input.skip(step.reply.in_consumed as int),
        resumed.saved == call.saved,
        resumed.dictionary == call.dictionary@,
        resumed.follows(decode),
        resume_returns(resumed.reply, result),
    ensures
        result is Ok <==> checkpoint.window_used + rest.bytes.len() <= resumed.after.len(),
        result matches Ok((in_consumed, out_produced)) ==> {
            let used = checkpoint.window_used as int;
            &&& in_consumed == rest.in_consumed
            &&& out_produced == rest.bytes.len()
            &&& resumed.after.take(used) == checkpoint.dictionary()
            &&& resumed.after.subrange(used, used + out_produced) == rest.bytes
        },
{
    let history = step.after.take(step.out_end());
    law_checkpoint_is_session_state(
        step.call.init,
        step.after,
        step.call.out_offset,
        step.reply,
        outcome,
        checkpoint,
    );
    assert(resumed.dictionary == window_tail(history));
    assert(window_tail(window_tail(history)) =~= window_tail(history));
    let blocks = choose|blocks: nat| #[trigger]
        stream(decode, resumed.input, resumed.saved, history, blocks) == Some(rest);
    law_stream_sees_only_the_window(
        decode,
        resumed.input,
        resumed.saved,
        history,
        resumed.dictionary,
        blocks,
    );
    assert(resumed.decompresses_to(decode, rest));
    if resumed.reply.status is Success {
        law_stream_decodes_one_way(
            decode,
            resumed.input,
            resumed.saved,
            resumed.dictionary,
            rest,
            resumed.decoded(),
        );
    }
}

/// Random access into a stream that is being walked: resuming from the checkpoint of any walk of a
/// chain, ended or not, on the compressed bytes from its position on, succeeds if and only if the
/// buffer has room for the dictionary and for what the stream has left there. It then produces
/// exactly that, and consumes what the walks up to the checkpoint have left of the stream's input.
pub proof fn law_resume_continues_stream(
    decode: Decoder,
    steps: Seq<WalkStep>,
    whole: Decoded,
    i: int,
    outcome: WalkOutcome,
    checkpoint: Checkpoint,
    call: ResumeCall,
    resumed: ResumeStep,
    result: Result<(usize, usize)>,
)
    requires
        reaches_only_window(decode),
        is_chain(decode, steps),
        steps[0].decompresses_to(decode, whole),
        0 <= i < steps.len(),
        walk_returns(steps[i].after, steps[i].call.out_offset, steps[i].reply, Ok(outcome)),
        outcome.checkpoint == Some(checkpoint),
        hands_over(call, checkpoint),
        resumed.input == steps[0].input.skip(in_position(steps, i + 1) as int),
        resumed.saved == call.saved,
        resumed.dictionary == call.dictionary@,
        resumed.follows(decode),
        resume_returns(resumed.reply, result),
    ensures
        ({
            let out_pos = steps[i].out_end() - steps[0].call.out_offset;
            let used = checkpoint.window_used as int;
            &&& 0 <= out_pos <= whole.bytes.len()
            &&& result is Ok <==> used + (whole.bytes.len() - out_pos) <= resumed.after.len()
            &&& result matches Ok((in_consumed, out_produced)) ==> {
                &&& in_position(steps, i + 1) + in_consumed == whole.in_consumed
                &&& out_produced == whole.bytes.len() - out_pos
                &&& resumed.after.take(used) == checkpoint.dictionary()
                &&& resumed.after.subrange(used, used + out_produced) == whole.bytes.skip(out_pos)
            }
        }),
{
    let step = steps[i];
    let blocks = choose|blocks: nat| #[trigger]
        stream(decode, steps[0].input, steps[0].call.init, steps[0].history(), blocks) == Some(
            whole,
        );
    lemma_chain_at(decode, steps, i, blocks, whole);
    let done = step.call.out_offset - steps[0].call.out_offset;
    let left = Decoded {
        in_consumed: (whole.in_consumed - in_position(steps, i)) as nat,
        bytes: whole.bytes.skip(done),
    };
    lemma_block_taken(decode, step, (blocks - i) as nat, left);
    let produced = step.reply.out_produced as int;
    let rest = Decoded {
        in_consumed: (left.in_consumed - step.reply.in_consumed) as nat,
        bytes: left.bytes.skip(produced),
    };
    assert(resumed.input =~= step.input.skip(step.reply.in_consumed as int));
    law_resume_produces_rest(
        decode,
        step,
        outcome,
        checkpoint,
        call,
        resumed,
        result,
        rest,
    );
}

/// Random access into a stream that was walked to its end: a resume from the checkpoint of any
/// walk of a session produces exactly the bytes that the session produced from that point on, and
/// consumes exactly the input that it consumed from there.
pub proof fn law_resume_matches_session(
    decode: Decoder,
    steps: Seq<WalkStep>,
    i: int,
    outcome: WalkOutcome,
    checkpoint: Checkpoint,
    call: ResumeCall,
    resumed: ResumeStep,
    result: Result<(usize, usize)>,
)
    requires
        reaches_only_window(decode),
        is_session(decode, steps),
        0 <= i < steps.len(),
        walk_returns(steps[i].after, steps[i].call.out_offset, steps[i].reply, Ok(outcome)),
        outcome.checkpoint == Some(checkpoint),
        hands_over(call, checkpoint),
        resumed.input == steps[0].input.skip(in_position(steps, i + 1) as int),
        resumed.saved == call.saved,
        resumed.dictionary == call.dictionary@,
        resumed.follows(decode),
        resume_returns(resumed.reply, result),
    ensures
        result is Ok <==> checkpoint.window_used + (steps.last().out_end() - steps[i].out_end())
            <= resumed.after.len(),
        result matches Ok((in_consumed, out_produced)) ==> {
            let used = checkpoint.window_used as int;
            &&& in_position(steps, i + 1) + in_consumed == in_position(steps, steps.len() as int)
            &&& out_produced == steps.last().out_end() - steps[i].out_end()
            &&& resumed.after.take(used) == checkpoint.dictionary()
            &&& resumed.after.subrange(used, used + out_produced) == steps.last().after.subrange(
                steps[i].out_end(),
                steps.last().out_end(),
            )
        },
{
    let whole = chain_decoded(steps);
    law_walks_form_one_stream(decode, steps);
    lemma_session_from(decode, steps, i);
    lemma_session_from(decode, steps, 0);
    law_resume_continues_stream(
        decode,
        steps,
        whole,
        i,
        outcome,
        checkpoint,
        call,
        resumed,
        result,
    );
    let out_pos = steps[i].out_end() - steps[0].call.out_offset;
    assert(whole.bytes.skip(out_pos) =~= steps.last().after.subrange(
        steps[i].out_end(),
        steps.last().out_end(),
    ));
}

/// A walk that returns an outcome either reached the end of the stream or hands out a checkpoint,
/// never both and never neither.
pub proof fn law_done_or_checkpoint(
    output: Seq<u8>,
    out_offset: usize,
    reply: WalkReply,
    outcome: WalkOutcome,
)
    requires
        walk_returns(output, out_offset, reply, Ok(outcome)),
    ensures
        outcome.done <==> outcome.checkpoint is None,
{
}

/// A walk that fails leaves the session where it was: walking again from the same place hands the
/// engine the same arguments.
pub proof fn law_failed_walk_can_be_repeated(
    pending: BitCursor,
    output: Seq<u8>,
    out_offset: usize,
    stop: bool,
    reply: WalkReply,
    error: Error,
)
    requires
        walk_returns(output, out_offset, reply, Err(error)),
    ensures
        walk_call(pending_after(pending, reply), out_offset, stop) == walk_call(
            pending,
            out_offset,
            stop,
        ),
{
}

/// A walk that was not asked to stop at block boundaries hands out no checkpoint: where it
/// succeeds, the stream is done.
pub proof fn law_checkpoint_only_on_request(
    pending: BitCursor,
    output: Seq<u8>,
    out_offset: usize,
    reply: WalkReply,
    outcome: WalkOutcome,
)
    requires
        reply.honours(walk_call(pending, out_offset, false)),
        walk_returns(output, out_offset, reply, Ok(outcome)),
    ensures
        outcome.done,
        outcome.checkpoint is None,
{
}

/// The pending bits always lie inside one byte: they do so when a session starts, and every walk
/// keeps it so. Hence a checkpoint holds at most seven bits, too.
pub proof fn law_cursor_stays_within_byte(
    pending: BitCursor,
    output: Seq<u8>,
    out_offset: usize,
    stop: bool,
    reply: WalkReply,
    result: Result<WalkOutcome>,
)
    requires
        pending.within_byte(),
        reply.honours(walk_call(pending, out_offset, stop)),
        walk_returns(output, out_offset, reply, result),
    ensures
        BitCursor::start().within_byte(),
        pending_after(pending, reply).within_byte(),
        pending_after(pending, reply).bitsleft <= 7,
        result matches Ok(outcome) ==> (outcome.checkpoint matches Some(checkpoint)
            ==> checkpoint.cursor().within_byte() && checkpoint.bitsleft <= 7),
{
    lemma_pow2_pos(0);
}

/// Neither a walk nor a resume reports a short output.
pub proof fn law_no_short_output(
    call: WalkCall,
    output: Seq<u8>,
    walk_reply: WalkReply,
    walked: Result<WalkOutcome>,
    resume_reply: ResumeReply,
    resumed: Result<(usize, usize)>,
)
    requires
        walk_reply.honours(call),
        walk_returns(output, call.out_offset, walk_reply, walked),
        resume_reply.honours(),
        resume_returns(resume_reply, resumed),
    ensures
        walked != Err::<WalkOutcome, Error>(Error::ShortOutput),
        resumed != Err::<(usize, usize), Error>(Error::ShortOutput),
{
}

} // verus!
