//! What each call does, in terms of what goes in and what comes out.
//!
//! These laws speak of the calls themselves: of what a function may be called with
//! (`call_requires`) and of every result that a call can have (`call_ensures`). A law on a function
//! that takes `&mut` speaks of each reference that it may be given: `*r` is the value before the
//! call and `*final(r)` the one after it.

use vstd::prelude::*;

use crate::checkpoint::{snapshot_window, Checkpoint};
use crate::decompressor::{Decompressor, WalkOutcome};
use crate::engine::{ResumeCall, ResumeReply, WalkCall, WalkReply};
use crate::error::{Error, Result};

verus! {

/// The wording of each error, for every reason that an invalid input can be given.
pub proof fn law_message_text(error: Error, text: String)
    requires
        call_ensures(Error::message, (&error,), text),
    ensures
        error is BadData ==> text@ == "libdeflate: bad data"@,
        error is InsufficientSpace ==> text@ == "libdeflate: insufficient output space"@,
        error is ShortOutput ==> text@ == "libdeflate: short output"@,
        error is OutOfMemory ==> text@ == "libdeflate: out of memory"@,
        error matches Error::InvalidInput(reason) ==> text@ == "libdeflate: invalid input: "@
            + reason@,
{
}

/// No two errors read alike: a message gives back the error, and the reason where it has one.
pub proof fn law_message_tells_errors_apart(
    first: Error,
    second: Error,
    first_text: String,
    second_text: String,
)
    requires
        call_ensures(Error::message, (&first,), first_text),
        call_ensures(Error::message, (&second,), second_text),
        first_text@ == second_text@,
    ensures
        first is BadData <==> second is BadData,
        first is InsufficientSpace <==> second is InsufficientSpace,
        first is ShortOutput <==> second is ShortOutput,
        first is OutOfMemory <==> second is OutOfMemory,
        first matches Error::InvalidInput(reason) ==> (second matches Error::InvalidInput(other)
            && reason@ == other@),
{
    reveal_strlit("libdeflate: bad data");
    reveal_strlit("libdeflate: insufficient output space");
    reveal_strlit("libdeflate: short output");
    reveal_strlit("libdeflate: out of memory");
    reveal_strlit("libdeflate: invalid input: ");
    law_message_text(first, first_text);
    law_message_text(second, second_text);
    let prefix = "libdeflate: invalid input: "@;
    if let Error::InvalidInput(reason) = first {
        assert(first_text@[14] == prefix[14]);
        assert(reason@ =~= first_text@.skip(prefix.len() as int));
    }
    if let Error::InvalidInput(reason) = second {
        assert(second_text@[14] == prefix[14]);
        assert(reason@ =~= second_text@.skip(prefix.len() as int));
    }
}

/// A snapshot keeps the bit buffer and the last 32768 bytes of the output, or all of it while it
/// is shorter: they stand in order at the end of the window, and every byte before them is zero.
pub proof fn law_snapshot_keeps_the_last_bytes(
    produced: &[u8],
    bitbuf: u64,
    bitsleft: u32,
    checkpoint: Checkpoint,
)
    requires
        call_ensures(snapshot_window, (produced, bitbuf, bitsleft), checkpoint),
    ensures
        checkpoint.bitbuf == bitbuf,
        checkpoint.bitsleft == bitsleft,
        checkpoint.window_used <= 32768,
        checkpoint.window_used <= produced@.len(),
        checkpoint.window_used == 32768 || checkpoint.window_used == produced@.len(),
        checkpoint.window@.len() == 32768,
        forall|i: int|
            0 <= i < checkpoint.window_used ==> #[trigger] checkpoint.window@[32768
                - checkpoint.window_used + i] == produced@[produced@.len()
                - checkpoint.window_used + i],
        forall|i: int|
            0 <= i < 32768 - checkpoint.window_used ==> #[trigger] checkpoint.window@[i] == 0,
{
}

/// A snapshot may be taken of any output.
pub proof fn law_snapshot_takes_any_output(produced: &[u8], bitbuf: u64, bitsleft: u32)
    ensures
        call_requires(snapshot_window, (produced, bitbuf, bitsleft)),
{
}

/// A session is what its handle makes it: without one there is none, with one its first walk
/// starts at a byte boundary.
pub proof fn law_new_session_starts_at_a_byte_boundary<H>(
    raw: Option<H>,
    result: Result<Decompressor<H>>,
)
    requires
        call_ensures(Decompressor::<H>::new, (raw,), result),
    ensures
        raw is None ==> result == Err::<Decompressor<H>, Error>(Error::OutOfMemory),
        raw matches Some(handle) ==> {
            &&& result matches Ok(session)
            &&& session.handle() == handle
            &&& forall|output_len: usize, out_offset: usize, stop: bool, call: WalkCall|
                #[trigger] call_ensures(
                    Decompressor::<H>::begin_walk,
                    (&session, output_len, out_offset, stop),
                    Ok(call),
                ) ==> call.init.bitbuf == 0 && call.init.bitsleft == 0
        },
{
}

/// After a reset the next walk starts at a byte boundary, on the same handle.
pub proof fn law_reset_starts_at_a_byte_boundary<H>()
    ensures
        forall|session: &mut Decompressor<H>, done: ()| #[trigger]
            call_ensures(Decompressor::<H>::reset, (session,), done) ==> {
                &&& final(session).handle() == (*session).handle()
                &&& forall|output_len: usize, out_offset: usize, stop: bool, call: WalkCall|
                    #[trigger] call_ensures(
                        Decompressor::<H>::begin_walk,
                        (&*final(session), output_len, out_offset, stop),
                        Ok(call),
                    ) ==> call.init.bitbuf == 0 && call.init.bitsleft == 0
            },
{
}

/// A walk is admitted if and only if its offset lies in the buffer, whatever their sizes. The
/// engine is then handed the pending bits, that very offset, and a nonzero stop flag if and only
/// if a stop was asked for.
pub proof fn law_walk_is_handed_over_as_asked<H>(
    session: Decompressor<H>,
    output_len: usize,
    out_offset: usize,
    stop: bool,
    result: Result<WalkCall>,
)
    requires
        call_ensures(
            Decompressor::<H>::begin_walk,
            (&session, output_len, out_offset, stop),
            result,
        ),
    ensures
        call_requires(Decompressor::<H>::begin_walk, (&session, output_len, out_offset, stop)),
        out_offset <= output_len <==> result is Ok,
        out_offset > output_len ==> result == Err::<WalkCall, Error>(Error::InsufficientSpace),
        result matches Ok(call) ==> {
            &&& call.init == session@
            &&& call.out_offset == out_offset
            &&& stop <==> call.stop_at_block_end != 0
        },
{
}

/// Where a walk starts in the stream does not depend on the buffer, the offset or the stop flag.
pub proof fn law_walk_start_is_the_sessions<H>(
    session: Decompressor<H>,
    first_args: (usize, usize, bool),
    second_args: (usize, usize, bool),
    first: WalkCall,
    second: WalkCall,
)
    requires
        call_ensures(
            Decompressor::<H>::begin_walk,
            (&session, first_args.0, first_args.1, first_args.2),
            Ok(first),
        ),
        call_ensures(
            Decompressor::<H>::begin_walk,
            (&session, second_args.0, second_args.1, second_args.2),
            Ok(second),
        ),
    ensures
        first.init.bitbuf == second.init.bitbuf,
        first.init.bitsleft == second.init.bitsleft,
{
}

/// What a reply to a walk comes to. The caller gets the engine's own counts and learns whether the
/// stream is done. At a block end the caller gets a checkpoint with the bits of the boundary and
/// the last 32768 bytes before it, or all of them while they are fewer: `output[..end]` is what has
/// been produced there. Each failure comes back as itself.
pub proof fn law_walk_reply_comes_back<H>(output: &[u8], out_offset: usize, reply: WalkReply)
    ensures
        forall|session: &mut Decompressor<H>, result: Result<WalkOutcome>| #[trigger]
            call_ensures(
                Decompressor::<H>::finish_walk,
                (session, output, out_offset, reply),
                result,
            ) ==> {
                &&& final(session).handle() == (*session).handle()
                &&& reply.status is Success || reply.status is BlockEnd <==> result is Ok
                &&& result matches Ok(outcome) ==> {
                    &&& outcome.in_consumed == reply.in_consumed
                    &&& outcome.out_produced == reply.out_produced
                    &&& outcome.done <==> reply.status is Success
                    &&& outcome.checkpoint is Some <==> reply.status is BlockEnd
                    &&& outcome.checkpoint matches Some(checkpoint) ==> {
                        let end = out_offset + reply.out_produced;
                        let used = checkpoint.window_used as int;
                        &&& checkpoint.bitbuf == reply.cursor.bitbuf
                        &&& checkpoint.bitsleft == reply.cursor.bitsleft
                        &&& end <= output@.len() ==> {
                            &&& used <= 32768 && used <= end
                            &&& used == 32768 || used == end
                            &&& forall|i: int|
                                0 <= i < used ==> #[trigger] checkpoint.window@[32768 - used + i]
                                    == output@[end - used + i]
                            &&& forall|i: int|
                                0 <= i < 32768 - used ==> #[trigger] checkpoint.window@[i] == 0
                        }
                    }
                }
                &&& reply.status is BadData ==> result == Err::<WalkOutcome, Error>(Error::BadData)
                &&& reply.status is InsufficientSpace ==> result == Err::<WalkOutcome, Error>(
                    Error::InsufficientSpace,
                )
                &&& reply.status is ShortOutput ==> result == Err::<WalkOutcome, Error>(
                    Error::ShortOutput,
                )
            },
{
}

/// The next walk picks up where the last one left the stream: at the bits of the block end where it
/// stopped, at a byte boundary once the stream was done, and at its own start again if it failed.
pub proof fn law_next_walk_picks_up<H>(output: &[u8], out_offset: usize, reply: WalkReply)
    ensures
        forall|
            session: &mut Decompressor<H>,
            result: Result<WalkOutcome>,
            output_len: usize,
            before_offset: usize,
            after_offset: usize,
            stop: bool,
            before: WalkCall,
            after: WalkCall,
        |
            {
                &&& #[trigger] call_ensures(
                    Decompressor::<H>::finish_walk,
                    (session, output, out_offset, reply),
                    result,
                )
                &&& #[trigger] call_ensures(
                    Decompressor::<H>::begin_walk,
                    (&*session, output_len, before_offset, stop),
                    Ok(before),
                )
                &&& #[trigger] call_ensures(
                    Decompressor::<H>::begin_walk,
                    (&*final(session), output_len, after_offset, stop),
                    Ok(after),
                )
            } ==> {
                &&& reply.status is BlockEnd ==> {
                    &&& after.init.bitbuf == reply.cursor.bitbuf
                    &&& after.init.bitsleft == reply.cursor.bitsleft
                }
                &&& reply.status is Success ==> after.init.bitbuf == 0 && after.init.bitsleft == 0
                &&& reply.status !is BlockEnd && reply.status !is Success ==> {
                    &&& after.init.bitbuf == before.init.bitbuf
                    &&& after.init.bitsleft == before.init.bitsleft
                }
            },
{
}

/// Any reply may be finished, but for one that counts more output at a block end than the buffer
/// holds.
pub proof fn law_any_sound_reply_may_be_finished<H>(
    output: &[u8],
    out_offset: usize,
    reply: WalkReply,
)
    requires
        reply.status is BlockEnd ==> out_offset + reply.out_produced <= output@.len(),
    ensures
        forall|session: &mut Decompressor<H>| #[trigger]
            call_requires(
                Decompressor::<H>::finish_walk,
                (session, output, out_offset, reply),
            ),
{
}

/// A resume is admitted if and only if its window is no larger than 32768 bytes and fits the
/// buffer; so any larger buffer admits it too. The engine is then handed the checkpoint's bits and
/// the last `window_used` bytes of its window, and the session starts over. A resume that is
/// refused leaves the session alone.
pub proof fn law_resume_is_handed_over_as_asked<H>(output_len: usize, checkpoint: &Checkpoint)
    ensures
        forall|session: &mut Decompressor<H>| #[trigger]
            call_requires(Decompressor::<H>::begin_resume, (session, output_len, checkpoint)),
        forall|session: &mut Decompressor<H>, result: Result<ResumeCall>| #[trigger]
            call_ensures(
                Decompressor::<H>::begin_resume,
                (session, output_len, checkpoint),
                result,
            ) ==> {
                let used = checkpoint.window_used as int;
                &&& used <= 32768 && used <= output_len <==> result is Ok
                &&& used > 32768 ==> (result matches Err(Error::InvalidInput(reason)) && reason@
                    == "checkpoint.window_used > WINDOW_SIZE"@)
                &&& used <= 32768 && output_len < used ==> result == Err::<ResumeCall, Error>(
                    Error::InsufficientSpace,
                )
                &&& result matches Ok(call) ==> {
                    &&& call.saved.bitbuf == checkpoint.bitbuf
                    &&& call.saved.bitsleft == checkpoint.bitsleft
                    &&& call.dictionary@.len() == used
                    &&& forall|i: int|
                        0 <= i < used ==> #[trigger] call.dictionary@[i] == checkpoint.window@[32768
                            - used + i]
                    &&& final(session).handle() == (*session).handle()
                    &&& forall|len: usize, out_offset: usize, stop: bool, walk: WalkCall| #[trigger]
                        call_ensures(
                            Decompressor::<H>::begin_walk,
                            (&*final(session), len, out_offset, stop),
                            Ok(walk),
                        ) ==> walk.init.bitbuf == 0 && walk.init.bitsleft == 0
                }
                &&& result is Err ==> *final(session) == *session
            },
{
}

/// What a reply to a resume comes to: the engine's own counts on success, and each failure as
/// itself. A resume does not stop at block ends, so a reply that says so is no answer to it.
pub proof fn law_resume_reply_comes_back<H>(
    session: Decompressor<H>,
    reply: ResumeReply,
    result: Result<(usize, usize)>,
)
    requires
        call_ensures(Decompressor::<H>::finish_resume, (&session, reply), result),
    ensures
        call_requires(Decompressor::<H>::finish_resume, (&session, reply)),
        reply.status is Success <==> result is Ok,
        result matches Ok(counts) ==> counts.0 == reply.in_consumed && counts.1
            == reply.out_produced,
        reply.status is BadData ==> result == Err::<(usize, usize), Error>(Error::BadData),
        reply.status is InsufficientSpace ==> result == Err::<(usize, usize), Error>(
            Error::InsufficientSpace,
        ),
        reply.status is ShortOutput ==> result == Err::<(usize, usize), Error>(Error::ShortOutput),
        reply.status is BlockEnd ==> (result matches Err(Error::InvalidInput(reason)) && reason@
            == "unexpected BLOCK_END from resume path"@),
{
}

/// What was captured is what is handed back: resuming from the snapshot of an output gives the
/// engine the bits of the snapshot and the last bytes of that output, 32768 of them or all.
pub proof fn law_snapshot_resumes_to_the_last_bytes<H>(
    produced: &[u8],
    bitbuf: u64,
    bitsleft: u32,
    checkpoint: &Checkpoint,
    output_len: usize,
)
    requires
        call_ensures(snapshot_window, (produced, bitbuf, bitsleft), *checkpoint),
    ensures
        forall|session: &mut Decompressor<H>, result: Result<ResumeCall>| #[trigger]
            call_ensures(
                Decompressor::<H>::begin_resume,
                (session, output_len, checkpoint),
                result,
            ) ==> {
                let used = if produced@.len() < 32768 {
                    produced@.len() as int
                } else {
                    32768
                };
                &&& result is Ok <==> used <= output_len
                &&& result matches Ok(call) ==> {
                    &&& call.saved.bitbuf == bitbuf
                    &&& call.saved.bitsleft == bitsleft
                    &&& call.dictionary@ == produced@.subrange(
                        produced@.len() - used,
                        produced@.len() as int,
                    )
                }
            },
{
    law_snapshot_keeps_the_last_bytes(produced, bitbuf, bitsleft, *checkpoint);
    law_resume_is_handed_over_as_asked::<H>(output_len, checkpoint);
    assert forall|session: &mut Decompressor<H>, result: Result<ResumeCall>| #[trigger]
        call_ensures(
            Decompressor::<H>::begin_resume,
            (session, output_len, checkpoint),
            result,
        ) && result is Ok implies result->Ok_0.dictionary@ == produced@.subrange(
        produced@.len() - checkpoint.window_used,
        produced@.len() as int,
    ) by {
        let dictionary = result->Ok_0.dictionary@;
        let used = checkpoint.window_used as int;
        assert forall|i: int| 0 <= i < used implies dictionary[i] == produced@[produced@.len()
            - used + i] by {
            assert(checkpoint.window@[32768 - used + i] == produced@[produced@.len() - used + i]);
        }
        assert(dictionary =~= produced@.subrange(produced@.len() - used, produced@.len() as int));
    }
}

/// A walk runs the engine exactly when its offset lies in the buffer. The engine then gets the
/// session's handle, the input, the whole buffer, the pending bits, the caller's offset and the
/// caller's wish to stop; what it leaves in the buffer is what the caller finds there. Its reply
/// comes back as it is: the counts, the end of the stream, or a checkpoint of the boundary with the
/// last bytes of the buffer before it. A walk that is refused changes nothing.
pub proof fn law_walk_runs_the_engine<H, F>(
    input: &[u8],
    out_offset: usize,
    stop: bool,
    engine: F,
) where F: FnOnce(&H, &[u8], &mut [u8], WalkCall) -> WalkReply
    ensures
        forall|
            session: &mut Decompressor<H>,
            output: &mut [u8],
            result: Result<WalkOutcome>,
        | #[trigger]
            call_ensures(
                Decompressor::<H>::decompress_walk::<F>,
                (session, input, output, out_offset, stop, engine),
                result,
            ) ==> {
                let handle = (*session).handle();
                &&& final(session).handle() == handle
                &&& out_offset > (*output)@.len() ==> {
                    &&& result == Err::<WalkOutcome, Error>(Error::InsufficientSpace)
                    &&& *final(session) == *session
                    &&& final(output)@ == (*output)@
                }
                &&& out_offset <= (*output)@.len() ==> exists|
                    buffer: &mut [u8],
                    call: WalkCall,
                    reply: WalkReply,
                |
                    {
                        &&& #[trigger] call_ensures(engine, (&handle, input, buffer, call), reply)
                        &&& (*buffer)@ == (*output)@
                        &&& final(buffer)@ == final(output)@
                        &&& call.init == (*session)@
                        &&& call.out_offset == out_offset
                        &&& stop <==> call.stop_at_block_end != 0
                        &&& reply.status is Success || reply.status is BlockEnd <==> result is Ok
                        &&& result matches Ok(outcome) ==> {
                            &&& outcome.in_consumed == reply.in_consumed
                            &&& outcome.out_produced == reply.out_produced
                            &&& outcome.done <==> reply.status is Success
                            &&& outcome.checkpoint is Some <==> reply.status is BlockEnd
                            &&& outcome.checkpoint matches Some(checkpoint) ==> {
                                let end = out_offset + reply.out_produced;
                                let used = checkpoint.window_used as int;
                                &&& checkpoint.bitbuf == reply.cursor.bitbuf
                                &&& checkpoint.bitsleft == reply.cursor.bitsleft
                                &&& end <= final(output)@.len() ==> {
                                    &&& used <= 32768 && used <= end
                                    &&& used == 32768 || used == end
                                    &&& forall|i: int|
                                        0 <= i < used ==> #[trigger] checkpoint.window@[32768 - used
                                            + i] == final(output)@[end - used + i]
                                    &&& forall|i: int|
                                        0 <= i < 32768 - used
                                            ==> #[trigger] checkpoint.window@[i] == 0
                                }
                            }
                        }
                        &&& reply.status is BadData ==> result == Err::<WalkOutcome, Error>(
                            Error::BadData,
                        )
                        &&& reply.status is InsufficientSpace ==> result == Err::<
                            WalkOutcome,
                            Error,
                        >(Error::InsufficientSpace)
                        &&& reply.status is ShortOutput ==> result == Err::<WalkOutcome, Error>(
                            Error::ShortOutput,
                        )
                        &&& reply.status is BlockEnd ==> final(session)@ == reply.cursor
                        &&& reply.status is Success ==> final(session)@.bitbuf == 0 && final(
                            session)@.bitsleft == 0
                        &&& result is Err ==> final(session)@ == (*session)@
                    }
            },
{
}

/// A walk may be run with any engine that takes any call and never counts more output at a block
/// end than the buffer holds.
pub proof fn law_walk_takes_any_sound_engine<H, F>(
    input: &[u8],
    out_offset: usize,
    stop: bool,
    engine: F,
) where F: FnOnce(&H, &[u8], &mut [u8], WalkCall) -> WalkReply
    requires
        forall|handle: &H, bytes: &[u8], buffer: &mut [u8], call: WalkCall| #[trigger]
            call_requires(engine, (handle, bytes, buffer, call)),
        forall|
            handle: &H,
            bytes: &[u8],
            buffer: &mut [u8],
            call: WalkCall,
            reply: WalkReply,
        | #[trigger]
            call_ensures(engine, (handle, bytes, buffer, call), reply) && reply.status is BlockEnd
                ==> call.out_offset + reply.out_produced <= final(buffer)@.len(),
    ensures
        forall|session: &mut Decompressor<H>, output: &mut [u8]| #[trigger]
            call_requires(
                Decompressor::<H>::decompress_walk::<F>,
                (session, input, output, out_offset, stop, engine),
            ),
{
}

/// The walk after a walk starts where that one left the stream: with the bits of its checkpoint if
/// it handed one out, at a byte boundary if the stream was done, and where it started itself if it
/// failed.
pub proof fn law_next_walk_starts_at_the_checkpoint<H, F, G>(
    input: &[u8],
    out_offset: usize,
    stop: bool,
    engine: F,
    next_input: &[u8],
    next_offset: usize,
    next_stop: bool,
    next_engine: G,
) where
    F: FnOnce(&H, &[u8], &mut [u8], WalkCall) -> WalkReply,
    G: FnOnce(&H, &[u8], &mut [u8], WalkCall) -> WalkReply,

    ensures
        forall|
            session: &mut Decompressor<H>,
            output: &mut [u8],
            result: Result<WalkOutcome>,
            next_session: &mut Decompressor<H>,
            next_output: &mut [u8],
            next_result: Result<WalkOutcome>,
        |
            {
                &&& #[trigger] call_ensures(
                    Decompressor::<H>::decompress_walk::<F>,
                    (session, input, output, out_offset, stop, engine),
                    result,
                )
                &&& #[trigger] call_ensures(
                    Decompressor::<H>::decompress_walk::<G>,
                    (next_session, next_input, next_output, next_offset, next_stop, next_engine),
                    next_result,
                )
                &&& *next_session == *final(session)
                &&& next_offset <= (*next_output)@.len()
            } ==> {
                let handle = (*session).handle();
                exists|buffer: &mut [u8], call: WalkCall, reply: WalkReply|
                    {
                        &&& #[trigger] call_ensures(
                            next_engine,
                            (&handle, next_input, buffer, call),
                            reply,
                        )
                        &&& result matches Ok(outcome) ==> {
                            &&& outcome.checkpoint matches Some(checkpoint) ==> {
                                &&& call.init.bitbuf == checkpoint.bitbuf
                                &&& call.init.bitsleft == checkpoint.bitsleft
                            }
                            &&& outcome.done ==> call.init.bitbuf == 0 && call.init.bitsleft == 0
                        }
                        &&& result is Err ==> call.init == (*session)@
                    }
            },
{
    law_walk_runs_the_engine::<H, F>(input, out_offset, stop, engine);
    law_walk_runs_the_engine::<H, G>(next_input, next_offset, next_stop, next_engine);
}

/// A resume runs the engine exactly when the window is no larger than 32768 bytes and fits the
/// buffer. The engine then gets the session's handle, the input, the whole buffer, the checkpoint's
/// bits and the last `window_used` bytes of its window; what it leaves in the buffer is what the
/// caller finds there, and its reply comes back as it is. The session starts over. A resume that is
/// refused changes nothing.
pub proof fn law_resume_runs_the_engine<H, F>(
    input: &[u8],
    checkpoint: &Checkpoint,
    engine: F,
) where F: FnOnce(&H, &[u8], &mut [u8], ResumeCall<'_>) -> ResumeReply
    ensures
        forall|
            session: &mut Decompressor<H>,
            output: &mut [u8],
            result: Result<(usize, usize)>,
        | #[trigger]
            call_ensures(
                Decompressor::<H>::decompress_resume::<F>,
                (session, input, output, checkpoint, engine),
                result,
            ) ==> {
                let handle = (*session).handle();
                let used = checkpoint.window_used as int;
                let admitted = used <= 32768 && used <= (*output)@.len();
                &&& final(session).handle() == handle
                &&& !admitted ==> *final(session) == *session && final(output)@ == (*output)@
                &&& used > 32768 ==> (result matches Err(Error::InvalidInput(reason)) && reason@
                    == "checkpoint.window_used > WINDOW_SIZE"@)
                &&& used <= 32768 && (*output)@.len() < used ==> result == Err::<
                    (usize, usize),
                    Error,
                >(Error::InsufficientSpace)
                &&& admitted ==> final(session)@.bitbuf == 0 && final(session)@.bitsleft == 0
                &&& admitted ==> exists|
                    buffer: &mut [u8],
                    call: ResumeCall,
                    reply: ResumeReply,
                |
                    {
                        &&& #[trigger] call_ensures(engine, (&handle, input, buffer, call), reply)
                        &&& (*buffer)@ == (*output)@
                        &&& final(buffer)@ == final(output)@
                        &&& call.saved.bitbuf == checkpoint.bitbuf
                        &&& call.saved.bitsleft == checkpoint.bitsleft
                        &&& call.dictionary@ == checkpoint.window@.subrange(32768 - used, 32768)
                        &&& reply.status is Success <==> result is Ok
                        &&& result matches Ok(counts) ==> counts.0 == reply.in_consumed && counts.1
                            == reply.out_produced
                        &&& reply.status is BadData ==> result == Err::<(usize, usize), Error>(
                            Error::BadData,
                        )
                        &&& reply.status is InsufficientSpace ==> result == Err::<
                            (usize, usize),
                            Error,
                        >(Error::InsufficientSpace)
                        &&& reply.status is ShortOutput ==> result == Err::<(usize, usize), Error>(
                            Error::ShortOutput,
                        )
                        &&& reply.status is BlockEnd ==> (result matches Err(
                            Error::InvalidInput(reason),
                        ) && reason@ == "unexpected BLOCK_END from resume path"@)
                    }
            },
{
}

/// A resume may be run with any engine that takes any call.
pub proof fn law_resume_takes_any_engine<H, F>(
    input: &[u8],
    checkpoint: &Checkpoint,
    engine: F,
) where F: FnOnce(&H, &[u8], &mut [u8], ResumeCall<'_>) -> ResumeReply
    requires
        forall|handle: &H, bytes: &[u8], buffer: &mut [u8], call: ResumeCall| #[trigger]
            call_requires(engine, (handle, bytes, buffer, call)),
    ensures
        forall|session: &mut Decompressor<H>, output: &mut [u8]| #[trigger]
            call_requires(
                Decompressor::<H>::decompress_resume::<F>,
                (session, input, output, checkpoint, engine),
            ),
{
}

} // verus!
