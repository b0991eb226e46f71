//! The decompressor session: which bits a walk starts from, and what a call returns.

use vstd::prelude::*;

use crate::checkpoint::{snapshot_window, Checkpoint, WINDOW_SIZE};
use crate::engine::{BitCursor, ResumeCall, ResumeReply, Status, WalkCall, WalkReply};
use crate::error::{Error, Result};

verus! {

/// Returned by [`Decompressor::decompress_walk`].
#[derive(Debug, Clone)]
pub struct WalkOutcome {
    /// Bytes consumed from the input slice.
    pub in_consumed: usize,
    /// Bytes written to the output slice.
    pub out_produced: usize,
    /// `true` if the decoder reached the final block of the stream.
    pub done: bool,
    /// `Some` if the decoder stopped at a non-final end-of-block boundary because
    /// `stop_at_block_end` was `true`. Use this for zran index build.
    pub checkpoint: Option<Checkpoint>,
}

/// A decompression session around an engine handle, which it owns.
///
/// Stateful across [`Decompressor::decompress_walk`] calls: a walk that returns at an
/// end-of-block boundary leaves leftover bits in the decompressor; the next walk call
/// automatically picks them up. Use [`Decompressor::reset`] to clear that state when starting a
/// fresh stream (or, equivalently, [`Decompressor::new`] with a fresh handle).
pub struct Decompressor<H> {
    raw: H,
    /// Leftover bits from the previous walk's return at a non-final block boundary. Seeded into
    /// the next walk call so that the session continues correctly.
    pending_bitbuf: u64,
    pending_bitsleft: u32,
}

impl<H> View for Decompressor<H> {
    type V = BitCursor;

    /// The pending bits: where the next walk starts.
    closed spec fn view(&self) -> BitCursor {
        BitCursor { bitbuf: self.pending_bitbuf, bitsleft: self.pending_bitsleft }
    }
}

/// What a walk hands to the engine besides the two buffers.
pub open spec fn walk_call(pending: BitCursor, out_offset: usize, stop: bool) -> WalkCall {
    WalkCall {
        init: pending,
        out_offset,
        stop_at_block_end: if stop { 1 } else { 0 },
    }
}

/// The pending bits after a walk to which the engine replied `reply`: those of the boundary
/// where it stopped, none at the end of the stream, and the ones before when it failed.
pub open spec fn pending_after(pending: BitCursor, reply: WalkReply) -> BitCursor {
    match reply.status {
        Status::Success => BitCursor::start(),
        Status::BlockEnd => reply.cursor,
        _ => pending,
    }
}

/// What a walk returns for `reply`, once the engine has left `output` in the buffer.
pub open spec fn walk_returns(
    output: Seq<u8>,
    out_offset: usize,
    reply: WalkReply,
    result: Result<WalkOutcome>,
) -> bool {
    match reply.status {
        Status::Success => {
            &&& result matches Ok(outcome)
            &&& outcome.in_consumed == reply.in_consumed
            &&& outcome.out_produced == reply.out_produced
            &&& outcome.done
            &&& outcome.checkpoint is None
        },
        Status::BlockEnd => {
            &&& result matches Ok(outcome)
            &&& outcome.in_consumed == reply.in_consumed
            &&& outcome.out_produced == reply.out_produced
            &&& !outcome.done
            &&& outcome.checkpoint matches Some(checkpoint)
            &&& checkpoint.captures(
                output.take(out_offset + reply.out_produced),
                reply.cursor.bitbuf,
                reply.cursor.bitsleft,
            )
        },
        Status::BadData => result == Err::<WalkOutcome, Error>(Error::BadData),
        Status::InsufficientSpace => result == Err::<WalkOutcome, Error>(Error::InsufficientSpace),
        Status::ShortOutput => result == Err::<WalkOutcome, Error>(Error::ShortOutput),
    }
}

/// `call` hands the engine the state that `checkpoint` holds.
pub open spec fn hands_over(call: ResumeCall, checkpoint: Checkpoint) -> bool {
    &&& call.saved == checkpoint.cursor()
    &&& call.dictionary@ == checkpoint.dictionary()
}

/// A resume from `checkpoint` into a buffer of `output_len` bytes is refused before the engine
/// is called, with `error`.
pub open spec fn resume_refused(checkpoint: Checkpoint, output_len: nat, error: Error) -> bool {
    if checkpoint.window_used > WINDOW_SIZE {
        error matches Error::InvalidInput(reason) && reason@
            == "checkpoint.window_used > WINDOW_SIZE"@
    } else {
        output_len < checkpoint.window_used && error == Error::InsufficientSpace
    }
}

/// The engine is called for a resume from `checkpoint` into a buffer of `output_len` bytes: the
/// dictionary is no larger than the window and fits the buffer.
pub open spec fn resume_admitted(checkpoint: Checkpoint, output_len: nat) -> bool {
    checkpoint.window_used <= WINDOW_SIZE && checkpoint.window_used <= output_len
}

/// What a resume returns for `reply`.
pub open spec fn resume_returns(
    reply: ResumeReply,
    result: Result<(usize, usize)>,
) -> bool {
    match reply.status {
        Status::Success => result == Ok::<(usize, usize), Error>(
            (reply.in_consumed, reply.out_produced),
        ),
        Status::BadData => result == Err::<(usize, usize), Error>(Error::BadData),
        Status::InsufficientSpace => result == Err::<(usize, usize), Error>(
            Error::InsufficientSpace,
        ),
        Status::ShortOutput => result == Err::<(usize, usize), Error>(Error::ShortOutput),
        Status::BlockEnd => result matches Err(Error::InvalidInput(reason)) && reason@
            == "unexpected BLOCK_END from resume path"@,
    }
}

impl<H> Decompressor<H> {
    /// The engine handle.
    pub closed spec fn handle(self) -> H {
        self.raw
    }

    /// Start a session on a freshly allocated engine handle; `None` stands for an allocation
    /// that failed.
    ///
    /// # Errors
    /// [`Error::OutOfMemory`] if there is no handle.
    pub fn new(raw: Option<H>) -> (result: Result<Self>)
        ensures
            raw is None ==> result == Err::<Self, Error>(Error::OutOfMemory),
            raw matches Some(handle) ==> {
                &&& result matches Ok(fresh)
                &&& fresh.handle() == handle
                &&& fresh@ == BitCursor::start()
            },
    {
        match raw {
            None => Err(Error::OutOfMemory),
            Some(raw) => Ok(Decompressor { raw, pending_bitbuf: 0, pending_bitsleft: 0 }),
        }
    }

    /// Clear any pending bit-buffer state from a prior [`Decompressor::decompress_walk`] call.
    /// Useful when reusing the same decompressor across unrelated streams.
    pub fn reset(&mut self)
        ensures
            final(self)@ == BitCursor::start(),
            final(self).handle() == old(self).handle(),
    {
        self.pending_bitbuf = 0;
        self.pending_bitsleft = 0;
    }

    /// First half of [`Decompressor::decompress_walk`]: what the engine is to be called with, for
    /// an output buffer of `output_len` bytes.
    ///
    /// # Errors
    /// [`Error::InsufficientSpace`] if `out_offset` lies outside the buffer.
    pub fn begin_walk(
        &self,
        output_len: usize,
        out_offset: usize,
        stop_at_block_end: bool,
    ) -> (result: Result<WalkCall>)
        ensures
            out_offset > output_len ==> result == Err::<WalkCall, Error>(Error::InsufficientSpace),
            out_offset <= output_len ==> result == Ok::<WalkCall, Error>(
                walk_call(self@, out_offset, stop_at_block_end),
            ),
    {
        if out_offset > output_len {
            return Err(Error::InsufficientSpace);
        }
        Ok(
            WalkCall {
                init: BitCursor { bitbuf: self.pending_bitbuf, bitsleft: self.pending_bitsleft },
                out_offset,
                stop_at_block_end: if stop_at_block_end {
                    1
                } else {
                    0
                },
            },
        )
    }

    /// Second half of [`Decompressor::decompress_walk`]: what the engine's reply means for the
    /// session and for the caller. `output` is the whole buffer as the engine left it.
    pub fn finish_walk(&mut self, output: &[u8], out_offset: usize, reply: WalkReply) -> (result:
        Result<WalkOutcome>)
        requires
            reply.status is BlockEnd ==> out_offset + reply.out_produced <= output@.len(),
        ensures
            walk_returns(output@, out_offset, reply, result),
            final(self)@ == pending_after(old(self)@, reply),
            final(self).handle() == old(self).handle(),
    {
        match reply.status {
            Status::Success => {
                self.reset();
                Ok(
                    WalkOutcome {
                        in_consumed: reply.in_consumed,
                        out_produced: reply.out_produced,
                        done: true,
                        checkpoint: None,
                    },
                )
            },
            Status::BlockEnd => {
                self.pending_bitbuf = reply.cursor.bitbuf;
                self.pending_bitsleft = reply.cursor.bitsleft;
                assert(output@.len() == output.len());
                let total_output_end: usize = out_offset + reply.out_produced;
                let produced = &output[0..total_output_end];
                let checkpoint = snapshot_window(
                    produced,
                    reply.cursor.bitbuf,
                    reply.cursor.bitsleft,
                );
                Ok(
                    WalkOutcome {
                        in_consumed: reply.in_consumed,
                        out_produced: reply.out_produced,
                        done: false,
                        checkpoint: Some(checkpoint),
                    },
                )
            },
            Status::BadData => Err(Error::BadData),
            Status::InsufficientSpace => Err(Error::InsufficientSpace),
            Status::ShortOutput => Err(Error::ShortOutput),
        }
    }

    /// Walk a raw-DEFLATE stream into the **growing output buffer** `output`. Decoded bytes are
    /// appended starting at `output[out_offset..]`. Back-references reach into
    /// `output[..out_offset]` (the prior output), so a single growing buffer across many walk
    /// calls forms one contiguous decompression session.
    ///
    /// With `stop_at_block_end = true`, the call returns when an end-of-block boundary is reached
    /// (`WalkOutcome::checkpoint` is `Some`) or when the stream's final block has been decoded
    /// (`WalkOutcome::done = true`). With `stop_at_block_end = false`, the call decompresses to
    /// end-of-stream or runs out of output space.
    ///
    /// `engine` does the decoding. It is called at most once, with the session's handle, the two
    /// buffers and the arguments of the walk. A reply that it stopped at a block boundary must
    /// not count more output than the buffer holds.
    ///
    /// # Errors
    /// - [`Error::BadData`] for corrupt input.
    /// - [`Error::InsufficientSpace`] if the output buffer isn't large enough. If `out_offset`
    ///   itself lies outside the buffer, the engine is not called.
    pub fn decompress_walk<F>(
        &mut self,
        input: &[u8],
        output: &mut [u8],
        out_offset: usize,
        stop_at_block_end: bool,
        engine: F,
    ) -> (result: Result<WalkOutcome>) where
        F: FnOnce(&H, &[u8], &mut [u8], WalkCall) -> WalkReply,

        requires
            out_offset <= old(output)@.len() ==> {
                let handle = old(self).handle();
                let call = walk_call(old(self)@, out_offset, stop_at_block_end);
                &&& forall|buffer: &mut [u8]|
                    (*buffer)@ == old(output)@ ==> #[trigger] call_requires(
                        engine,
                        (&handle, input, buffer, call),
                    )
                &&& forall|buffer: &mut [u8], reply: WalkReply|
                    {
                        &&& (*buffer)@ == old(output)@
                        &&& #[trigger] call_ensures(engine, (&handle, input, buffer, call), reply)
                        &&& reply.status is BlockEnd
                    } ==> out_offset + reply.out_produced <= final(buffer)@.len()
            },
        ensures
            out_offset > old(output)@.len() ==> {
                &&& result == Err::<WalkOutcome, Error>(Error::InsufficientSpace)
                &&& *final(self) == *old(self)
                &&& final(output)@ == old(output)@
            },
            out_offset <= old(output)@.len() ==> {
                let handle = old(self).handle();
                let call = walk_call(old(self)@, out_offset, stop_at_block_end);
                &&& final(self).handle() == handle
                &&& exists|buffer: &mut [u8], reply: WalkReply|
                    {
                        &&& (*buffer)@ == old(output)@
                        &&& final(buffer)@ == final(output)@
                        &&& #[trigger] call_ensures(engine, (&handle, input, buffer, call), reply)
                        &&& walk_returns(final(output)@, out_offset, reply, result)
                        &&& final(self)@ == pending_after(old(self)@, reply)
                    }
            },
    {
        let call = match self.begin_walk(output.len(), out_offset, stop_at_block_end) {
            Ok(call) => call,
            Err(error) => {
                return Err(error);
            },
        };
        assert(self.raw == self.handle() && call == walk_call(self@, out_offset, stop_at_block_end));
        let reply = engine(&self.raw, input, output, call);
        self.finish_walk(output, out_offset, reply)
    }

    /// First half of [`Decompressor::decompress_resume`]: what the engine is to be called with,
    /// for an output buffer of `output_len` bytes. Unless the resume is refused, this ends the
    /// session that was under way.
    ///
    /// # Errors
    /// - [`Error::InvalidInput`] if `checkpoint.window_used` exceeds [`WINDOW_SIZE`].
    /// - [`Error::InsufficientSpace`] if the output buffer is smaller than
    ///   `checkpoint.window_used`.
    pub fn begin_resume<'a>(&mut self, output_len: usize, checkpoint: &'a Checkpoint) -> (result:
        Result<ResumeCall<'a>>)
        ensures
            result is Ok <==> resume_admitted(*checkpoint, output_len as nat),
            result matches Ok(call) ==> {
                &&& hands_over(call, *checkpoint)
                &&& final(self)@ == BitCursor::start()
                &&& final(self).handle() == old(self).handle()
            },
            result matches Err(error) ==> {
                &&& resume_refused(*checkpoint, output_len as nat, error)
                &&& *final(self) == *old(self)
            },
    {
        if checkpoint.window_used > WINDOW_SIZE {
            return Err(Error::InvalidInput("checkpoint.window_used > WINDOW_SIZE"));
        }
        if output_len < checkpoint.window_used {
            return Err(Error::InsufficientSpace);
        }
        // Resume starts a fresh decompression session: clear any pending walk state.
        self.reset();
        let window: &[u8] = checkpoint.window.as_slice();
        let dictionary = &window[WINDOW_SIZE - checkpoint.window_used..WINDOW_SIZE];
        Ok(
            ResumeCall {
                saved: BitCursor { bitbuf: checkpoint.bitbuf, bitsleft: checkpoint.bitsleft },
                dictionary,
            },
        )
    }

    /// Second half of [`Decompressor::decompress_resume`]: what the engine's reply means for the
    /// caller.
    pub fn finish_resume(&self, reply: ResumeReply) -> (result: Result<(usize, usize)>)
        ensures
            resume_returns(reply, result),
    {
        match reply.status {
            Status::Success => Ok((reply.in_consumed, reply.out_produced)),
            Status::BadData => Err(Error::BadData),
            Status::InsufficientSpace => Err(Error::InsufficientSpace),
            Status::ShortOutput => Err(Error::ShortOutput),
            Status::BlockEnd => Err(Error::InvalidInput("unexpected BLOCK_END from resume path")),
        }
    }

    /// Resume decompression from a captured [`Checkpoint`].
    ///
    /// The first `checkpoint.window_used` bytes of `output` are overwritten with a copy of the
    /// dictionary window (this is libdeflate's mechanism for priming the back-reference space).
    /// The actual decompressed bytes start at `output[checkpoint.window_used..]`. On success the
    /// call returns the bytes consumed and the bytes produced; the latter counts only those
    /// behind the dictionary.
    ///
    /// `engine` does the copying and the decoding. It is called at most once, with the session's
    /// handle, the two buffers and what the checkpoint holds.
    ///
    /// # Errors
    /// - [`Error::BadData`] for corrupt input.
    /// - [`Error::InsufficientSpace`] if the output buffer is smaller than
    ///   `checkpoint.window_used`, or too small for the stream.
    /// - [`Error::InvalidInput`] if `checkpoint.window_used` exceeds [`WINDOW_SIZE`], or if the
    ///   engine claims to have stopped at a block boundary.
    pub fn decompress_resume<F>(
        &mut self,
        input: &[u8],
        output: &mut [u8],
        checkpoint: &Checkpoint,
        engine: F,
    ) -> (result: Result<(usize, usize)>) where
        F: FnOnce(&H, &[u8], &mut [u8], ResumeCall<'_>) -> ResumeReply,

        requires
            resume_admitted(*checkpoint, old(output)@.len()) ==> {
                let handle = old(self).handle();
                forall|buffer: &mut [u8], call: ResumeCall|
                    (*buffer)@ == old(output)@ && hands_over(call, *checkpoint)
                        ==> #[trigger] call_requires(engine, (&handle, input, buffer, call))
            },
        ensures
            !resume_admitted(*checkpoint, old(output)@.len()) ==> {
                &&& result matches Err(error)
                &&& resume_refused(*checkpoint, old(output)@.len(), error)
                &&& *final(self) == *old(self)
                &&& final(output)@ == old(output)@
            },
            resume_admitted(*checkpoint, old(output)@.len()) ==> {
                let handle = old(self).handle();
                &&& final(self).handle() == handle
                &&& final(self)@ == BitCursor::start()
                &&& exists|buffer: &mut [u8], call: ResumeCall, reply: ResumeReply|
                    {
                        &&& (*buffer)@ == old(output)@
                        &&& final(buffer)@ == final(output)@
                        &&& hands_over(call, *checkpoint)
                        &&& #[trigger] call_ensures(engine, (&handle, input, buffer, call), reply)
                        &&& resume_returns(reply, result)
                    }
            },
    {
        let call = match self.begin_resume(output.len(), checkpoint) {
            Ok(call) => call,
            Err(error) => {
                return Err(error);
            },
        };
        let reply = engine(&self.raw, input, output, call);
        self.finish_resume(reply)
    }
}

} // verus!
