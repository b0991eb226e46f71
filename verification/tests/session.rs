//! The session around a scripted engine: what each call is handed, what each reply leads to.

use std::cell::Cell;

use libdeflate_zran::{
    snapshot_window, BitCursor, Checkpoint, Decompressor, Error, ResumeCall, ResumeReply, Status,
    WalkCall, WalkOutcome, WalkReply, WINDOW_SIZE,
};

/// A handle that counts the engine calls made with it.
fn session() -> Decompressor<Cell<usize>> {
    Decompressor::new(Some(Cell::new(0))).unwrap()
}

fn walk_reply(status: Status, bitbuf: u64, bitsleft: u32) -> WalkReply {
    WalkReply {
        status,
        cursor: BitCursor { bitbuf, bitsleft },
        in_consumed: 11,
        out_produced: 2,
    }
}

/// One walk into a 16-byte buffer at offset 4; gives back the result and the call.
fn walk(
    dec: &mut Decompressor<Cell<usize>>,
    stop: bool,
    reply: WalkReply,
) -> (Result<WalkOutcome, Error>, WalkCall) {
    let mut output: [u8; 16] = [9u8; 16];
    let seen: Cell<Option<WalkCall>> = Cell::new(None);
    let result: Result<WalkOutcome, Error> =
        dec.decompress_walk(b"in", &mut output, 4, stop, |handle, input, buffer, call| {
            handle.set(handle.get() + 1);
            assert_eq!(input, b"in");
            assert_eq!(buffer, [9u8; 16]);
            buffer[4] = 40;
            buffer[5] = 50;
            seen.set(Some(call));
            reply
        });
    assert_eq!(output[..7], [9, 9, 9, 9, 40, 50, 9]);
    (result, seen.get().unwrap())
}

fn pending(dec: &Decompressor<Cell<usize>>) -> (u64, u32) {
    let call: WalkCall = dec.begin_walk(0, 0, false).unwrap();
    (call.init.bitbuf, call.init.bitsleft)
}

fn checkpoint(produced: &[u8]) -> Checkpoint {
    snapshot_window(produced, 5, 3)
}

fn resume(
    dec: &mut Decompressor<Cell<usize>>,
    ck: &Checkpoint,
    status: Status,
) -> Result<(usize, usize), Error> {
    let mut output: [u8; 8] = [0u8; 8];
    dec.decompress_resume(b"rest", &mut output, ck, |handle, input, buffer, call| {
        handle.set(handle.get() + 1);
        assert_eq!(input, b"rest");
        assert_eq!(buffer.len(), 8);
        assert_eq!(call.saved, BitCursor { bitbuf: 5, bitsleft: 3 });
        assert_eq!(call.dictionary, b"xyz");
        ResumeReply { status, in_consumed: 4, out_produced: 1 }
    })
}

#[test]
fn no_handle_is_out_of_memory() {
    let result: Result<Decompressor<()>, Error> = Decompressor::new(None);
    assert_eq!(result.err(), Some(Error::OutOfMemory));
}

#[test]
fn fresh_session_walks_from_a_byte_boundary() {
    let mut dec: Decompressor<Cell<usize>> = session();
    let (_, call) = walk(&mut dec, true, walk_reply(Status::Success, 0, 0));
    assert_eq!(
        call,
        WalkCall {
            init: BitCursor { bitbuf: 0, bitsleft: 0 },
            out_offset: 4,
            stop_at_block_end: 1,
        }
    );
    let (_, call) = walk(&mut dec, false, walk_reply(Status::Success, 0, 0));
    assert_eq!(call.stop_at_block_end, 0);
}

#[test]
fn block_end_hands_out_a_checkpoint_and_keeps_the_bits() {
    let mut dec: Decompressor<Cell<usize>> = session();
    let (result, _) = walk(&mut dec, true, walk_reply(Status::BlockEnd, 6, 3));
    let outcome: WalkOutcome = result.unwrap();
    assert_eq!((outcome.in_consumed, outcome.out_produced, outcome.done), (11, 2, false));
    let ck: Checkpoint = outcome.checkpoint.unwrap();
    assert_eq!((ck.bitbuf, ck.bitsleft, ck.window_used), (6, 3, 6));
    assert_eq!(ck.window[WINDOW_SIZE - 6..], [9, 9, 9, 9, 40, 50]);
    assert!(ck.window[..WINDOW_SIZE - 6].iter().all(|&b| b == 0));

    let (_, call) = walk(&mut dec, true, walk_reply(Status::BlockEnd, 1, 1));
    assert_eq!(call.init, BitCursor { bitbuf: 6, bitsleft: 3 });
    assert_eq!(pending(&dec), (1, 1));
}

#[test]
fn success_ends_the_stream_and_clears_the_bits() {
    let mut dec: Decompressor<Cell<usize>> = session();
    let _ = walk(&mut dec, true, walk_reply(Status::BlockEnd, 6, 3));
    let (result, _) = walk(&mut dec, true, walk_reply(Status::Success, 1, 1));
    let outcome: WalkOutcome = result.unwrap();
    assert_eq!((outcome.in_consumed, outcome.out_produced, outcome.done), (11, 2, true));
    assert!(outcome.checkpoint.is_none());
    assert_eq!(pending(&dec), (0, 0));
}

#[test]
fn failed_walks_keep_the_bits() {
    let mut dec: Decompressor<Cell<usize>> = session();
    let _ = walk(&mut dec, true, walk_reply(Status::BlockEnd, 6, 3));
    let failures: [(Status, Error); 3] = [
        (Status::BadData, Error::BadData),
        (Status::InsufficientSpace, Error::InsufficientSpace),
        (Status::ShortOutput, Error::ShortOutput),
    ];
    for (status, error) in failures {
        let (result, call) = walk(&mut dec, true, walk_reply(status, 1, 1));
        assert_eq!(result.err(), Some(error));
        assert_eq!(call.init, BitCursor { bitbuf: 6, bitsleft: 3 });
        assert_eq!(pending(&dec), (6, 3));
    }
}

#[test]
fn engine_gets_the_handle_of_the_session() {
    let mut dec: Decompressor<Cell<usize>> = session();
    let _ = walk(&mut dec, true, walk_reply(Status::BlockEnd, 6, 3));
    let _ = resume(&mut dec, &checkpoint(b"xyz"), Status::Success);
    let mut output: [u8; 4] = [0u8; 4];
    let result: Result<WalkOutcome, Error> =
        dec.decompress_walk(b"", &mut output, 0, false, |handle, _, _, _| {
            assert_eq!(handle.get(), 2);
            walk_reply(Status::Success, 0, 0)
        });
    assert!(result.unwrap().done);
}

#[test]
fn reset_starts_over() {
    let mut dec: Decompressor<Cell<usize>> = session();
    let _ = walk(&mut dec, true, walk_reply(Status::BlockEnd, 6, 3));
    dec.reset();
    assert_eq!(pending(&dec), (0, 0));
}

#[test]
fn offset_outside_the_buffer_is_refused_without_an_engine_call() {
    let mut dec: Decompressor<Cell<usize>> = session();
    let _ = walk(&mut dec, true, walk_reply(Status::BlockEnd, 6, 3));
    let mut output: [u8; 4] = [1, 2, 3, 4];
    let err: Error = dec
        .decompress_walk(b"in", &mut output, 5, true, |_, _, _, _| panic!("engine called"))
        .unwrap_err();
    assert_eq!(err, Error::InsufficientSpace);
    assert_eq!(output, [1, 2, 3, 4]);
    assert_eq!(pending(&dec), (6, 3));
    assert!(dec.begin_walk(4, 4, true).is_ok());
}

#[test]
fn resume_hands_over_the_checkpoint_and_drops_the_session() {
    let mut dec: Decompressor<Cell<usize>> = session();
    let _ = walk(&mut dec, true, walk_reply(Status::BlockEnd, 6, 3));
    assert_eq!(resume(&mut dec, &checkpoint(b"xyz"), Status::Success), Ok((4, 1)));
    assert_eq!(pending(&dec), (0, 0));
}

#[test]
fn resume_failures() {
    let mut dec: Decompressor<Cell<usize>> = session();
    let ck: Checkpoint = checkpoint(b"xyz");
    assert_eq!(resume(&mut dec, &ck, Status::BadData), Err(Error::BadData));
    assert_eq!(resume(&mut dec, &ck, Status::InsufficientSpace), Err(Error::InsufficientSpace));
    assert_eq!(resume(&mut dec, &ck, Status::ShortOutput), Err(Error::ShortOutput));
    assert_eq!(
        resume(&mut dec, &ck, Status::BlockEnd),
        Err(Error::InvalidInput("unexpected BLOCK_END from resume path"))
    );
}

#[test]
fn failed_resume_has_dropped_the_session() {
    let mut dec: Decompressor<Cell<usize>> = session();
    let _ = walk(&mut dec, true, walk_reply(Status::BlockEnd, 6, 3));
    assert!(resume(&mut dec, &checkpoint(b"xyz"), Status::BadData).is_err());
    assert_eq!(pending(&dec), (0, 0));
}

#[test]
fn resume_into_too_small_a_buffer_is_refused() {
    let mut dec: Decompressor<Cell<usize>> = session();
    let _ = walk(&mut dec, true, walk_reply(Status::BlockEnd, 6, 3));
    let mut output: [u8; 2] = [7, 8];
    let err: Error = dec
        .decompress_resume(b"", &mut output, &checkpoint(b"xyz"), |_, _, _, _| {
            panic!("engine called")
        })
        .unwrap_err();
    assert_eq!(err, Error::InsufficientSpace);
    assert_eq!(output, [7, 8]);
    assert_eq!(pending(&dec), (6, 3));
}

#[test]
fn resume_from_an_oversized_window_is_refused_first() {
    let mut dec: Decompressor<Cell<usize>> = session();
    let _ = walk(&mut dec, true, walk_reply(Status::BlockEnd, 6, 3));
    let mut ck: Checkpoint = checkpoint(b"xyz");
    ck.window_used = WINDOW_SIZE + 1;
    let mut output: [u8; 2] = [7, 8];
    let err: Error = dec
        .decompress_resume(b"", &mut output, &ck, |_, _, _, _| panic!("engine called"))
        .unwrap_err();
    assert_eq!(err, Error::InvalidInput("checkpoint.window_used > WINDOW_SIZE"));
    assert_eq!(output, [7, 8]);
    assert_eq!(pending(&dec), (6, 3));
}

#[test]
fn resume_takes_empty_and_full_dictionaries() {
    let mut dec: Decompressor<Cell<usize>> = session();
    let empty: Checkpoint = checkpoint(b"");
    let call: ResumeCall = dec.begin_resume(0, &empty).unwrap();
    assert_eq!(call.saved, BitCursor { bitbuf: 5, bitsleft: 3 });
    assert_eq!(call.dictionary, b"");
    let full: Vec<u8> = (0..WINDOW_SIZE + 3).map(|i| (i % 251) as u8).collect();
    let ck: Checkpoint = checkpoint(&full);
    assert_eq!(dec.begin_resume(WINDOW_SIZE, &ck).unwrap().dictionary, &full[3..]);
    assert_eq!(dec.begin_resume(WINDOW_SIZE - 1, &ck).err(), Some(Error::InsufficientSpace));
}

#[test]
fn halves_make_up_the_whole() {
    let mut dec: Decompressor<Cell<usize>> = session();
    let reply: WalkReply = walk_reply(Status::BlockEnd, 2, 2);
    let outcome: WalkOutcome = dec.finish_walk(b"0123456789", 3, reply).unwrap();
    let ck: Checkpoint = outcome.checkpoint.unwrap();
    assert_eq!(ck.window[WINDOW_SIZE - ck.window_used..], *b"01234");
    assert_eq!(pending(&dec), (2, 2));
    let reply: ResumeReply =
        ResumeReply { status: Status::Success, in_consumed: 1, out_produced: 2 };
    assert_eq!(dec.finish_resume(reply), Ok((1, 2)));
}
