//! End-to-end: compress a buffer, walk it capturing checkpoints, then resume from each checkpoint
//! and confirm byte-identical output to a continuous decompress. The engine is a small inflater
//! for stored and fixed-Huffman blocks.

use std::collections::HashMap;

use libdeflate_zran::{
    BitCursor, Checkpoint, Decompressor, Error, ResumeCall, ResumeReply, Status, WalkCall,
    WalkOutcome, WalkReply, WINDOW_SIZE,
};

const LENGTH_BASE: [usize; 29] = [
    3, 4, 5, 6, 7, 8, 9, 10, 11, 13, 15, 17, 19, 23, 27, 31, 35, 43, 51, 59, 67, 83, 99, 115, 131,
    163, 195, 227, 258,
];
const LENGTH_EXTRA: [u32; 29] = [
    0, 0, 0, 0, 0, 0, 0, 0, 1, 1, 1, 1, 2, 2, 2, 2, 3, 3, 3, 3, 4, 4, 4, 4, 5, 5, 5, 5, 0,
];
const DIST_BASE: [usize; 30] = [
    1, 2, 3, 4, 5, 7, 9, 13, 17, 25, 33, 49, 65, 97, 129, 193, 257, 385, 513, 769, 1025, 1537,
    2049, 3073, 4097, 6145, 8193, 12289, 16385, 24577,
];
const DIST_EXTRA: [u32; 30] = [
    0, 0, 0, 0, 1, 1, 2, 2, 3, 3, 4, 4, 5, 5, 6, 6, 7, 7, 8, 8, 9, 9, 10, 10, 11, 11, 12, 12, 13,
    13,
];

/// Code and length of a literal/length symbol in the fixed Huffman code.
fn fixed_code(symbol: usize) -> (u32, u32) {
    let s: u32 = symbol as u32;
    if s < 144 {
        (0x30 + s, 8)
    } else if s < 256 {
        (0x190 + s - 144, 9)
    } else if s < 280 {
        (s - 256, 7)
    } else {
        (0xC0 + s - 280, 8)
    }
}

struct BitWriter {
    out: Vec<u8>,
    buf: u64,
    count: u32,
}

impl BitWriter {
    fn bits(&mut self, value: u32, count: u32) {
        self.buf |= u64::from(value) << self.count;
        self.count += count;
        while self.count >= 8 {
            self.out.push((self.buf & 0xff) as u8);
            self.buf >>= 8;
            self.count -= 8;
        }
    }

    /// Huffman codes go out from their most significant bit on.
    fn code(&mut self, code: u32, count: u32) {
        for i in (0..count).rev() {
            self.bits((code >> i) & 1, 1);
        }
    }

    fn finish(mut self) -> Vec<u8> {
        if self.count > 0 {
            self.bits(0, 8 - self.count);
        }
        self.out
    }
}

fn encode_raw_deflate(data: &[u8]) -> Vec<u8> {
    encode_in_blocks(data, 64 * 1024)
}

/// Fixed-Huffman encoder with greedy matches, one block per `block_len` bytes.
fn encode_in_blocks(data: &[u8], block_len: usize) -> Vec<u8> {
    let mut w: BitWriter = BitWriter { out: Vec::new(), buf: 0, count: 0 };
    let mut last_seen: HashMap<[u8; 3], usize> = HashMap::new();
    let mut pos: usize = 0;
    loop {
        let end: usize = data.len().min(pos + block_len);
        w.bits(u32::from(end == data.len()), 1);
        w.bits(1, 2);
        while pos < end {
            let mut len: usize = 0;
            let mut dist: usize = 0;
            if pos + 3 <= end {
                let key: [u8; 3] = [data[pos], data[pos + 1], data[pos + 2]];
                if let Some(&prev) = last_seen.get(&key) {
                    if pos - prev <= WINDOW_SIZE {
                        dist = pos - prev;
                        while len < 258 && pos + len < end && data[prev + len] == data[pos + len] {
                            len += 1;
                        }
                    }
                }
                last_seen.insert(key, pos);
            }
            if len >= 3 {
                let l: usize = (0..29).rev().find(|&i| LENGTH_BASE[i] <= len).unwrap();
                let (code, count) = fixed_code(257 + l);
                w.code(code, count);
                w.bits((len - LENGTH_BASE[l]) as u32, LENGTH_EXTRA[l]);
                let d: usize = (0..30).rev().find(|&i| DIST_BASE[i] <= dist).unwrap();
                w.code(d as u32, 5);
                w.bits((dist - DIST_BASE[d]) as u32, DIST_EXTRA[d]);
                pos += len;
            } else {
                let (code, count) = fixed_code(usize::from(data[pos]));
                w.code(code, count);
                pos += 1;
            }
        }
        let (code, count) = fixed_code(256);
        w.code(code, count);
        if end == data.len() {
            return w.finish();
        }
    }
}

struct BitReader<'a> {
    input: &'a [u8],
    pos: usize,
    cursor: BitCursor,
}

impl BitReader<'_> {
    fn bits(&mut self, count: u32) -> Result<u32, Status> {
        while self.cursor.bitsleft < count {
            let byte: u8 = *self.input.get(self.pos).ok_or(Status::BadData)?;
            self.cursor.bitbuf |= u64::from(byte) << self.cursor.bitsleft;
            self.cursor.bitsleft += 8;
            self.pos += 1;
        }
        let value: u64 = self.cursor.bitbuf & ((1u64 << count) - 1);
        self.cursor.bitbuf >>= count;
        self.cursor.bitsleft -= count;
        Ok(value as u32)
    }

    fn literal_or_length(&mut self) -> Result<usize, Status> {
        let mut code: u32 = 0;
        for count in 1..10 {
            code = (code << 1) | self.bits(1)?;
            for symbol in 0..288 {
                if count >= 7 && fixed_code(symbol) == (code, count) {
                    return Ok(symbol);
                }
            }
        }
        Err(Status::BadData)
    }

    fn distance(&mut self) -> Result<usize, Status> {
        let mut code: usize = 0;
        for _ in 0..5 {
            code = (code << 1) | self.bits(1)? as usize;
        }
        if code >= 30 {
            return Err(Status::BadData);
        }
        Ok(DIST_BASE[code] + self.bits(DIST_EXTRA[code])? as usize)
    }
}

/// Decodes one block to `output[*at..]`; tells whether it was the final one.
fn inflate_block(r: &mut BitReader, output: &mut [u8], at: &mut usize) -> Result<bool, Status> {
    let last: bool = r.bits(1)? == 1;
    match r.bits(2)? {
        0 => {
            r.cursor = BitCursor { bitbuf: 0, bitsleft: 0 };
            let len: u32 = r.bits(16)?;
            if r.bits(16)? != len ^ 0xffff {
                return Err(Status::BadData);
            }
            for _ in 0..len {
                let byte: u8 = r.bits(8)? as u8;
                *output.get_mut(*at).ok_or(Status::InsufficientSpace)? = byte;
                *at += 1;
            }
        }
        1 => loop {
            let symbol: usize = r.literal_or_length()?;
            if symbol < 256 {
                *output.get_mut(*at).ok_or(Status::InsufficientSpace)? = symbol as u8;
                *at += 1;
            } else if symbol == 256 {
                break;
            } else if symbol < 286 {
                let l: usize = symbol - 257;
                let len: usize = LENGTH_BASE[l] + r.bits(LENGTH_EXTRA[l])? as usize;
                if len > output.len() - *at {
                    return Err(Status::InsufficientSpace);
                }
                let dist: usize = r.distance()?;
                if dist > *at {
                    return Err(Status::BadData);
                }
                for _ in 0..len {
                    output[*at] = output[*at - dist];
                    *at += 1;
                }
            } else {
                return Err(Status::BadData);
            }
        },
        _ => return Err(Status::BadData),
    }
    Ok(last)
}

fn walk_engine(_handle: &(), input: &[u8], output: &mut [u8], call: WalkCall) -> WalkReply {
    let mut r: BitReader = BitReader { input, pos: 0, cursor: call.init };
    let mut at: usize = call.out_offset;
    let status: Status = loop {
        match inflate_block(&mut r, output, &mut at) {
            Ok(true) => break Status::Success,
            Ok(false) if call.stop_at_block_end != 0 => break Status::BlockEnd,
            Ok(false) => {}
            Err(status) => break status,
        }
    };
    WalkReply {
        status,
        cursor: r.cursor,
        in_consumed: r.pos,
        out_produced: at - call.out_offset,
    }
}

fn resume_engine(
    handle: &(),
    input: &[u8],
    output: &mut [u8],
    call: ResumeCall<'_>,
) -> ResumeReply {
    let used: usize = call.dictionary.len();
    output[..used].copy_from_slice(call.dictionary);
    let walk: WalkCall = WalkCall { init: call.saved, out_offset: used, stop_at_block_end: 0 };
    let reply: WalkReply = walk_engine(handle, input, output, walk);
    ResumeReply {
        status: reply.status,
        in_consumed: reply.in_consumed,
        out_produced: reply.out_produced,
    }
}

fn semi_compressible() -> Vec<u8> {
    const T: [u8; 8] = [0xDE, 0xAD, 0xBE, 0xEF, 0xCA, 0xFE, 0x42, 0x17];
    (0..256 * 1024usize).map(|i| T[i & 7] ^ ((i >> 5) as u8)).collect()
}

/// Walks the whole stream; gives back the output and, for each checkpoint, where in the input and
/// in the output it stands.
fn walk_all(compressed: &[u8], room: usize) -> (Vec<u8>, Vec<(usize, usize, Checkpoint)>) {
    let mut dec: Decompressor<()> = Decompressor::new(Some(())).expect("alloc");
    let mut sink: Vec<u8> = vec![0u8; room];
    let mut in_pos: usize = 0;
    let mut out_pos: usize = 0;
    let mut checkpoints: Vec<(usize, usize, Checkpoint)> = Vec::new();
    loop {
        let outcome: WalkOutcome = dec
            .decompress_walk(&compressed[in_pos..], &mut sink, out_pos, true, walk_engine)
            .expect("walk should succeed");
        in_pos += outcome.in_consumed;
        out_pos += outcome.out_produced;
        assert_eq!(outcome.done, outcome.checkpoint.is_none());
        if let Some(ck) = outcome.checkpoint {
            checkpoints.push((in_pos, out_pos, ck));
        }
        if outcome.done {
            break;
        }
    }
    sink.truncate(out_pos);
    (sink, checkpoints)
}

#[test]
fn walk_and_resume_round_trip() {
    // A semi-compressible payload (256 KiB) that the encoder splits into more than one DEFLATE
    // block.
    let payload: Vec<u8> = semi_compressible();

    let compressed: Vec<u8> = encode_raw_deflate(&payload);
    assert!(compressed.len() < payload.len(), "should compress");

    // Walk capturing the first checkpoint.
    let mut dec: Decompressor<()> = Decompressor::new(Some(())).expect("alloc");
    let mut sink: Vec<u8> = vec![0u8; payload.len() + 1024];

    let mut in_pos: usize = 0usize;
    let mut out_pos: usize = 0usize;
    let mut checkpoints: Vec<(usize, usize, Checkpoint)> = Vec::new();
    loop {
        let WalkOutcome { in_consumed, out_produced, done, checkpoint } = dec
            .decompress_walk(
                &compressed[in_pos..],
                &mut sink,
                /* out_offset = */ out_pos,
                /* stop = */ true,
                walk_engine,
            )
            .expect("walk should succeed");
        in_pos += in_consumed;
        out_pos += out_produced;
        if let Some(ck) = checkpoint {
            checkpoints.push((in_pos, out_pos, ck));
        }
        if done {
            break;
        }
    }

    assert_eq!(out_pos, payload.len(), "walk produced full payload");
    assert_eq!(&sink[..out_pos], &payload[..], "walk output matches canonical");
    assert!(!checkpoints.is_empty(), "expected at least one end-of-block checkpoint");

    // Resume from the first checkpoint and confirm the produced bytes match the corresponding
    // payload region.
    let (in_at_ck, out_at_ck, ck) = &checkpoints[0];
    let mut sink2: Vec<u8> = vec![0u8; payload.len() + 1024];
    let (_in_used, out_produced) = dec
        .decompress_resume(&compressed[*in_at_ck..], &mut sink2, ck, resume_engine)
        .expect("resume should succeed");

    let expected_len: usize = payload.len() - *out_at_ck;
    assert_eq!(out_produced, expected_len, "resume output length");
    assert_eq!(
        &sink2[ck.window_used..ck.window_used + out_produced],
        &payload[*out_at_ck..],
        "resume output matches canonical payload at the checkpoint position",
    );
}

#[test]
fn walk_without_stop_decompresses_full_stream() {
    let payload: Vec<u8> = vec![b'x'; 4096];
    let compressed: Vec<u8> = encode_raw_deflate(&payload);
    let mut dec: Decompressor<()> = Decompressor::new(Some(())).unwrap();
    let mut sink: Vec<u8> = vec![0u8; 8192];
    let outcome: WalkOutcome =
        dec.decompress_walk(&compressed, &mut sink, 0, false, walk_engine).unwrap();
    assert!(outcome.done);
    assert!(outcome.checkpoint.is_none());
    assert_eq!(&sink[..outcome.out_produced], &payload[..]);
}

#[test]
fn bad_data_returns_bad_data_error() {
    let mut dec: Decompressor<()> = Decompressor::new(Some(())).unwrap();
    let mut sink: Vec<u8> = vec![0u8; 64];
    let err: Error =
        dec.decompress_walk(b"\xff\xff\xff\xff", &mut sink, 0, false, walk_engine).unwrap_err();
    assert_eq!(err, Error::BadData);
}

#[test]
fn every_checkpoint_resumes_to_the_rest_of_the_payload() {
    let payload: Vec<u8> = semi_compressible();
    let compressed: Vec<u8> = encode_in_blocks(&payload, 10_000);
    let (walked, checkpoints) = walk_all(&compressed, payload.len());
    assert_eq!(walked, payload);
    assert_eq!(checkpoints.len(), 26);
    let mut cursors_inside_a_byte: usize = 0;
    for (in_at, out_at, ck) in &checkpoints {
        assert!(ck.bitsleft <= 7);
        assert!(ck.bitbuf < 1 << ck.bitsleft);
        cursors_inside_a_byte += usize::from(ck.bitsleft > 0);
        assert_eq!(ck.window_used, (*out_at).min(WINDOW_SIZE));
        assert_eq!(
            &ck.window[WINDOW_SIZE - ck.window_used..],
            &payload[*out_at - ck.window_used..*out_at]
        );

        let rest: usize = payload.len() - *out_at;
        let mut dec: Decompressor<()> = Decompressor::new(Some(())).unwrap();
        let mut sink: Vec<u8> = vec![0u8; ck.window_used + rest];
        let (_, produced) =
            dec.decompress_resume(&compressed[*in_at..], &mut sink, ck, resume_engine).unwrap();
        assert_eq!(produced, rest);
        assert_eq!(&sink[..ck.window_used], &ck.window[WINDOW_SIZE - ck.window_used..]);
        assert_eq!(&sink[ck.window_used..], &payload[*out_at..]);

        // One byte short of room for the rest of the stream.
        let mut tight: Vec<u8> = vec![0u8; ck.window_used + rest - 1];
        let err: Error =
            dec.decompress_resume(&compressed[*in_at..], &mut tight, ck, resume_engine).unwrap_err();
        assert_eq!(err, Error::InsufficientSpace);
    }
    assert!(cursors_inside_a_byte > 0);
}

#[test]
fn block_by_block_and_in_one_go_decode_alike() {
    let payload: Vec<u8> = semi_compressible();
    let mut compressed: Vec<u8> = encode_in_blocks(&payload, 40_000);
    let stream_len: usize = compressed.len();
    compressed.extend_from_slice(b"behind the stream");

    let mut dec: Decompressor<()> = Decompressor::new(Some(())).unwrap();
    let mut stepwise: Vec<u8> = vec![0u8; payload.len()];
    let mut in_pos: usize = 0;
    let mut out_pos: usize = 0;
    let mut marks: Vec<(usize, usize, Checkpoint)> = Vec::new();
    loop {
        let outcome: WalkOutcome = dec
            .decompress_walk(&compressed[in_pos..], &mut stepwise, out_pos, true, walk_engine)
            .unwrap();
        in_pos += outcome.in_consumed;
        out_pos += outcome.out_produced;
        match outcome.checkpoint {
            Some(ck) => marks.push((in_pos, out_pos, ck)),
            None => break,
        }
    }
    assert_eq!((in_pos, out_pos), (stream_len, payload.len()));
    // Seven blocks, of which the last is final.
    assert_eq!(marks.len(), 6);

    let mut whole: Vec<u8> = vec![0u8; payload.len()];
    let outcome: WalkOutcome =
        dec.decompress_walk(&compressed, &mut whole, 0, false, walk_engine).unwrap();
    assert!(outcome.done);
    assert_eq!((outcome.in_consumed, outcome.out_produced), (in_pos, out_pos));
    assert_eq!(stepwise, whole);

    for (in_at, out_at, ck) in &marks {
        let mut rest: Vec<u8> = vec![0u8; WINDOW_SIZE + payload.len()];
        let (consumed, produced) =
            dec.decompress_resume(&compressed[*in_at..], &mut rest, ck, resume_engine).unwrap();
        assert_eq!((in_at + consumed, out_at + produced), (stream_len, payload.len()));
    }
}

#[test]
fn damaged_and_oversized_streams_name_their_error() {
    let payload: Vec<u8> = semi_compressible();
    let compressed: Vec<u8> = encode_in_blocks(&payload, 100_000);
    let cut: &[u8] = &compressed[..compressed.len() - 1];
    let mut sink: Vec<u8> = vec![0u8; payload.len()];
    let mut dec: Decompressor<()> = Decompressor::new(Some(())).unwrap();

    // In one go.
    let err: Error = dec.decompress_walk(cut, &mut sink, 0, false, walk_engine).unwrap_err();
    assert_eq!(err, Error::BadData);
    let short: usize = payload.len() - 1;
    let err: Error = dec
        .decompress_walk(&compressed, &mut sink[..short], 0, false, walk_engine)
        .unwrap_err();
    assert_eq!(err, Error::InsufficientSpace);
    // The buffer is full before the damage is met.
    let err: Error =
        dec.decompress_walk(cut, &mut sink[..1000], 0, false, walk_engine).unwrap_err();
    assert_eq!(err, Error::InsufficientSpace);

    // Block by block: only the walk of the damaged block fails.
    let mut in_pos: usize = 0;
    let mut out_pos: usize = 0;
    let mut last: Option<Checkpoint> = None;
    for _ in 0..2 {
        let outcome: WalkOutcome =
            dec.decompress_walk(&cut[in_pos..], &mut sink, out_pos, true, walk_engine).unwrap();
        assert!(!outcome.done);
        in_pos += outcome.in_consumed;
        out_pos += outcome.out_produced;
        last = outcome.checkpoint;
    }
    assert_eq!(out_pos, 200_000);
    let err: Error =
        dec.decompress_walk(&cut[in_pos..], &mut sink, out_pos, true, walk_engine).unwrap_err();
    assert_eq!(err, Error::BadData);
    let err: Error = dec
        .decompress_walk(&compressed[in_pos..], &mut sink[..short], out_pos, true, walk_engine)
        .unwrap_err();
    assert_eq!(err, Error::InsufficientSpace);

    // Resumed.
    let ck: Checkpoint = last.unwrap();
    let mut output: Vec<u8> = vec![0u8; ck.window_used + payload.len() - out_pos];
    let err: Error =
        dec.decompress_resume(&cut[in_pos..], &mut output, &ck, resume_engine).unwrap_err();
    assert_eq!(err, Error::BadData);
    let short: usize = output.len() - 1;
    let err: Error = dec
        .decompress_resume(&compressed[in_pos..], &mut output[..short], &ck, resume_engine)
        .unwrap_err();
    assert_eq!(err, Error::InsufficientSpace);
}

#[test]
fn resume_from_a_session_that_was_given_up() {
    let payload: Vec<u8> = semi_compressible();
    let compressed: Vec<u8> = encode_in_blocks(&payload, 90_000);
    let mut dec: Decompressor<()> = Decompressor::new(Some(())).unwrap();
    let mut sink: Vec<u8> = vec![0u8; 90_000];
    let first: WalkOutcome =
        dec.decompress_walk(&compressed, &mut sink, 0, true, walk_engine).unwrap();
    let ck: Checkpoint = first.checkpoint.unwrap();
    let rest: usize = payload.len() - 90_000;
    let mut output: Vec<u8> = vec![0u8; ck.window_used + rest];
    let (consumed, produced) = dec
        .decompress_resume(&compressed[first.in_consumed..], &mut output, &ck, resume_engine)
        .unwrap();
    assert_eq!((first.in_consumed + consumed, produced), (compressed.len(), rest));
    assert_eq!(&output[ck.window_used..], &payload[90_000..]);
}

#[test]
fn a_session_may_end_without_further_stops() {
    let payload: Vec<u8> = semi_compressible();
    let compressed: Vec<u8> = encode_in_blocks(&payload, 50_000);
    let mut dec: Decompressor<()> = Decompressor::new(Some(())).unwrap();
    let mut sink: Vec<u8> = vec![0u8; payload.len()];
    let first: WalkOutcome =
        dec.decompress_walk(&compressed, &mut sink, 0, true, walk_engine).unwrap();
    assert!(!first.done);
    assert_eq!(first.out_produced, 50_000);
    let rest: WalkOutcome = dec
        .decompress_walk(
            &compressed[first.in_consumed..],
            &mut sink,
            first.out_produced,
            false,
            walk_engine,
        )
        .unwrap();
    assert!(rest.done);
    assert_eq!(sink, payload);
}

#[test]
fn walk_reports_too_small_a_buffer_and_can_be_repeated() {
    let payload: Vec<u8> = semi_compressible();
    let compressed: Vec<u8> = encode_in_blocks(&payload, 100_001);
    let mut dec: Decompressor<()> = Decompressor::new(Some(())).unwrap();
    let mut sink: Vec<u8> = vec![0u8; payload.len()];
    let first: WalkOutcome =
        dec.decompress_walk(&compressed, &mut sink, 0, true, walk_engine).unwrap();
    let rest: &[u8] = &compressed[first.in_consumed..];
    let at: usize = first.out_produced;
    let err: Error =
        dec.decompress_walk(rest, &mut sink[..at + 10], at, true, walk_engine).unwrap_err();
    assert_eq!(err, Error::InsufficientSpace);
    let again: WalkOutcome = dec.decompress_walk(rest, &mut sink, at, false, walk_engine).unwrap();
    assert!(again.done);
    assert_eq!(sink, payload);
}

#[test]
fn stored_blocks_are_walked_too() {
    // Two stored blocks, "abc" and "de", the second one final.
    let compressed: [u8; 15] = [
        0x00, 0x03, 0x00, 0xfc, 0xff, b'a', b'b', b'c', 0x01, 0x02, 0x00, 0xfd, 0xff, b'd', b'e',
    ];
    let (walked, checkpoints) = walk_all(&compressed, 5);
    assert_eq!(walked, b"abcde");
    assert_eq!(checkpoints.len(), 1);
    let (in_at, out_at, ck) = &checkpoints[0];
    assert_eq!((*in_at, *out_at), (8, 3));
    assert_eq!((ck.bitbuf, ck.bitsleft, ck.window_used), (0, 0, 3));
}
