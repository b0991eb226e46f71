# libdeflate_zran

Verified session logic for random access into large DEFLATE streams, around a patched
[`libdeflate`](https://github.com/ebiggers/libdeflate) with zran-style resume and walk
entrypoints.

- `Decompressor::decompress_walk(stop_at_block_end: true)` stops at each non-final DEFLATE
  end-of-block boundary and returns a `Checkpoint` with the bit-buffer state and the 32 KiB
  sliding window.
- `Decompressor::decompress_resume(&checkpoint)` resumes from the captured state.

## Layout

- `src/` is the library, proved with Verus. It decides what the engine is called with and what
  each reply means. The engine itself comes in as a function. The contracts hold for every engine
  whose replies at a block end do not count more output than the buffer holds.
  - `checkpoint.rs`: the sliding window and its snapshots.
  - `engine.rs`: the arguments and replies of engine calls.
  - `decompressor.rs`: the session.
  - `stream.rs`: a model of the stream behind an engine.
  - `laws.rs`: what holds across calls. For an engine that follows a decoder (`stream.rs` says
    what that means), walks of a stream that decompresses and fits succeed until done; block by
    block or in one go, they consume and produce the same; and a resume from any checkpoint
    produces the rest. Each error comes back where the stream is corrupt or does not fit, and
    nowhere else. That the C engine follows a decoder whose back-references stay within the
    window is assumed, not proved.
- `app/` runs the session on the C engine of `libdeflate-zran-sys`. All of the foreign calls are
  there.
- `tests/` drives the library with scripted engines and with a small inflater.
