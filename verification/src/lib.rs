//! Random access into DEFLATE streams: the session logic around a decoding engine with
//! zran-style resume and walk entrypoints.
//!
//! Use [`Decompressor`] to own an engine handle; call [`Decompressor::decompress_walk`] to drive
//! index-build (stopping at end-of-block boundaries to capture [`Checkpoint`]s); call
//! [`Decompressor::decompress_resume`] to start random-access reads from a captured checkpoint.
//! Each of the two takes the engine call as a function: the library decides what the engine is
//! called with and what its reply means. The contracts hold for every engine whose replies at a
//! block end do not count more output than the buffer holds.
//!
//! [`calls`] holds what every call does, in terms of what goes in and what comes out. [`laws`] holds
//! what is true across calls, and [`access`] what index build and random access give the caller.
//! The laws on whole streams are about an engine that follows a decoder, as [`stream`] puts it: it
//! decodes what it is given, reports what it did, and fails only where a stream is corrupt or does
//! not fit. Of such an engine, a chain of walks decompresses the stream as a whole, and a resume
//! from any of its checkpoints produces the rest of it. That libdeflate is such an engine, and that
//! its back-references reach no further than the window, is assumed and not proved.

pub mod access;
pub mod calls;
pub mod checkpoint;
pub mod decompressor;
pub mod engine;
pub mod error;
pub mod laws;
pub mod stream;

pub use checkpoint::{snapshot_window, Checkpoint, WINDOW_SIZE};
pub use decompressor::{Decompressor, WalkOutcome};
pub use engine::{BitCursor, ResumeCall, ResumeReply, Status, WalkCall, WalkReply};
pub use error::{Error, Result};
