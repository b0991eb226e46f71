//! The sliding window and the checkpoints that carry it.

use vstd::prelude::*;

use crate::engine::BitCursor;

verus! {

/// Maximum size of the DEFLATE sliding window: 32 KiB. This is also the maximum size of a
/// [`Checkpoint`]'s dictionary.
pub const WINDOW_SIZE: usize = 32 * 1024;

/// The bytes of `produced` that a DEFLATE back-reference can still reach: its last
/// [`WINDOW_SIZE`] bytes, or all of it while it is shorter than that.
pub open spec fn window_tail(produced: Seq<u8>) -> Seq<u8> {
    if produced.len() <= WINDOW_SIZE {
        produced
    } else {
        produced.skip(produced.len() - WINDOW_SIZE)
    }
}

/// A run of `n` zero bytes.
pub open spec fn zeros(n: nat) -> Seq<u8> {
    Seq::new(n, |i: int| 0u8)
}

/// Captured state at a DEFLATE end-of-block boundary. Sufficient to resume decompression from
/// this position.
///
/// The window is a fixed [`WINDOW_SIZE`]-byte array. For checkpoints near the start of a stream
/// where fewer than [`WINDOW_SIZE`] bytes have been decoded, the unused prefix is zero-filled
/// and [`Checkpoint::window_used`] records the actual count.
#[derive(Debug, Clone)]
pub struct Checkpoint {
    /// Live bit-buffer value at the boundary. Opaque to callers: it is only fed back when the
    /// stream is resumed.
    pub bitbuf: u64,
    /// Count of valid bits in `bitbuf` (0..=7).
    pub bitsleft: u32,
    /// 32 KiB sliding window: the last [`WINDOW_SIZE`] bytes of uncompressed output that
    /// preceded this checkpoint. Valid bytes occupy the END of this buffer; the prefix is
    /// zero-filled when fewer bytes are available.
    pub window: Box<[u8; WINDOW_SIZE]>,
    /// Number of valid bytes at the END of `window`.
    pub window_used: usize,
}

impl Checkpoint {
    /// Where in the compressed stream the checkpoint stands, within its byte.
    pub open spec fn cursor(self) -> BitCursor {
        BitCursor { bitbuf: self.bitbuf, bitsleft: self.bitsleft }
    }

    /// The valid bytes of the window: what a resumed stream is primed with.
    pub open spec fn dictionary(self) -> Seq<u8>
        recommends
            self.window_used <= WINDOW_SIZE,
    {
        self.window@.skip(WINDOW_SIZE - self.window_used)
    }

    /// This checkpoint is the snapshot of a stream that has produced `produced` so far and whose
    /// bit buffer holds `bitbuf` with `bitsleft` valid bits.
    pub open spec fn captures(self, produced: Seq<u8>, bitbuf: u64, bitsleft: u32) -> bool {
        &&& self.bitbuf == bitbuf
        &&& self.bitsleft == bitsleft
        &&& self.window_used == window_tail(produced).len()
        &&& self.window@ == zeros((WINDOW_SIZE - self.window_used) as nat) + window_tail(produced)
    }
}

/// Build a [`Checkpoint`] from the captured `(bitbuf, bitsleft)` plus the last [`WINDOW_SIZE`]
/// bytes of the produced output.
pub fn snapshot_window(produced: &[u8], bitbuf: u64, bitsleft: u32) -> (checkpoint: Checkpoint)
    ensures
        checkpoint.captures(produced@, bitbuf, bitsleft),
{
    let mut window: [u8; WINDOW_SIZE] = [0u8; WINDOW_SIZE];
    let take: usize = if produced.len() < WINDOW_SIZE { produced.len() } else { WINDOW_SIZE };
    let dst_start: usize = WINDOW_SIZE - take;
    let src_start: usize = produced.len() - take;
    let mut copied: usize = 0;
    while copied < take
        invariant
            copied <= take,
            take <= WINDOW_SIZE,
            dst_start == WINDOW_SIZE - take,
            src_start + take == produced.len(),
            forall|i: int| 0 <= i < dst_start ==> window@[i] == 0u8,
            forall|i: int| 0 <= i < copied ==> #[trigger] window@[dst_start + i]
                == produced@[src_start + i],
        decreases take - copied,
    {
        window[dst_start + copied] = produced[src_start + copied];
        copied = copied + 1;
    }
    assert(window@ =~= zeros(dst_start as nat) + window_tail(produced@)) by {
        assert forall|j: int| dst_start <= j < WINDOW_SIZE implies window@[j]
            == window_tail(produced@)[j - dst_start] by {
            assert(window@[dst_start + (j - dst_start)] == produced@[src_start + (j - dst_start)]);
        }
    }
    Checkpoint { bitbuf, bitsleft, window: Box::new(window), window_used: take }
}

} // verus!
