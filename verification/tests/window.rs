//! Snapshots of the sliding window, and the wording of the errors.

use libdeflate_zran::{snapshot_window, Checkpoint, Error, WINDOW_SIZE};

fn bytes(n: usize) -> Vec<u8> {
    (0..n).map(|i| (i % 253 + 1) as u8).collect()
}

fn check(produced: &[u8]) {
    let used: usize = produced.len().min(32768);
    let ck: Checkpoint = snapshot_window(produced, 77, 7);
    assert_eq!((ck.bitbuf, ck.bitsleft, ck.window_used), (77, 7, used));
    assert!(ck.window[..32768 - used].iter().all(|&b| b == 0));
    assert_eq!(&ck.window[32768 - used..], &produced[produced.len() - used..]);
}

#[test]
fn window_is_32_kib() {
    assert_eq!(WINDOW_SIZE, 32768);
}

#[test]
fn nothing_produced_leaves_an_empty_window() {
    check(b"");
}

#[test]
fn short_output_stands_at_the_end() {
    check(b"abc");
    check(&bytes(32767));
}

#[test]
fn full_window_has_no_prefix() {
    check(&bytes(32768));
}

#[test]
fn long_output_keeps_its_last_window() {
    check(&bytes(32769));
    check(&bytes(100_000));
}

#[test]
fn window_slides() {
    let history: Vec<u8> = bytes(50_000);
    let tail: &[u8] = &history[50_000 - 32768..];
    let whole: Vec<u8> = [&history[..], b"more"].concat();
    let cut: Vec<u8> = [tail, b"more"].concat();
    assert_eq!(snapshot_window(&whole, 0, 0).window, snapshot_window(&cut, 0, 0).window);
}

#[test]
fn clones_are_equal() {
    let ck: Checkpoint = snapshot_window(&bytes(9), 3, 2);
    let other: Checkpoint = ck.clone();
    assert_eq!(
        (other.bitbuf, other.bitsleft, other.window, other.window_used),
        (ck.bitbuf, ck.bitsleft, ck.window, ck.window_used)
    );
}

#[test]
fn error_messages() {
    assert_eq!(Error::BadData.message(), "libdeflate: bad data");
    assert_eq!(Error::InsufficientSpace.message(), "libdeflate: insufficient output space");
    assert_eq!(Error::ShortOutput.message(), "libdeflate: short output");
    assert_eq!(Error::OutOfMemory.message(), "libdeflate: out of memory");
    assert_eq!(
        Error::InvalidInput("checkpoint.window_used > WINDOW_SIZE").message(),
        "libdeflate: invalid input: checkpoint.window_used > WINDOW_SIZE"
    );
}
