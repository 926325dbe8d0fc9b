use pcmplay::driver::SourceRead;
use pcmplay::skipper::ReadOutcome;
use pcmplay::skipper::Skipper;

fn drain(s: &mut Skipper) -> Vec<u8> {
    let mut all = Vec::new();
    loop {
        match s.read(usize::MAX) {
            ReadOutcome::Data(mut v) => all.append(&mut v),
            _ => return all,
        }
    }
}

#[test]
fn starts_empty_and_running() {
    let mut s = Skipper::new_with_capacity(16);
    assert_eq!(s.len(), 0);
    assert_eq!(s.capacity(), 16);
    assert!(!s.end_of_stream());
    assert!(!s.stop_requested());
    assert_eq!(s.read(4), ReadOutcome::WouldBlock);
}

#[test]
fn length_never_exceeds_capacity() {
    let mut s = Skipper::new_with_capacity(7);
    for chunk in [3usize, 5, 7, 2, 11, 1] {
        s.append(&vec![0xAB; chunk]);
        assert!(s.len() <= s.capacity());
    }
}

#[test]
fn append_within_capacity_keeps_everything() {
    let mut s = Skipper::new_with_capacity(10);
    s.append(&vec![1, 2, 3]);
    s.append(&vec![4, 5]);
    assert_eq!(s.len(), 5);
    assert_eq!(drain(&mut s), vec![1, 2, 3, 4, 5]);
}

#[test]
fn overflow_evicts_exactly_the_oldest() {
    // Appending n bytes to a full buffer drops exactly the n oldest bytes.
    let mut s = Skipper::new_with_capacity(4);
    s.append(&vec![1, 2, 3, 4]);
    s.append(&vec![5, 6]);
    assert_eq!(s.len(), 4);
    assert_eq!(drain(&mut s), vec![3, 4, 5, 6]);
}

#[test]
fn ten_byte_window_keeps_the_last_ten() {
    // Capacity 10, writes of "0123456789" then "ABCDE" with no read in
    // between: the buffer holds "56789ABCDE".
    let mut s = Skipper::new_with_capacity(10);
    s.append(&b"0123456789".to_vec());
    s.append(&b"ABCDE".to_vec());
    assert_eq!(drain(&mut s), b"56789ABCDE".to_vec());
}

#[test]
fn append_larger_than_capacity_keeps_its_tail() {
    let mut s = Skipper::new_with_capacity(3);
    s.append(&vec![9]);
    s.append(&vec![1, 2, 3, 4, 5]);
    assert_eq!(drain(&mut s), vec![3, 4, 5]);
}

#[test]
fn partial_fill_returns_what_is_there() {
    // Asking for more than is buffered yields exactly what is buffered,
    // not zero bytes and not a wait.
    let mut s = Skipper::new_with_capacity(16);
    s.append(&vec![7, 8, 9]);
    assert_eq!(s.read(10), ReadOutcome::Data(vec![7, 8, 9]));
    assert_eq!(s.read(10), ReadOutcome::WouldBlock);
}

#[test]
fn read_takes_oldest_bytes_first() {
    let mut s = Skipper::new_with_capacity(16);
    s.append(&vec![1, 2, 3, 4, 5]);
    assert_eq!(s.read(2), ReadOutcome::Data(vec![1, 2]));
    assert_eq!(s.read(2), ReadOutcome::Data(vec![3, 4]));
    assert_eq!(s.read(2), ReadOutcome::Data(vec![5]));
}

#[test]
fn end_of_stream_is_permanent() {
    // Once a read reports end-of-stream, every later read does too.
    let mut s = Skipper::new_with_capacity(8);
    s.append(&vec![1]);
    s.finish();
    assert_eq!(s.read(4), ReadOutcome::Data(vec![1]));
    for _ in 0..3 {
        assert_eq!(s.read(4), ReadOutcome::EndOfStream);
    }
}

#[test]
fn failure_surfaces_after_the_buffer_drains() {
    // A producer-side read error must not be reported as a clean
    // end-of-stream: buffered bytes are handed out first, then the failure.
    let mut s = Skipper::new_with_capacity(8);
    s.append(&vec![1, 2]);
    s.fail();
    assert_eq!(s.read(8), ReadOutcome::Data(vec![1, 2]));
    assert_eq!(s.read(8), ReadOutcome::Failed);
    assert_eq!(s.read(8), ReadOutcome::Failed);
}

#[test]
fn producer_step_appends_data() {
    let mut s = Skipper::new_with_capacity(4);
    s.producer_step(SourceRead::Bytes(vec![1, 2, 3]));
    s.producer_step(SourceRead::Bytes(vec![4, 5]));
    assert!(!s.end_of_stream());
    assert_eq!(drain(&mut s), vec![2, 3, 4, 5]);
}

#[test]
fn producer_step_zero_bytes_ends_the_stream() {
    let mut s = Skipper::new_with_capacity(4);
    s.producer_step(SourceRead::Bytes(vec![1]));
    s.producer_step(SourceRead::Bytes(Vec::new()));
    assert!(s.end_of_stream());
    assert_eq!(s.read(4), ReadOutcome::Data(vec![1]));
    assert_eq!(s.read(4), ReadOutcome::EndOfStream);
}

#[test]
fn producer_step_failure_is_surfaced() {
    let mut s = Skipper::new_with_capacity(4);
    s.producer_step(SourceRead::Failed);
    assert!(s.end_of_stream());
    assert_eq!(s.read(4), ReadOutcome::Failed);
}

#[test]
fn stop_request_is_visible_to_the_producer() {
    let mut s = Skipper::new_with_capacity(4);
    assert!(!s.stop_requested());
    s.request_stop();
    assert!(s.stop_requested());
    // Stopping is orthogonal to the data path: buffered bytes still drain.
    s.append(&vec![1]);
    assert_eq!(s.read(1), ReadOutcome::Data(vec![1]));
}

#[test]
fn reads_interleave_with_overflowing_writes() {
    // The consumer always sees a suffix of what was recently written: the
    // buffer trades the oldest data away, never the newest.
    let mut s = Skipper::new_with_capacity(4);
    s.append(&vec![1, 2, 3]);
    assert_eq!(s.read(2), ReadOutcome::Data(vec![1, 2]));
    s.append(&vec![4, 5, 6, 7]);
    // [3] ++ [4, 5, 6, 7] overflows by one: the 3 goes.
    assert_eq!(s.read(2), ReadOutcome::Data(vec![4, 5]));
    s.append(&vec![8]);
    assert_eq!(drain(&mut s), vec![6, 7, 8]);
}

#[test]
fn zero_capacity_buffer_stays_empty() {
    let mut s = Skipper::new_with_capacity(0);
    s.append(&vec![1, 2, 3]);
    assert_eq!(s.len(), 0);
    assert_eq!(s.read(4), ReadOutcome::WouldBlock);
}
