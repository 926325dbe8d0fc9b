use vstd::prelude::*;
use std::collections::VecDeque;
use crate::driver::SourceRead;

verus! {

/// What one consumer read observed.
#[derive(PartialEq, Eq, Debug)]
pub enum ReadOutcome {
    /// The buffer held bytes: here are up to the requested number of them,
    /// oldest first, removed from the buffer. A partial fill is a valid,
    /// non-error result; a caller that needs more simply reads again.
    Data(Vec<u8>),
    /// The buffer is empty but the producer is still running: the caller
    /// should wait for the data-ready signal and retry.
    WouldBlock,
    /// The producer reached the natural end of the source and every buffered
    /// byte has been handed out. This answer is permanent.
    EndOfStream,
    /// The producer stopped on a read error and the buffer has drained: the
    /// failure must be surfaced instead of a clean end-of-stream.
    Failed,
}

/// The state of the bounded drop-oldest byte buffer that decouples a
/// background producer from the real-time consumer.
///
/// This type is the synchronised core alone: it owns the buffered bytes and
/// the stream flags, and every operation is one atomic step of the protocol.
/// The unverified shell wraps a value of this type in a mutex paired with a
/// condition variable, runs the producer thread, and blocks on
/// [`ReadOutcome::WouldBlock`].
///
/// The central invariant, [`Skipper::wf`], holds at every observable point:
/// no more than `capacity` bytes are ever buffered. When an append would
/// exceed the capacity, the oldest bytes are evicted first, so the buffer
/// always retains the most recently written bytes and bounds the staleness
/// the consumer can observe.
pub struct Skipper {
    buffer: VecDeque<u8>,
    capacity: usize,
    end_of_stream: bool,
    failed: bool,
    stop_requested: bool,
}

/// The bytes that remain buffered after `incoming` is written to a buffer
/// holding `existing`: the most recently written `capacity` bytes of the
/// concatenation, the older ones evicted.
pub open spec fn retained(existing: Seq<u8>, incoming: Seq<u8>, capacity: nat) -> Seq<u8> {
    let full = existing + incoming;
    if full.len() <= capacity {
        full
    } else {
        full.skip(full.len() - capacity)
    }
}

/// How many bytes a read for `want` takes from a buffer holding `have`.
pub open spec fn fill_count(want: usize, have: nat) -> nat {
    if want as nat <= have {
        want as nat
    } else {
        have
    }
}

impl View for Skipper {
    type V = Seq<u8>;

    /// The buffered bytes, oldest first.
    closed spec fn view(&self) -> Seq<u8> {
        self.buffer@
    }
}

impl Skipper {
    pub closed spec fn spec_capacity(&self) -> usize {
        self.capacity
    }

    /// The producer has stopped for good, naturally or on a read error.
    pub closed spec fn spec_end_of_stream(&self) -> bool {
        self.end_of_stream
    }

    /// The producer stopped because of a read error other than end-of-source.
    pub closed spec fn spec_failed(&self) -> bool {
        self.failed
    }

    /// The owner asked the producer to stop.
    pub closed spec fn spec_stop_requested(&self) -> bool {
        self.stop_requested
    }

    /// The buffer never holds more than its capacity.
    pub open spec fn wf(&self) -> bool {
        self@.len() <= self.spec_capacity()
    }

    /// Terminal state: the producer is done and nothing is left to hand out.
    pub open spec fn drained(&self) -> bool {
        self.spec_end_of_stream() && self@.len() == 0
    }

    /// A fresh, empty buffer bounded by `capacity`.
    pub fn new_with_capacity(capacity: usize) -> (r: Skipper)
        ensures
            r@ == Seq::<u8>::empty(),
            r.spec_capacity() == capacity,
            !r.spec_end_of_stream(),
            !r.spec_failed(),
            !r.spec_stop_requested(),
            r.wf(),
    {
        Skipper {
            buffer: VecDeque::new(),
            capacity,
            end_of_stream: false,
            failed: false,
            stop_requested: false,
        }
    }

    pub fn len(&self) -> (r: usize)
        ensures
            r == self@.len(),
    {
        self.buffer.len()
    }

    pub fn capacity(&self) -> (r: usize)
        ensures
            r == self.spec_capacity(),
    {
        self.capacity
    }

    pub fn end_of_stream(&self) -> (r: bool)
        ensures
            r == self.spec_end_of_stream(),
    {
        self.end_of_stream
    }

    pub fn stop_requested(&self) -> (r: bool)
        ensures
            r == self.spec_stop_requested(),
    {
        self.stop_requested
    }

    /// One producer step after a successful source read: write `bytes` at the
    /// back, evicting exactly as many of the oldest buffered bytes as the
    /// write would push past the capacity. In particular, appending `n` bytes
    /// to a full buffer evicts exactly the `n` oldest bytes, and what remains
    /// is always the most recently written `capacity` bytes.
    pub fn append(&mut self, bytes: &Vec<u8>)
        requires
            old(self).wf(),
            !old(self).spec_end_of_stream(),
        ensures
            final(self)@ == retained(old(self)@, bytes@, old(self).spec_capacity() as nat),
            old(self)@.len() + bytes@.len() <= old(self).spec_capacity() ==> final(self)@ == old(
                self,
            )@ + bytes@,
            old(self)@.len() == old(self).spec_capacity() && bytes@.len() <= old(
                self,
            ).spec_capacity() ==> final(self)@ == old(self)@.skip(bytes@.len() as int) + bytes@,
            final(self).wf(),
            final(self).spec_capacity() == old(self).spec_capacity(),
            final(self).spec_end_of_stream() == old(self).spec_end_of_stream(),
            final(self).spec_failed() == old(self).spec_failed(),
            final(self).spec_stop_requested() == old(self).spec_stop_requested(),
    {
        let ghost existing = self.buffer@;
        let n: usize = bytes.len();
        if n >= self.capacity {
            // Nothing already buffered survives; only the newest `capacity`
            // incoming bytes are kept.
            self.buffer.clear();
            let start: usize = n - self.capacity;
            let mut i: usize = start;
            proof {
                assert(self.buffer@ =~= bytes@.subrange(start as int, start as int));
            }
            while i < n
                invariant
                    start <= i <= n,
                    n == bytes@.len(),
                    start == n - self.capacity,
                    self.buffer@ == bytes@.subrange(start as int, i as int),
                    self.capacity == old(self).spec_capacity(),
                    self.end_of_stream == old(self).spec_end_of_stream(),
                    self.failed == old(self).spec_failed(),
                    self.stop_requested == old(self).spec_stop_requested(),
                decreases n - i,
            {
                self.buffer.push_back(bytes[i]);
                proof {
                    assert(self.buffer@ =~= bytes@.subrange(start as int, i + 1));
                }
                i = i + 1;
            }
            proof {
                assert(self.buffer@ =~= retained(
                    existing,
                    bytes@,
                    old(self).spec_capacity() as nat,
                ));
            }
        } else {
            // Evict from the front until the incoming bytes fit.
            let room: usize = self.capacity - n;
            proof {
                assert(existing.skip(0) =~= existing);
            }
            while self.buffer.len() > room
                invariant
                    self.buffer@ == existing.skip(existing.len() - self.buffer@.len()),
                    self.buffer@.len() <= existing.len(),
                    self.buffer@.len() == existing.len() || self.buffer@.len() >= room,
                    self.capacity == old(self).spec_capacity(),
                    self.end_of_stream == old(self).spec_end_of_stream(),
                    self.failed == old(self).spec_failed(),
                    self.stop_requested == old(self).spec_stop_requested(),
                decreases self.buffer@.len(),
            {
                self.buffer.pop_front();
                proof {
                    assert(self.buffer@ =~= existing.skip(
                        existing.len() - self.buffer@.len(),
                    ));
                }
            }
            let ghost evicted = self.buffer@;
            let mut i: usize = 0;
            proof {
                assert(evicted + bytes@.subrange(0, 0) =~= evicted);
            }
            while i < n
                invariant
                    0 <= i <= n,
                    n == bytes@.len(),
                    n < self.capacity,
                    evicted.len() <= self.capacity - n,
                    evicted.len() == existing.len() || evicted.len() == self.capacity - n,
                    evicted == existing.skip(existing.len() - evicted.len()),
                    self.buffer@ == evicted + bytes@.subrange(0, i as int),
                    self.capacity == old(self).spec_capacity(),
                    self.end_of_stream == old(self).spec_end_of_stream(),
                    self.failed == old(self).spec_failed(),
                    self.stop_requested == old(self).spec_stop_requested(),
                decreases n - i,
            {
                self.buffer.push_back(bytes[i]);
                proof {
                    assert(self.buffer@ =~= evicted + bytes@.subrange(0, i + 1));
                }
                i = i + 1;
            }
            proof {
                assert(self.buffer@ =~= retained(
                    existing,
                    bytes@,
                    old(self).spec_capacity() as nat,
                ));
            }
        }
        proof {
            if existing.len() + bytes@.len() <= old(self).spec_capacity() {
                assert(self.buffer@ =~= existing + bytes@);
            }
            if existing.len() == old(self).spec_capacity() && bytes@.len() <= old(
                self,
            ).spec_capacity() {
                assert(self.buffer@ =~= existing.skip(bytes@.len() as int) + bytes@);
            }
        }
    }

    /// The producer observed the natural end of the source: mark the stream
    /// finished. The flag is one-way; nothing ever clears it.
    pub fn finish(&mut self)
        ensures
            final(self)@ == old(self)@,
            final(self).spec_capacity() == old(self).spec_capacity(),
            final(self).spec_end_of_stream(),
            final(self).spec_failed() == old(self).spec_failed(),
            final(self).spec_stop_requested() == old(self).spec_stop_requested(),
    {
        self.end_of_stream = true;
    }

    /// The producer hit a read error other than end-of-source: record the
    /// failure and mark the stream finished, so that the consumer surfaces
    /// the error once the buffer drains instead of a clean end-of-stream.
    pub fn fail(&mut self)
        ensures
            final(self)@ == old(self)@,
            final(self).spec_capacity() == old(self).spec_capacity(),
            final(self).spec_end_of_stream(),
            final(self).spec_failed(),
            final(self).spec_stop_requested() == old(self).spec_stop_requested(),
    {
        self.end_of_stream = true;
        self.failed = true;
    }

    /// The owner is tearing the buffer down: tell the producer to exit at its
    /// next step. The flag is one-way; nothing ever clears it.
    pub fn request_stop(&mut self)
        ensures
            final(self)@ == old(self)@,
            final(self).spec_capacity() == old(self).spec_capacity(),
            final(self).spec_end_of_stream() == old(self).spec_end_of_stream(),
            final(self).spec_failed() == old(self).spec_failed(),
            final(self).spec_stop_requested(),
    {
        self.stop_requested = true;
    }

    /// One background-producer step, deciding on what the source's blocking
    /// read yielded: zero bytes is the natural end of the source and marks
    /// the stream finished; a read error records the failure and marks the
    /// stream finished; and data is written with drop-oldest eviction. The
    /// shell that runs the producer thread performs the read itself, then
    /// hands the outcome here and signals data-ready.
    pub fn producer_step(&mut self, read: SourceRead)
        requires
            old(self).wf(),
            !old(self).spec_end_of_stream(),
        ensures
            final(self).wf(),
            final(self).spec_capacity() == old(self).spec_capacity(),
            final(self).spec_stop_requested() == old(self).spec_stop_requested(),
            match read {
                SourceRead::Bytes(b) => {
                    if b@.len() == 0 {
                        &&& final(self)@ == old(self)@
                        &&& final(self).spec_end_of_stream()
                        &&& final(self).spec_failed() == old(self).spec_failed()
                    } else {
                        &&& final(self)@ == retained(
                            old(self)@,
                            b@,
                            old(self).spec_capacity() as nat,
                        )
                        &&& final(self).spec_end_of_stream() == old(self).spec_end_of_stream()
                        &&& final(self).spec_failed() == old(self).spec_failed()
                    }
                },
                SourceRead::Failed => {
                    &&& final(self)@ == old(self)@
                    &&& final(self).spec_end_of_stream()
                    &&& final(self).spec_failed()
                },
            },
    {
        match read {
            SourceRead::Bytes(b) => {
                if b.len() == 0 {
                    self.finish();
                } else {
                    self.append(&b);
                }
            },
            SourceRead::Failed => {
                self.fail();
            },
        }
    }

    /// One consumer step: take up to `want` of the oldest buffered bytes.
    ///
    /// The four outcomes partition the states exactly: bytes come out
    /// whenever any are buffered (a partial fill, never a block); an empty
    /// buffer asks the caller to wait while the producer still runs; and once
    /// the producer is done and the buffer has drained, the answer is
    /// permanently [`ReadOutcome::EndOfStream`] — or [`ReadOutcome::Failed`]
    /// when the producer stopped on an error, so the error is never swallowed.
    /// A read never changes the stream flags, so a drained buffer stays
    /// drained: once end-of-stream is reported, every later read reports it
    /// again.
    pub fn read(&mut self, want: usize) -> (r: ReadOutcome)
        requires
            old(self).wf(),
        ensures
            final(self).wf(),
            final(self).spec_capacity() == old(self).spec_capacity(),
            final(self).spec_end_of_stream() == old(self).spec_end_of_stream(),
            final(self).spec_failed() == old(self).spec_failed(),
            final(self).spec_stop_requested() == old(self).spec_stop_requested(),
            match r {
                ReadOutcome::Data(v) => {
                    &&& old(self)@.len() > 0
                    &&& v@.len() == fill_count(want, old(self)@.len())
                    &&& v@ == old(self)@.take(fill_count(want, old(self)@.len()) as int)
                    &&& final(self)@ == old(self)@.skip(
                        fill_count(want, old(self)@.len()) as int,
                    )
                },
                ReadOutcome::WouldBlock => {
                    &&& old(self)@.len() == 0
                    &&& !old(self).spec_end_of_stream()
                    &&& final(self)@ == old(self)@
                },
                ReadOutcome::EndOfStream => {
                    &&& old(self).drained()
                    &&& !old(self).spec_failed()
                    &&& final(self)@ == old(self)@
                },
                ReadOutcome::Failed => {
                    &&& old(self).drained()
                    &&& old(self).spec_failed()
                    &&& final(self)@ == old(self)@
                },
            },
    {
        if self.buffer.len() == 0 {
            if self.end_of_stream {
                if self.failed {
                    ReadOutcome::Failed
                } else {
                    ReadOutcome::EndOfStream
                }
            } else {
                ReadOutcome::WouldBlock
            }
        } else {
            let ghost start = self.buffer@;
            let n: usize = if want < self.buffer.len() {
                want
            } else {
                self.buffer.len()
            };
            let mut out: Vec<u8> = Vec::new();
            let mut i: usize = 0;
            proof {
                assert(out@ =~= start.subrange(0, 0));
                assert(self.buffer@ =~= start.skip(0));
            }
            while i < n
                invariant
                    0 <= i <= n,
                    n == fill_count(want, start.len()),
                    n <= start.len(),
                    out@ == start.subrange(0, i as int),
                    self.buffer@ == start.skip(i as int),
                    self.capacity == old(self).spec_capacity(),
                    self.end_of_stream == old(self).spec_end_of_stream(),
                    self.failed == old(self).spec_failed(),
                    self.stop_requested == old(self).spec_stop_requested(),
                decreases n - i,
            {
                let b = self.buffer.pop_front().unwrap();
                out.push(b);
                proof {
                    assert(out@ =~= start.subrange(0, i + 1));
                    assert(self.buffer@ =~= start.skip(i + 1));
                }
                i = i + 1;
            }
            proof {
                assert(out@ =~= start.take(fill_count(want, start.len()) as int));
            }
            ReadOutcome::Data(out)
        }
    }
}

} // verus!
