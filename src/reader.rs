use vstd::prelude::*;

use crate::buffer::{bytes_of, empty_buffer, resize, to_vec, write_at};

verus! {

/// What the source answered to a request for more bytes.
pub enum Event {
    /// The source handed over these bytes; none means that it is exhausted.
    Received(Vec<u8>),
    /// The request was interrupted before anything was read; it may be made again.
    Interrupted,
    /// The source failed.
    Failed(std::io::Error),
}

/// Why a read of `n` bytes did not complete.
pub enum ReadError {
    /// The source was exhausted after `received` of the `wanted` bytes.
    EndOfStream { wanted: usize, received: usize },
    /// The source failed; its error is kept for the caller.
    Source(std::io::Error),
}

/// What the owner of the source is to do next.
pub enum Step {
    /// Ask the source for at most this many more bytes (always at least one).
    Need(usize),
    /// The read is complete: these are the bytes, in the order read.
    Done(Vec<u8>),
    /// The read failed; nothing read is handed out.
    Failed(ReadError),
}

/// The meaning of a [`Step`].
pub enum Outcome {
    Need(nat),
    Done(Seq<u8>),
    EndOfStream { wanted: nat, received: nat },
    SourceFailed(std::io::Error),
}

impl Step {
    pub open spec fn view(&self) -> Outcome {
        match self {
            Step::Need(k) => Outcome::Need(*k as nat),
            Step::Done(v) => Outcome::Done(v@),
            Step::Failed(ReadError::EndOfStream { wanted, received }) => Outcome::EndOfStream {
                wanted: *wanted as nat,
                received: *received as nat,
            },
            Step::Failed(ReadError::Source(e)) => Outcome::SourceFailed(*e),
        }
    }
}

/// The state of a reader: how many bytes the current read wants, the bytes it
/// has received so far, and whether it is still waiting for the source.
pub struct ReadNModel {
    pub wanted: nat,
    pub received: Seq<u8>,
    pub pending: bool,
}

impl ReadNModel {
    /// How many bytes the current read still lacks.
    pub open spec fn missing(self) -> nat {
        (self.wanted - self.received.len()) as nat
    }

    /// Starting a read of `n` bytes: whatever came before is dropped. A read
    /// of no bytes is complete at once.
    pub open spec fn start(self, n: nat) -> (ReadNModel, Outcome) {
        if n == 0 {
            (ReadNModel { wanted: 0, received: Seq::empty(), pending: false }, Outcome::Done(Seq::empty()))
        } else {
            (ReadNModel { wanted: n, received: Seq::empty(), pending: true }, Outcome::Need(n))
        }
    }

    /// The source handed over `b`: no bytes end the read in failure; bytes
    /// that complete it end it with all bytes received; others are kept, and
    /// the rest is asked for.
    pub open spec fn on_bytes(self, b: Seq<u8>) -> (ReadNModel, Outcome) {
        if b.len() == 0 {
            (
                ReadNModel { pending: false, ..self },
                Outcome::EndOfStream { wanted: self.wanted, received: self.received.len() },
            )
        } else if self.received.len() + b.len() == self.wanted {
            (
                ReadNModel { received: self.received + b, pending: false, ..self },
                Outcome::Done(self.received + b),
            )
        } else {
            let next = ReadNModel { received: self.received + b, ..self };
            (next, Outcome::Need(next.missing()))
        }
    }

    /// What an answer of the source does to the read.
    pub open spec fn on_event(self, ev: Event) -> (ReadNModel, Outcome) {
        match ev {
            Event::Received(b) => self.on_bytes(b@),
            Event::Interrupted => (self, Outcome::Need(self.missing())),
            Event::Failed(e) => (ReadNModel { pending: false, ..self }, Outcome::SourceFailed(e)),
        }
    }
}

/// A reader of exactly `n` bytes at a time. Its scratch buffer is kept from
/// one read to the next and resized to each request.
pub struct ReadN {
    buf: bytes::BytesMut,
    wanted: usize,
    filled: usize,
    pending: bool,
}

impl ReadN {
    pub closed spec fn view(&self) -> ReadNModel {
        ReadNModel {
            wanted: self.wanted as nat,
            received: bytes_of(self.buf).subrange(0, self.filled as int),
            pending: self.pending,
        }
    }

    /// The scratch buffer is as long as the current read; what was received
    /// stands at its start.
    pub closed spec fn wf(&self) -> bool {
        &&& bytes_of(self.buf).len() == self.wanted
        &&& self.filled <= self.wanted
        &&& self.wanted <= isize::MAX
    }

    /// The length of the scratch buffer.
    pub closed spec fn buffer_len(&self) -> nat {
        bytes_of(self.buf).len()
    }

    /// A reader with an empty scratch buffer and no read under way.
    pub fn new() -> (r: ReadN)
        ensures
            r.wf(),
            r@ == (ReadNModel { wanted: 0, received: Seq::empty(), pending: false }),
            r.buffer_len() == 0,
    {
        let r = ReadN { buf: empty_buffer(), wanted: 0, filled: 0, pending: false };
        assert(r@.received =~= Seq::<u8>::empty());
        r
    }

    /// Whether a read is under way, waiting for the source.
    pub fn is_pending(&self) -> (r: bool)
        ensures
            r == self@.pending,
    {
        self.pending
    }

    /// Starts a read of exactly `n` bytes. The scratch buffer is resized to
    /// `n`; what it held before is never handed out. A read of no bytes is
    /// complete at once, and asks nothing of the source.
    pub fn read(&mut self, n: usize) -> (r: Step)
        requires
            old(self).wf(),
            n <= isize::MAX,
        ensures
            final(self).wf(),
            (final(self)@, r@) == old(self)@.start(n as nat),
            final(self).buffer_len() == n,
    {
        resize(&mut self.buf, n, 0);
        self.wanted = n;
        self.filled = 0;
        assert(self@.received =~= Seq::<u8>::empty());
        if n == 0 {
            self.pending = false;
            let v = to_vec(&self.buf);
            assert(v@ =~= Seq::<u8>::empty());
            Step::Done(v)
        } else {
            self.pending = true;
            Step::Need(n)
        }
    }

    /// Takes the source's answer to the last request. The bytes handed over
    /// are at most as many as were asked for.
    pub fn advance(&mut self, ev: Event) -> (r: Step)
        requires
            old(self).wf(),
            old(self)@.pending,
            ev matches Event::Received(b) ==> b@.len() <= old(self)@.missing(),
        ensures
            final(self).wf(),
            (final(self)@, r@) == old(self)@.on_event(ev),
            final(self).buffer_len() == old(self).buffer_len(),
    {
        match ev {
            Event::Received(b) => {
                if b.len() == 0 {
                    self.pending = false;
                    assert(self@.received =~= old(self)@.received);
                    Step::Failed(ReadError::EndOfStream { wanted: self.wanted, received: self.filled })
                } else {
                    write_at(&mut self.buf, self.filled, b.as_slice());
                    self.filled = self.filled + b.len();
                    assert(self@.received =~= old(self)@.received + b@);
                    if self.filled == self.wanted {
                        self.pending = false;
                        let v = to_vec(&self.buf);
                        assert(v@ =~= old(self)@.received + b@);
                        Step::Done(v)
                    } else {
                        Step::Need(self.wanted - self.filled)
                    }
                }
            },
            Event::Interrupted => Step::Need(self.wanted - self.filled),
            Event::Failed(e) => {
                self.pending = false;
                Step::Failed(ReadError::Source(e))
            },
        }
    }
}

} // verus!
