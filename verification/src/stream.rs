//! Hashing a source of known length without holding it in memory.
//!
//! The library does not read. It says which bytes it wants next, the caller
//! reads them from the source and hands them over, and so on until the
//! digest is there. First comes the tail, the bytes after the last whole
//! block, which is closed into the last blocks at once; then the whole
//! blocks from the start, one at a time; the last blocks are compressed
//! after them.
use vstd::prelude::*;
use vstd::slice::{slice_subrange, slice_to_vec};
use crate::digest::SHA1;
use crate::framing::{frame_tail, lemma_digest_by_parts, tail_of};
use crate::model::{
    Registers, initial, compress, absorb, absorb_all, block_at, frame, sha1_digest,
};

verus! {

/// A hash in progress over a source of known length.
pub struct Stream {
    h: SHA1,
    length: u64,
    taken: u64,
    closing: Option<Vec<u8>>,
}

/// What a [`Stream`] stands for.
pub struct StreamView {
    /// The length of the source in bytes.
    pub length: nat,
    /// How many whole blocks have been compressed.
    pub taken: nat,
    /// The digest state after those blocks.
    pub state: Registers,
    /// The closing blocks, once the tail has been handed over.
    pub closing: Option<Seq<u8>>,
}

impl StreamView {
    /// How many bytes the stream takes next: the tail first, then a block
    /// at a time.
    pub open spec fn wanted(self) -> nat {
        if self.closing is None {
            self.length % 64
        } else {
            64
        }
    }

    /// The states in which a stream waits for bytes: for the tail, with
    /// nothing compressed yet, or for a whole block that is still due.
    pub open spec fn wf(self) -> bool {
        &&& self.length <= u64::MAX
        &&& self.closing is None ==> self.taken == 0
        &&& self.closing is Some ==> self.taken < self.length / 64
    }

    /// What follows once the tail has been taken: the next whole block, or
    /// after the last of them the closing blocks and the digest.
    pub open spec fn next(self) -> StepView {
        if self.taken < self.length / 64 {
            StepView::ReadBlock { stream: self, offset: 64 * self.taken }
        } else {
            StepView::Done { digest: absorb_all(self.state, self.closing->0) }
        }
    }

    /// The step that follows when `data` is handed over.
    pub open spec fn advance(self, data: Seq<u8>) -> StepView {
        if self.closing is None {
            (StreamView { closing: Some(frame(data, self.length)), ..self }).next()
        } else {
            (StreamView { taken: self.taken + 1, state: compress(self.state, data), ..self }).next()
        }
    }
}

/// The first step on a source of `length` bytes: its tail is wanted.
pub open spec fn first_step(length: nat) -> StepView {
    StepView::ReadTail {
        stream: StreamView { length, taken: 0, state: initial(), closing: None },
        offset: 64 * (length / 64),
    }
}

impl View for Stream {
    type V = StreamView;

    closed spec fn view(&self) -> StreamView {
        StreamView {
            length: self.length as nat,
            taken: self.taken as nat,
            state: self.h@,
            closing: match self.closing {
                Some(blocks) => Some(blocks@),
                None => None,
            },
        }
    }
}

/// What the caller of a [`Stream`] does next.
pub enum StreamStep {
    /// Read from `offset` to the end of the source and hand that over.
    ReadTail { stream: Stream, offset: u64 },
    /// Read the 64 bytes at `offset` and hand them over.
    ReadBlock { stream: Stream, offset: u64 },
    /// Nothing more to read: the digest of the source.
    Done { digest: SHA1 },
}

/// What a [`StreamStep`] stands for.
pub enum StepView {
    ReadTail { stream: StreamView, offset: nat },
    ReadBlock { stream: StreamView, offset: nat },
    Done { digest: Registers },
}

impl View for StreamStep {
    type V = StepView;

    open spec fn view(&self) -> StepView {
        match *self {
            StreamStep::ReadTail { stream, offset } => StepView::ReadTail {
                stream: stream@,
                offset: offset as nat,
            },
            StreamStep::ReadBlock { stream, offset } => StepView::ReadBlock {
                stream: stream@,
                offset: offset as nat,
            },
            StreamStep::Done { digest } => StepView::Done { digest: digest@ },
        }
    }
}

impl Stream {
    /// A stream exists only while it waits for bytes.
    #[verifier::type_invariant]
    closed spec fn waiting(self) -> bool {
        self@.wf()
    }

    /// Starts on a source of `length` bytes.
    pub fn begin(length: u64) -> (step: StreamStep)
        ensures
            step@ == first_step(length as nat),
    {
        let stream = Stream { h: SHA1::new(), length, taken: 0, closing: None };
        StreamStep::ReadTail { stream, offset: length / 64 * 64 }
    }

    /// How many bytes the stream takes next.
    pub fn wanted(&self) -> (n: u64)
        ensures
            n == self@.wanted(),
    {
        if self.closing.is_none() {
            self.length % 64
        } else {
            64
        }
    }

    /// Takes the bytes that the last step asked for and says what follows.
    pub fn advance(self, data: Vec<u8>) -> (step: StreamStep)
        requires
            data.len() == self@.wanted(),
        ensures
            step@ == self@.advance(data@),
    {
        proof {
            use_type_invariant(&self);
        }
        let Stream { h, length, taken, closing } = self;
        let mut h = h;
        let (taken, blocks): (u64, Vec<u8>) = match closing {
            None => (taken, frame_tail(data, length)),
            Some(blocks) => {
                h.hash_block(data);
                (taken + 1, blocks)
            },
        };
        if taken < length / 64 {
            StreamStep::ReadBlock {
                stream: Stream { h, length, taken, closing: Some(blocks) },
                offset: taken * 64,
            }
        } else {
            h.hash_blocks(&blocks);
            StreamStep::Done { digest: h }
        }
    }
}

/// The bytes that a source holding `bytes` hands over when a step asks.
pub open spec fn served(step: StepView, bytes: Seq<u8>) -> Seq<u8> {
    match step {
        StepView::ReadTail { offset, .. } => bytes.subrange(offset as int, bytes.len() as int),
        StepView::ReadBlock { offset, .. } => bytes.subrange(offset as int, offset as int + 64),
        StepView::Done { .. } => Seq::empty(),
    }
}

/// A bound on the steps that are still to come.
pub open spec fn steps_left(step: StepView) -> nat {
    match step {
        StepView::ReadTail { stream, .. } | StepView::ReadBlock { stream, .. } => {
            let blocks: nat = if stream.taken < stream.length / 64 {
                (stream.length / 64 - stream.taken) as nat
            } else {
                0
            };
            if stream.closing is None {
                blocks + 2
            } else {
                blocks + 1
            }
        },
        StepView::Done { .. } => 0,
    }
}

/// The digest that comes out when the steps from `step` on are served from
/// a source holding `bytes`.
pub open spec fn run(step: StepView, bytes: Seq<u8>) -> Registers
    decreases steps_left(step),
{
    match step {
        StepView::ReadTail { stream, .. } | StepView::ReadBlock { stream, .. } => run(
            stream.advance(served(step, bytes)),
            bytes,
        ),
        StepView::Done { digest } => digest,
    }
}

/// Hashing a source piece by piece gives the digest of its content: for any
/// bytes, the steps that begin on their length, each served from those
/// bytes, end in the SHA-1 digest of the bytes.
pub proof fn lemma_stream_equals_digest(bytes: Seq<u8>)
    ensures
        run(first_step(bytes.len()), bytes) == sha1_digest(bytes),
{
    lemma_run_from_start(bytes);
    lemma_digest_by_parts(bytes);
}

/// The run from the first step compresses the whole blocks of `bytes` and
/// then the frame of their tail.
proof fn lemma_run_from_start(bytes: Seq<u8>)
    ensures
        run(first_step(bytes.len()), bytes) == absorb_all(
            absorb(initial(), bytes, bytes.len() as int / 64),
            frame(tail_of(bytes), bytes.len()),
        ),
{
    let len = bytes.len();
    let first = first_step(len);
    let closing = frame(tail_of(bytes), len);
    let waiting = StreamView { length: len, taken: 0, state: initial(), closing: Some(closing) };
    assert(served(first, bytes) == tail_of(bytes));
    assert(first->ReadTail_stream.advance(tail_of(bytes)) == waiting.next());
    assert(run(first, bytes) == run(waiting.next(), bytes));
    lemma_run_blocks(waiting, bytes);
}

/// From a stream that has the closing blocks and has compressed the first
/// `taken` blocks of `bytes`, the run compresses the other whole blocks and
/// then the closing blocks.
proof fn lemma_run_blocks(stream: StreamView, bytes: Seq<u8>)
    requires
        stream.length == bytes.len(),
        stream.taken <= stream.length / 64,
        stream.closing is Some,
        stream.state == absorb(initial(), bytes, stream.taken as int),
    ensures
        run(stream.next(), bytes) == absorb_all(
            absorb(initial(), bytes, bytes.len() as int / 64),
            stream.closing->0,
        ),
    decreases stream.length / 64 - stream.taken,
{
    if stream.taken < stream.length / 64 {
        let step = stream.next();
        let block = served(step, bytes);
        assert(block == block_at(bytes, stream.taken as int));
        let after = StreamView {
            taken: stream.taken + 1,
            state: compress(stream.state, block),
            ..stream
        };
        assert(stream.advance(block) == after.next());
        assert(run(step, bytes) == run(after.next(), bytes));
        lemma_run_blocks(after, bytes);
    }
}

impl StepView {
    /// Whether the step is one on a source of `length` bytes: it asks for
    /// bytes that such a source has, and its stream waits for them.
    pub open spec fn on_source(self, length: nat) -> bool {
        match self {
            StepView::ReadTail { stream, offset } => {
                &&& stream.wf()
                &&& stream.length == length
                &&& stream.closing is None
                &&& offset == 64 * (length / 64)
            },
            StepView::ReadBlock { stream, offset } => {
                &&& stream.wf()
                &&& stream.length == length
                &&& stream.closing is Some
                &&& offset == 64 * stream.taken
            },
            StepView::Done { .. } => true,
        }
    }
}

/// The digest of a source held in memory, taken as a stream is: the tail
/// first, then one block at a time, never a copy of the whole.
pub fn hash_stream(source: &[u8]) -> (digest: SHA1)
    ensures
        digest@ == sha1_digest(source@),
{
    let mut step: StreamStep = Stream::begin(source.len() as u64);
    proof {
        lemma_stream_equals_digest(source@);
    }
    loop
        invariant
            step@.on_source(source@.len()),
            run(step@, source@) == sha1_digest(source@),
        decreases steps_left(step@),
    {
        proof {
            lemma_step_on_source(step@, source@);
        }
        step = match step {
            StreamStep::ReadTail { stream, offset } => {
                let tail: Vec<u8> = bytes_at(source, offset, stream.wanted());
                stream.advance(tail)
            },
            StreamStep::ReadBlock { stream, offset } => {
                let block: Vec<u8> = bytes_at(source, offset, stream.wanted());
                stream.advance(block)
            },
            StreamStep::Done { digest } => {
                return digest;
            },
        };
    }
}

/// A copy of the `len` bytes of `source` that start at `offset`.
fn bytes_at(source: &[u8], offset: u64, len: u64) -> (bytes: Vec<u8>)
    requires
        offset + len <= source.len(),
    ensures
        bytes@ == source@.subrange(offset as int, offset + len),
{
    slice_to_vec(slice_subrange(source, offset as usize, (offset + len) as usize))
}

/// A step on a source asks for bytes that the source has, as many as its
/// stream wants; served with them it leads to a step on the same source,
/// nearer to the end.
pub proof fn lemma_step_on_source(step: StepView, bytes: Seq<u8>)
    requires
        step.on_source(bytes.len()),
    ensures
        match step {
            StepView::ReadTail { stream, offset } | StepView::ReadBlock { stream, offset } => {
                let then = stream.advance(served(step, bytes));
                &&& offset + stream.wanted() <= bytes.len()
                &&& served(step, bytes).len() == stream.wanted()
                &&& then.on_source(bytes.len())
                &&& steps_left(then) < steps_left(step)
                &&& run(then, bytes) == run(step, bytes)
            },
            StepView::Done { digest } => run(step, bytes) == digest,
        },
{
    let len = bytes.len();
    assert(len == 64 * (len / 64) + len % 64);
    match step {
        StepView::ReadTail { stream, offset } => {
            assert(offset + stream.wanted() == len);
        },
        StepView::ReadBlock { stream, offset } => {
            assert(stream.taken + 1 <= len / 64);
            assert(offset + 64 <= len);
        },
        StepView::Done { .. } => {},
    }
}

} // verus!
