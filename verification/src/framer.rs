//! Packet framer: reassembles delimited frames from a fragmented byte link.
//!
//! Each message on the link is a zero-free byte sequence closed by a single
//! 0x00 terminator.  Freshly read bytes are appended to a fixed-capacity
//! receive buffer; a complete frame, terminator included, is handed out as
//! soon as one is buffered, one frame per call.  A frame too large for the
//! caller is dropped, never re-delivered.

use vstd::prelude::*;

verus! {

/// Capacity of the receive buffer, and the largest frame it can deliver.
pub const BUF_BYTES: usize = 64;

/// The frame terminator byte.
pub const TERMINATOR: u8 = 0;

/// Outcome of one `read_packet` call.
#[derive(Debug)]
pub enum PacketOutcome {
    /// No complete frame is buffered yet.
    NoFrameYet,
    /// One complete frame, terminator included.
    Frame(Vec<u8>),
    /// A complete frame was buffered but did not fit the caller's capacity;
    /// it has been dropped.
    Overflow,
    /// The fresh bytes would not fit the receive buffer; none were taken.
    BufferExhausted,
}

/// Index of the first terminator in `s`, or `s.len()` if there is none.
pub open spec fn find_term(s: Seq<u8>) -> int
    decreases s.len(),
{
    if s.len() == 0 {
        0
    } else if s[0] == TERMINATOR {
        0
    } else {
        1 + find_term(s.skip(1))
    }
}

/// The complete frames held in `s`, in order, each with its terminator.
/// Trailing bytes after the last terminator are not yet a frame.
pub open spec fn frames_of(s: Seq<u8>) -> Seq<Seq<u8>>
    decreases s.len(),
    via frames_of_decreases
{
    let k = find_term(s);
    if k == s.len() {
        Seq::empty()
    } else {
        seq![s.take(k + 1)] + frames_of(s.skip(k + 1))
    }
}

#[via_fn]
proof fn frames_of_decreases(s: Seq<u8>) {
    lemma_find_term_bounds(s);
}

/// The bytes of `s` after its last terminator: the partial frame that
/// remains buffered once every complete frame is extracted.
pub open spec fn residue(s: Seq<u8>) -> Seq<u8>
    decreases s.len(),
    via residue_decreases
{
    let k = find_term(s);
    if k == s.len() {
        s
    } else {
        residue(s.skip(k + 1))
    }
}

#[via_fn]
proof fn residue_decreases(s: Seq<u8>) {
    lemma_find_term_bounds(s);
}

/// Receive side of the serial link: a fixed-capacity buffer of bytes read
/// from the link but not yet delivered as frames.
pub struct Serial {
    buf: Vec<u8>,
}

impl Serial {
    /// The buffered bytes, oldest first.
    pub closed spec fn view(&self) -> Seq<u8> {
        self.buf@
    }

    /// The write cursor never exceeds the buffer capacity.
    pub closed spec fn wf(&self) -> bool {
        self.buf@.len() <= BUF_BYTES
    }

    pub fn new() -> (s: Serial)
        ensures
            s@ == Seq::<u8>::empty(),
            s.wf(),
    {
        Serial { buf: Vec::new() }
    }

    /// Number of buffered bytes: the next index the link would write.
    pub fn buf_next(&self) -> (n: usize)
        ensures
            n == self@.len(),
    {
        self.buf.len()
    }

    /// Takes the bytes just read from the link, buffers them, and attempts to
    /// extract one complete frame of at most `out_capacity` bytes.
    ///
    /// At most one frame is extracted per call, even when several are
    /// buffered; callers re-invoke to drain the backlog.
    pub fn read_packet(&mut self, fresh: &Vec<u8>, out_capacity: usize) -> (r: PacketOutcome)
        requires
            old(self).wf(),
        ensures
            final(self).wf(),
            ({
                let joined = old(self)@ + fresh@;
                let k = find_term(joined);
                if old(self)@.len() + fresh@.len() > BUF_BYTES {
                    &&& r is BufferExhausted
                    &&& final(self)@ == old(self)@
                } else if k == joined.len() {
                    &&& r is NoFrameYet
                    &&& final(self)@ == joined
                } else if k + 1 > out_capacity {
                    &&& r is Overflow
                    &&& final(self)@ == joined.skip(k + 1)
                } else {
                    &&& r matches PacketOutcome::Frame(f) && f@ == joined.take(k + 1)
                    &&& final(self)@ == joined.skip(k + 1)
                }
            }),
    {
        if fresh.len() > BUF_BYTES - self.buf.len() {
            return PacketOutcome::BufferExhausted;
        }

        let ghost joined = self.buf@ + fresh@;
        let mut i: usize = 0;
        while i < fresh.len()
            invariant
                i <= fresh.len(),
                self.buf@ == old(self)@ + fresh@.take(i as int),
            decreases fresh.len() - i,
        {
            self.buf.push(fresh[i]);
            i = i + 1;
        }
        assert(self.buf@ == joined);

        let mut k: usize = 0;
        while k < self.buf.len() && self.buf[k] != TERMINATOR
            invariant
                k <= self.buf@.len(),
                self.buf@ == joined,
                forall|j: int| 0 <= j < k ==> joined[j] != TERMINATOR,
            decreases self.buf@.len() - k,
        {
            k = k + 1;
        }
        proof {
            lemma_find_term_at(joined, k as int);
        }

        if k == self.buf.len() {
            return PacketOutcome::NoFrameYet;
        }

        if k + 1 > out_capacity {
            self.drop_through(k);
            return PacketOutcome::Overflow;
        }

        let mut frame: Vec<u8> = Vec::new();
        let mut j: usize = 0;
        while j < k + 1
            invariant
                j <= k + 1,
                k < self.buf@.len(),
                self.buf@.len() <= BUF_BYTES,
                self.buf@ == joined,
                frame@ == joined.take(j as int),
            decreases k + 1 - j,
        {
            frame.push(self.buf[j]);
            j = j + 1;
        }
        self.drop_through(k);
        PacketOutcome::Frame(frame)
    }

    /// Discards the buffered bytes up to and including index `k`, keeping
    /// the trailing bytes in order.
    fn drop_through(&mut self, k: usize)
        requires
            k < old(self)@.len(),
            old(self)@.len() <= BUF_BYTES,
        ensures
            final(self)@ == old(self)@.skip(k + 1),
    {
        let mut rest: Vec<u8> = Vec::new();
        let mut j: usize = k + 1;
        while j < self.buf.len()
            invariant
                k + 1 <= j <= self.buf@.len(),
                self.buf@.len() <= BUF_BYTES,
                self.buf@ == old(self)@,
                rest@ == old(self)@.subrange(k + 1, j as int),
            decreases self.buf@.len() - j,
        {
            rest.push(self.buf[j]);
            j = j + 1;
        }
        assert(rest@ == old(self)@.skip(k + 1));
        self.buf = rest;
    }
}

/// All bytes of `chunks` in order: the stream as the link carried it.
pub open spec fn concat_chunks(chunks: Seq<Seq<u8>>) -> Seq<u8>
    decreases chunks.len(),
{
    if chunks.len() == 0 {
        Seq::empty()
    } else {
        chunks[0] + concat_chunks(chunks.skip(1))
    }
}

/// The frames extracted when, starting from buffered bytes `state`, each
/// chunk of the stream is buffered in turn and every complete frame is
/// drained before the next chunk arrives.
pub open spec fn delivered_from(state: Seq<u8>, chunks: Seq<Seq<u8>>) -> Seq<Seq<u8>>
    decreases chunks.len(),
{
    if chunks.len() == 0 {
        Seq::empty()
    } else {
        frames_of(state + chunks[0]) + delivered_from(
            residue(state + chunks[0]),
            chunks.skip(1),
        )
    }
}

/// Splitting a stream anywhere commutes with framing: the frames of the
/// whole stream are the frames of the first part followed by the frames of
/// its leftover bytes joined with the second part, which also carry the
/// leftover of the whole.
pub proof fn lemma_frames_append(a: Seq<u8>, b: Seq<u8>)
    ensures
        frames_of(a + b) == frames_of(a) + frames_of(residue(a) + b),
        residue(a + b) == residue(residue(a) + b),
    decreases a.len(),
{
    lemma_find_term_bounds(a);
    let k = find_term(a);
    if k == a.len() {
        assert(Seq::<Seq<u8>>::empty() + frames_of(a + b) =~= frames_of(a + b));
    } else {
        assert((a + b)[k] == a[k]);
        assert(forall|j: int| 0 <= j < k ==> (a + b)[j] == a[j]);
        lemma_find_term_at(a + b, k);
        lemma_frames_append(a.skip(k + 1), b);
        assert((a + b).take(k + 1) =~= a.take(k + 1));
        assert((a + b).skip(k + 1) =~= a.skip(k + 1) + b);
        assert(frames_of(a + b) == seq![a.take(k + 1)] + frames_of(a.skip(k + 1) + b));
        assert(frames_of(a + b) =~= frames_of(a) + frames_of(residue(a) + b));
    }
}

/// Draining after every chunk delivers exactly the frames of the whole
/// stream, as soon as at least one chunk follows the buffered bytes.
pub proof fn lemma_delivered_is_frames(state: Seq<u8>, chunks: Seq<Seq<u8>>)
    requires
        chunks.len() > 0,
    ensures
        delivered_from(state, chunks) == frames_of(state + concat_chunks(chunks)),
    decreases chunks.len(),
{
    let c = chunks[0];
    let rest = chunks.skip(1);
    assert(delivered_from(state, chunks) == frames_of(state + c) + delivered_from(
        residue(state + c),
        rest,
    ));
    assert(concat_chunks(chunks) == c + concat_chunks(rest));
    if rest.len() == 0 {
        assert(delivered_from(residue(state + c), rest) == Seq::<Seq<u8>>::empty());
        assert(concat_chunks(rest) == Seq::<u8>::empty());
        assert(state + concat_chunks(chunks) =~= state + c);
        assert(frames_of(state + c) + Seq::<Seq<u8>>::empty() =~= frames_of(state + c));
    } else {
        lemma_delivered_is_frames(residue(state + c), rest);
        lemma_frames_append(state + c, concat_chunks(rest));
        assert(state + concat_chunks(chunks) =~= (state + c) + concat_chunks(rest));
    }
}

/// Framing is chunking-independent: starting from a buffer that holds at
/// most a partial frame, feeding a stream in any chunks and draining after
/// each delivers exactly the complete frames of the stream, in order.
pub proof fn lemma_framing_idempotence(state: Seq<u8>, chunks: Seq<Seq<u8>>)
    requires
        frames_of(state) == Seq::<Seq<u8>>::empty(),
    ensures
        delivered_from(state, chunks) == frames_of(state + concat_chunks(chunks)),
{
    if chunks.len() == 0 {
        assert(state + concat_chunks(chunks) =~= state);
    } else {
        lemma_delivered_is_frames(state, chunks);
    }
}

/// A frame dropped as overflow is consumed for good: after the buffer is
/// cut past its terminator, the frames delivered by any further calls are
/// exactly the later frames of the stream — the dropped frame, the first
/// of the whole, is never delivered again.
pub proof fn lemma_overflow_never_redelivered(buffered: Seq<u8>, chunks: Seq<Seq<u8>>)
    requires
        find_term(buffered) < buffered.len(),
        chunks.len() > 0,
    ensures
        delivered_from(buffered.skip(find_term(buffered) + 1), chunks) == frames_of(
            buffered + concat_chunks(chunks),
        ).skip(1),
        frames_of(buffered + concat_chunks(chunks))[0] == buffered.take(
            find_term(buffered) + 1,
        ),
{
    lemma_find_term_bounds(buffered);
    let k = find_term(buffered);
    let stream = buffered + concat_chunks(chunks);
    assert(stream[k] == buffered[k]);
    assert(forall|j: int| 0 <= j < k ==> stream[j] == buffered[j]);
    lemma_find_term_at(stream, k);
    assert(stream.take(k + 1) =~= buffered.take(k + 1));
    assert(stream.skip(k + 1) =~= buffered.skip(k + 1) + concat_chunks(chunks));
    assert(frames_of(stream) == seq![buffered.take(k + 1)] + frames_of(
        buffered.skip(k + 1) + concat_chunks(chunks),
    ));
    lemma_delivered_is_frames(buffered.skip(k + 1), chunks);
    assert(frames_of(stream).skip(1) =~= frames_of(
        buffered.skip(k + 1) + concat_chunks(chunks),
    ));
}

/// `find_term(s)` is the index of the first terminator: if no byte before
/// `k` is a terminator and `k` is either a terminator or the end, then
/// `find_term(s) == k`.
pub proof fn lemma_find_term_at(s: Seq<u8>, k: int)
    requires
        0 <= k <= s.len(),
        forall|j: int| 0 <= j < k ==> s[j] != TERMINATOR,
        k < s.len() ==> s[k] == TERMINATOR,
    ensures
        find_term(s) == k,
    decreases s.len(),
{
    if s.len() == 0 {
    } else if s[0] == TERMINATOR {
        assert(k == 0);
    } else {
        assert(forall|j: int| 0 <= j < k - 1 ==> s.skip(1)[j] == s[j + 1]);
        lemma_find_term_at(s.skip(1), k - 1);
    }
}

/// `find_term(s)` lies in `[0, s.len()]`, points at a terminator when it is
/// inside `s`, and no byte before it is a terminator.
pub proof fn lemma_find_term_bounds(s: Seq<u8>)
    ensures
        0 <= find_term(s) <= s.len(),
        find_term(s) < s.len() ==> s[find_term(s)] == TERMINATOR,
        forall|j: int| 0 <= j < find_term(s) ==> s[j] != TERMINATOR,
    decreases s.len(),
{
    if s.len() == 0 {
    } else if s[0] == TERMINATOR {
    } else {
        lemma_find_term_bounds(s.skip(1));
        assert(forall|j: int| 1 <= j < find_term(s) ==> s[j] == s.skip(1)[j - 1]);
    }
}

} // verus!
