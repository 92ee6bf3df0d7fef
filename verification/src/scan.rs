//! The scanner that follows one connection's bytes until the braces balance.
//!
//! `ScanModel` is the scanner as mathematics: what it has kept of the stream
//! and whether the stream outgrew it. `FrameScanState` is the scanner that
//! runs: two counters, an offset and a buffer of fixed size.

use vstd::prelude::*;
use crate::braces::{
    balanced, closes, frame_end, is_frame_end, lemma_frame_end_is_least,
    lemma_frame_end_of_prefix, lemma_frame_end_unique, lemma_occurrences_bound,
    lemma_occurrences_push, opens, CLOSE_BRACE, OPEN_BRACE,
};

verus! {

/// Where a scan stands.
#[derive(Clone, Copy, Debug, PartialEq, Eq, Structural)]
pub enum ScanStatus {
    /// No balance yet, and room left: more bytes are wanted.
    Pending,
    /// The kept bytes are one complete message.
    Complete,
    /// A byte arrived when the buffer was full and the braces did not balance.
    TooLong,
}

/// The scanner's state, as plain mathematics.
pub struct ScanModel {
    /// Size of the buffer: the longest message that can be taken.
    pub capacity: nat,
    /// The bytes kept so far, from the first byte of the stream on.
    pub bytes: Seq<u8>,
    /// Whether a byte had to be turned away for want of room.
    pub overflowed: bool,
}

impl ScanModel {
    /// A scanner that has seen nothing.
    pub open spec fn fresh(capacity: nat) -> ScanModel {
        ScanModel { capacity, bytes: Seq::empty(), overflowed: false }
    }

    /// What holds of every state that scanning can reach: the kept bytes
    /// fit the buffer, none of their proper prefixes is balanced, and a
    /// scanner that overflowed is full and unbalanced.
    pub open spec fn wf(self) -> bool {
        &&& self.bytes.len() <= self.capacity
        &&& (frame_end(self.bytes) == 0 || frame_end(self.bytes) == self.bytes.len())
        &&& (self.overflowed ==> self.bytes.len() == self.capacity && frame_end(self.bytes) == 0)
    }

    /// Complete once the kept bytes are balanced; failing that, too long
    /// once a byte was turned away; pending otherwise.
    pub open spec fn status(self) -> ScanStatus {
        if balanced(self.bytes) {
            ScanStatus::Complete
        } else if self.overflowed {
            ScanStatus::TooLong
        } else {
            ScanStatus::Pending
        }
    }

    /// The state after `chunk` has arrived.
    ///
    /// A scan that is complete or too long takes nothing more. Otherwise
    /// let `s` be the kept bytes followed by `chunk`. Where `s` has a
    /// balanced prefix that fits the buffer, the shortest one is kept and
    /// the rest of `chunk` is dropped. Failing that, where `s` is longer
    /// than the buffer, the scan is too long. Failing that, all of `s` is
    /// kept.
    pub open spec fn absorb(self, chunk: Seq<u8>) -> ScanModel {
        let s = self.bytes + chunk;
        if self.status() != ScanStatus::Pending {
            self
        } else if 0 < frame_end(s) <= self.capacity {
            ScanModel { capacity: self.capacity, bytes: s.take(frame_end(s) as int), overflowed: false }
        } else if s.len() > self.capacity {
            ScanModel { capacity: self.capacity, bytes: s.take(self.capacity as int), overflowed: true }
        } else {
            ScanModel { capacity: self.capacity, bytes: s, overflowed: false }
        }
    }

    /// The state after the chunks have arrived one after another.
    pub open spec fn absorb_all(self, chunks: Seq<Seq<u8>>) -> ScanModel
        decreases chunks.len(),
    {
        if chunks.len() == 0 {
            self
        } else {
            self.absorb_all(chunks.drop_last()).absorb(chunks.last())
        }
    }
}

/// The chunks laid end to end: the byte stream that they are pieces of.
pub open spec fn joined(chunks: Seq<Seq<u8>>) -> Seq<u8>
    decreases chunks.len(),
{
    if chunks.len() == 0 {
        Seq::empty()
    } else {
        joined(chunks.drop_last()) + chunks.last()
    }
}

/// In a reachable state the kept bytes are balanced exactly where they end
/// in a frame end.
pub proof fn lemma_balanced_iff_frame_end(v: ScanModel)
    requires
        v.wf(),
    ensures
        balanced(v.bytes) <==> frame_end(v.bytes) > 0,
        balanced(v.bytes) ==> !v.overflowed,
{
    lemma_frame_end_is_least(v.bytes);
    assert(v.bytes.take(v.bytes.len() as int) =~= v.bytes);
}

/// Scanning leads from reachable states to reachable states, and leaves
/// the capacity alone.
pub proof fn lemma_absorb_wf(v: ScanModel, chunk: Seq<u8>)
    requires
        v.wf(),
    ensures
        v.absorb(chunk).wf(),
        v.absorb(chunk).capacity == v.capacity,
{
    if v.status() == ScanStatus::Pending {
        let s = v.bytes + chunk;
        lemma_frame_end_is_least(s);
        if 0 < frame_end(s) <= v.capacity {
            lemma_frame_end_of_prefix(s, frame_end(s) as int);
        } else if s.len() > v.capacity {
            lemma_frame_end_of_prefix(s, v.capacity as int);
        }
    }
}

/// A scan that has ended takes nothing more, and an empty chunk changes
/// nothing.
pub proof fn lemma_absorb_nothing(v: ScanModel, chunk: Seq<u8>)
    requires
        v.wf(),
        v.status() != ScanStatus::Pending || chunk.len() == 0,
    ensures
        v.absorb(chunk) == v,
{
    if v.status() == ScanStatus::Pending {
        assert(v.bytes + chunk =~= v.bytes);
        lemma_balanced_iff_frame_end(v);
    }
}

/// Framing does not depend on where the stream was cut: two chunks one
/// after the other leave the scanner where the two as one chunk leave it.
pub proof fn lemma_absorb_concat(v: ScanModel, a: Seq<u8>, b: Seq<u8>)
    requires
        v.wf(),
    ensures
        v.absorb(a).absorb(b) == v.absorb(a + b),
{
    if v.status() == ScanStatus::Pending {
        let s1 = v.bytes + a;
        let s2 = v.bytes + (a + b);
        let v1 = v.absorb(a);
        lemma_absorb_wf(v, a);
        lemma_balanced_iff_frame_end(v1);
        assert(s1 + b =~= s2);
        assert(s2.take(s1.len() as int) =~= s1);
        lemma_frame_end_of_prefix(s2, s1.len() as int);
        lemma_frame_end_is_least(s1);
        lemma_frame_end_is_least(s2);
        if 0 < frame_end(s1) <= v.capacity {
            assert(s2.take(frame_end(s2) as int) =~= s1.take(frame_end(s1) as int));
            lemma_frame_end_of_prefix(s1, frame_end(s1) as int);
        } else if s1.len() > v.capacity {
            assert(s2.take(v.capacity as int) =~= s1.take(v.capacity as int));
            lemma_frame_end_of_prefix(s1, v.capacity as int);
        }
    }
}

/// Any way of cutting a stream into chunks frames it as one chunk would.
pub proof fn lemma_absorb_all_is_absorb_joined(v: ScanModel, chunks: Seq<Seq<u8>>)
    requires
        v.wf(),
    ensures
        v.absorb_all(chunks) == v.absorb(joined(chunks)),
        v.absorb_all(chunks).wf(),
    decreases chunks.len(),
{
    if chunks.len() == 0 {
        lemma_absorb_nothing(v, joined(chunks));
    } else {
        lemma_absorb_all_is_absorb_joined(v, chunks.drop_last());
        lemma_absorb_concat(v, joined(chunks.drop_last()), chunks.last());
        lemma_absorb_wf(v, joined(chunks));
    }
}

/// What one more byte does to a scan that is pending: it is turned away
/// where the buffer is full, and kept otherwise.
pub proof fn lemma_absorb_byte(v: ScanModel, x: u8)
    requires
        v.wf(),
        v.status() == ScanStatus::Pending,
    ensures
        v.bytes.len() == v.capacity ==> v.absorb(seq![x]) == (ScanModel {
            capacity: v.capacity,
            bytes: v.bytes,
            overflowed: true,
        }),
        v.bytes.len() < v.capacity ==> v.absorb(seq![x]) == (ScanModel {
            capacity: v.capacity,
            bytes: v.bytes.push(x),
            overflowed: false,
        }),
{
    let s = v.bytes + seq![x];
    assert(s =~= v.bytes.push(x));
    assert(s.drop_last() =~= v.bytes);
    lemma_balanced_iff_frame_end(v);
    assert(s.take(v.bytes.len() as int) =~= v.bytes);
    assert(s.take(s.len() as int) =~= s);
}

/// How a pending scan ends up after a chunk, read off the stream alone:
/// complete where the stream has a frame end that fits the buffer, too long
/// where it has none that fits and is longer than the buffer, and pending
/// otherwise.
pub proof fn lemma_absorb_status(v: ScanModel, chunk: Seq<u8>)
    requires
        v.wf(),
        v.status() == ScanStatus::Pending,
    ensures
        v.absorb(chunk).status() == if 0 < frame_end(v.bytes + chunk) <= v.capacity {
            ScanStatus::Complete
        } else if (v.bytes + chunk).len() > v.capacity {
            ScanStatus::TooLong
        } else {
            ScanStatus::Pending
        },
{
    lemma_absorb_wf(v, chunk);
    lemma_balanced_iff_frame_end(v.absorb(chunk));
    let s = v.bytes + chunk;
    lemma_frame_end_is_least(s);
    if 0 < frame_end(s) <= v.capacity {
        lemma_frame_end_of_prefix(s, frame_end(s) as int);
    } else if s.len() > v.capacity {
        lemma_frame_end_of_prefix(s, v.capacity as int);
    }
}

/// A stream that is one message, balanced at its last byte and not before,
/// and that fits the buffer, is kept whole by a fresh scanner, in whatever
/// chunks it arrives.
pub proof fn lemma_whole_message_is_kept(capacity: nat, chunks: Seq<Seq<u8>>)
    requires
        is_frame_end(joined(chunks), joined(chunks).len() as int),
        joined(chunks).len() <= capacity,
    ensures
        ScanModel::fresh(capacity).absorb_all(chunks).status() == ScanStatus::Complete,
        ScanModel::fresh(capacity).absorb_all(chunks).bytes == joined(chunks),
{
    let v = ScanModel::fresh(capacity);
    let s = joined(chunks);
    lemma_absorb_all_is_absorb_joined(v, chunks);
    lemma_frame_end_unique(s, s.len() as int);
    assert(v.bytes + s =~= s);
    assert(s.take(s.len() as int) =~= s);
    lemma_absorb_status(v, s);
}

/// Of a stream with bytes after its first message, a fresh scanner keeps
/// the message and nothing of what follows, in whatever chunks the stream
/// arrives.
pub proof fn lemma_trailing_bytes_are_dropped(capacity: nat, chunks: Seq<Seq<u8>>)
    requires
        0 < frame_end(joined(chunks)) <= capacity,
    ensures
        ScanModel::fresh(capacity).absorb_all(chunks).status() == ScanStatus::Complete,
        ScanModel::fresh(capacity).absorb_all(chunks).bytes == joined(chunks).take(
            frame_end(joined(chunks)) as int,
        ),
{
    let v = ScanModel::fresh(capacity);
    let s = joined(chunks);
    lemma_absorb_all_is_absorb_joined(v, chunks);
    assert(v.bytes + s =~= s);
    lemma_absorb_status(v, s);
}

/// A stream that outgrows the buffer before its braces balance is too long
/// for a fresh scanner, in whatever chunks it arrives: no message comes of
/// it.
pub proof fn lemma_oversized_is_too_long(capacity: nat, chunks: Seq<Seq<u8>>)
    requires
        joined(chunks).len() > capacity,
        frame_end(joined(chunks)) == 0 || frame_end(joined(chunks)) > capacity,
    ensures
        ScanModel::fresh(capacity).absorb_all(chunks).status() == ScanStatus::TooLong,
{
    let v = ScanModel::fresh(capacity);
    let s = joined(chunks);
    lemma_absorb_all_is_absorb_joined(v, chunks);
    assert(v.bytes + s =~= s);
    lemma_absorb_status(v, s);
}

/// A stream that has neither balanced nor outgrown the buffer leaves a
/// fresh scanner pending with all of it kept: nothing is decided before
/// more bytes come or a read fails.
pub proof fn lemma_partial_stays_pending(capacity: nat, chunks: Seq<Seq<u8>>)
    requires
        joined(chunks).len() <= capacity,
        frame_end(joined(chunks)) == 0,
    ensures
        ScanModel::fresh(capacity).absorb_all(chunks).status() == ScanStatus::Pending,
        ScanModel::fresh(capacity).absorb_all(chunks).bytes == joined(chunks),
{
    let v = ScanModel::fresh(capacity);
    let s = joined(chunks);
    lemma_absorb_all_is_absorb_joined(v, chunks);
    assert(v.bytes + s =~= s);
    lemma_absorb_status(v, s);
}

/// The scanner of one connection: brace counts, the offset up to which the
/// buffer is filled, and the buffer, whose size never changes.
pub struct FrameScanState {
    open: usize,
    close: usize,
    offset: usize,
    overflowed: bool,
    buffer: Vec<u8>,
}

impl View for FrameScanState {
    type V = ScanModel;

    closed spec fn view(&self) -> ScanModel {
        ScanModel {
            capacity: self.buffer@.len(),
            bytes: self.buffer@.take(self.offset as int),
            overflowed: self.overflowed,
        }
    }
}

impl FrameScanState {
    /// The counters count what the buffer holds below the offset, and the
    /// state is one that scanning can reach.
    pub closed spec fn wf(&self) -> bool {
        &&& self.offset <= self.buffer@.len()
        &&& self.open == opens(self@.bytes)
        &&& self.close == closes(self@.bytes)
        &&& self@.wf()
    }

    /// A scanner with a buffer of `capacity` bytes that has seen nothing.
    pub fn new(capacity: usize) -> (state: Self)
        ensures
            state.wf(),
            state@ == ScanModel::fresh(capacity as nat),
    {
        let state = FrameScanState {
            open: 0,
            close: 0,
            offset: 0,
            overflowed: false,
            buffer: vec![0u8; capacity],
        };
        assert(state@.bytes =~= Seq::<u8>::empty());
        state
    }

    /// Forgets the connection that was scanned: the next one starts from
    /// nothing, in the same buffer.
    pub fn reset(&mut self)
        requires
            old(self).wf(),
        ensures
            final(self).wf(),
            final(self)@ == ScanModel::fresh(old(self)@.capacity),
    {
        self.open = 0;
        self.close = 0;
        self.offset = 0;
        self.overflowed = false;
        assert(self@.bytes =~= Seq::<u8>::empty());
    }

    /// Size of the buffer.
    pub fn capacity(&self) -> (n: usize)
        requires
            self.wf(),
        ensures
            n == self@.capacity,
    {
        self.buffer.len()
    }

    /// Number of bytes kept so far.
    pub fn offset(&self) -> (n: usize)
        requires
            self.wf(),
        ensures
            n == self@.bytes.len(),
    {
        self.offset
    }

    /// Number of `{` among the kept bytes.
    pub fn open_braces(&self) -> (n: usize)
        requires
            self.wf(),
        ensures
            n == opens(self@.bytes),
    {
        self.open
    }

    /// Number of `}` among the kept bytes.
    pub fn close_braces(&self) -> (n: usize)
        requires
            self.wf(),
        ensures
            n == closes(self@.bytes),
    {
        self.close
    }

    /// Where the scan stands.
    pub fn status(&self) -> (status: ScanStatus)
        requires
            self.wf(),
        ensures
            status == self@.status(),
    {
        if self.open == self.close && self.open > 0 {
            ScanStatus::Complete
        } else if self.overflowed {
            ScanStatus::TooLong
        } else {
            ScanStatus::Pending
        }
    }

    /// The bytes kept so far. Once the scan is complete they are the
    /// message, closing brace included.
    pub fn accumulated(&self) -> (bytes: &[u8])
        requires
            self.wf(),
        ensures
            bytes@ == self@.bytes,
    {
        vstd::slice::slice_subrange(self.buffer.as_slice(), 0, self.offset)
    }

    /// Takes the bytes of one read. They are scanned one by one, and each is
    /// kept until the braces balance or the buffer is full; what follows the
    /// byte that brings balance is dropped.
    pub fn scan(&mut self, chunk: &[u8]) -> (status: ScanStatus)
        requires
            old(self).wf(),
        ensures
            final(self).wf(),
            final(self)@ == old(self)@.absorb(chunk@),
            status == final(self)@.status(),
    {
        let ghost start = self@;
        let mut status = self.status();
        let mut i: usize = 0;
        proof {
            lemma_absorb_nothing(start, chunk@.take(0));
        }
        while i < chunk.len() && status == ScanStatus::Pending
            invariant
                i <= chunk@.len(),
                start.wf(),
                self.wf(),
                self@ == start.absorb(chunk@.take(i as int)),
                status == self@.status(),
            decreases chunk@.len() - i,
        {
            let b = chunk[i];
            proof {
                assert(chunk@.take(i + 1) =~= chunk@.take(i as int) + seq![b]);
                lemma_absorb_concat(start, chunk@.take(i as int), seq![b]);
                lemma_absorb_byte(self@, b);
                lemma_absorb_wf(self@, seq![b]);
                lemma_occurrences_push(self@.bytes, b, OPEN_BRACE);
                lemma_occurrences_push(self@.bytes, b, CLOSE_BRACE);
                lemma_occurrences_bound(self@.bytes.push(b));
            }
            if self.offset == self.buffer.len() {
                self.overflowed = true;
                status = ScanStatus::TooLong;
            } else {
                let ghost kept = self@.bytes;
                self.buffer[self.offset] = b;
                self.offset = self.offset + 1;
                assert(self@.bytes =~= kept.push(b));
                if b == OPEN_BRACE {
                    self.open = self.open + 1;
                } else if b == CLOSE_BRACE {
                    self.close = self.close + 1;
                }
                if self.open == self.close && self.open > 0 {
                    status = ScanStatus::Complete;
                }
            }
            i = i + 1;
        }
        proof {
            let done = chunk@.take(i as int);
            let rest = chunk@.skip(i as int);
            assert(done + rest =~= chunk@);
            lemma_absorb_concat(start, done, rest);
            lemma_absorb_nothing(self@, rest);
        }
        status
    }
}

} // verus!
