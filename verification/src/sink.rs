//! The ordered sink: the single consumer that puts every chunk at its offset.

use crate::dncli::{DncliError, ErrorKind};
use vstd::prelude::*;

verus! {

/// Where a chunk lies in the output file: `len` bytes starting at `offset`.
#[derive(Clone, Copy, Debug, PartialEq, Eq, Structural)]
pub struct ChunkSpan {
    pub offset: u64,
    pub len: u64,
}

impl ChunkSpan {
    /// Whether writing this chunk writes the byte at `offset`.
    pub open spec fn covers(self, offset: int) -> bool {
        self.offset <= offset < self.offset + self.len
    }
}

/// How many of the chunks `spans` write the byte at `offset`.
pub open spec fn times_written(spans: Seq<ChunkSpan>, offset: int) -> nat
    decreases spans.len(),
{
    if spans.len() == 0 {
        0
    } else if spans.last().covers(offset) {
        times_written(spans.drop_last(), offset) + 1
    } else {
        times_written(spans.drop_last(), offset)
    }
}

/// Total number of bytes in the chunks `spans`.
pub open spec fn total_len(spans: Seq<ChunkSpan>) -> nat
    decreases spans.len(),
{
    if spans.len() == 0 {
        0
    } else {
        total_len(spans.drop_last()) + spans.last().len as nat
    }
}

/// The chunks `spans` follow one another without gap or overlap, from offset
/// `from` up to, but not including, offset `to`.
pub open spec fn spans_tile(spans: Seq<ChunkSpan>, from: int, to: int) -> bool
    decreases spans.len(),
{
    if spans.len() == 0 {
        from == to
    } else {
        spans.last().offset + spans.last().len == to && spans_tile(
            spans.drop_last(),
            from,
            spans.last().offset as int,
        )
    }
}

/// Chunks that tile a range write every byte of it once and no other byte, and
/// hold as many bytes as the range.
pub proof fn lemma_tiling_writes_once(spans: Seq<ChunkSpan>, from: int, to: int, offset: int)
    requires
        spans_tile(spans, from, to),
    ensures
        from <= to,
        to == from + total_len(spans),
        times_written(spans, offset) == if from <= offset < to {
            1nat
        } else {
            0nat
        },
    decreases spans.len(),
{
    if spans.len() > 0 {
        lemma_tiling_writes_once(spans.drop_last(), from, spans.last().offset as int, offset);
    }
}

/// The count of writes to an offset adds up over concatenation.
pub proof fn lemma_times_written_concat(a: Seq<ChunkSpan>, b: Seq<ChunkSpan>, offset: int)
    ensures
        times_written(a + b, offset) == times_written(a, offset) + times_written(b, offset),
    decreases b.len(),
{
    if b.len() == 0 {
        assert(a + b =~= a);
    } else {
        assert((a + b).drop_last() =~= a + b.drop_last());
        assert((a + b).last() == b.last());
        lemma_times_written_concat(a, b.drop_last(), offset);
    }
}

/// Taking one chunk out of a sequence takes its write, if any, out of the count.
proof fn lemma_times_written_remove(spans: Seq<ChunkSpan>, i: int, offset: int)
    requires
        0 <= i < spans.len(),
    ensures
        times_written(spans, offset) == times_written(spans.remove(i), offset) + if spans[i].covers(
            offset,
        ) {
            1nat
        } else {
            0nat
        },
{
    let head = spans.subrange(0, i);
    let one = seq![spans[i]];
    let tail = spans.subrange(i + 1, spans.len() as int);
    assert(spans =~= (head + one) + tail);
    assert(spans.remove(i) =~= head + tail);
    lemma_times_written_concat(head + one, tail, offset);
    lemma_times_written_concat(head, one, offset);
    lemma_times_written_concat(head, tail, offset);
    assert(one.drop_last() =~= Seq::<ChunkSpan>::empty());
    assert(times_written(one.drop_last(), offset) == 0);
    assert(times_written(one, offset) == if spans[i].covers(offset) {
        1nat
    } else {
        0nat
    });
}

/// The count of writes to an offset does not depend on the order in which the
/// chunks arrive.
pub proof fn lemma_times_written_any_order(a: Seq<ChunkSpan>, b: Seq<ChunkSpan>, offset: int)
    requires
        a.to_multiset() == b.to_multiset(),
    ensures
        times_written(a, offset) == times_written(b, offset),
    decreases a.len(),
{
    broadcast use vstd::seq_lib::group_to_multiset_ensures;

    a.to_multiset_ensures();
    b.to_multiset_ensures();
    if a.len() == 0 {
        assert(b.len() == 0);
    } else {
        let x = a.last();
        assert(a.drop_last().push(x) =~= a);
        assert(a.to_multiset().count(x) > 0);
        assert(b.to_multiset().contains(x));
        assert(b.contains(x));
        let j = choose|j: int| 0 <= j < b.len() && b[j] == x;
        let i = a.len() - 1;
        assert(a.remove(i) =~= a.drop_last());
        vstd::seq_lib::to_multiset_remove(a, i);
        vstd::seq_lib::to_multiset_remove(b, j);
        lemma_times_written_any_order(a.drop_last(), b.remove(j), offset);
        lemma_times_written_remove(b, j, offset);
    }
}

/// The number of bytes in chunks adds up over concatenation.
pub proof fn lemma_total_len_concat(a: Seq<ChunkSpan>, b: Seq<ChunkSpan>)
    ensures
        total_len(a + b) == total_len(a) + total_len(b),
    decreases b.len(),
{
    if b.len() == 0 {
        assert(a + b =~= a);
    } else {
        assert((a + b).drop_last() =~= a + b.drop_last());
        assert((a + b).last() == b.last());
        lemma_total_len_concat(a, b.drop_last());
    }
}

/// Taking one chunk out of a sequence takes its bytes out of the total.
proof fn lemma_total_len_remove(spans: Seq<ChunkSpan>, i: int)
    requires
        0 <= i < spans.len(),
    ensures
        total_len(spans) == total_len(spans.remove(i)) + spans[i].len,
{
    let head = spans.subrange(0, i);
    let one = seq![spans[i]];
    let tail = spans.subrange(i + 1, spans.len() as int);
    assert(spans =~= (head + one) + tail);
    assert(spans.remove(i) =~= head + tail);
    lemma_total_len_concat(head + one, tail);
    lemma_total_len_concat(head, one);
    lemma_total_len_concat(head, tail);
    assert(one.drop_last() =~= Seq::<ChunkSpan>::empty());
    assert(total_len(one.drop_last()) == 0);
}

/// The number of bytes in chunks does not depend on the order of the chunks.
pub proof fn lemma_total_len_any_order(a: Seq<ChunkSpan>, b: Seq<ChunkSpan>)
    requires
        a.to_multiset() == b.to_multiset(),
    ensures
        total_len(a) == total_len(b),
    decreases a.len(),
{
    broadcast use vstd::seq_lib::group_to_multiset_ensures;

    a.to_multiset_ensures();
    b.to_multiset_ensures();
    if a.len() == 0 {
        assert(b.len() == 0);
    } else {
        let x = a.last();
        assert(a.drop_last().push(x) =~= a);
        assert(a.to_multiset().count(x) > 0);
        assert(b.contains(x));
        let j = choose|j: int| 0 <= j < b.len() && b[j] == x;
        let i = a.len() - 1;
        assert(a.remove(i) =~= a.drop_last());
        vstd::seq_lib::to_multiset_remove(a, i);
        vstd::seq_lib::to_multiset_remove(b, j);
        lemma_total_len_any_order(a.drop_last(), b.remove(j));
        lemma_total_len_remove(b, j);
    }
}

/// Where the sink stands.
#[derive(Clone, Copy, Debug, PartialEq, Eq, Structural)]
pub enum SinkPhase {
    /// Taking chunks off the queue.
    Draining,
    /// The queue was closed and is drained.
    Finished,
    /// A write failed, or the byte count left the range of `u64`.
    Failed,
}

/// What the sink has seen and done.
pub struct SinkState {
    /// The chunks accepted for writing, in the order of their arrival.
    pub observed: Seq<ChunkSpan>,
    /// Bytes in the chunks accepted so far.
    pub written: u64,
    /// Bytes that the whole download is expected to hold; zero if unknown.
    pub expected: u64,
    pub phase: SinkPhase,
}

impl SinkState {
    /// What holds of every sink: its byte count is the number of bytes in the
    /// chunks it accepted.
    pub open spec fn wf(self) -> bool {
        self.written == total_len(self.observed)
    }

    /// The state of a sink that has seen nothing yet.
    pub open spec fn initial(expected: u64) -> SinkState {
        SinkState { observed: Seq::empty(), written: 0, expected, phase: SinkPhase::Draining }
    }
}

/// What the caller reports to the sink.
#[derive(Debug, Clone, PartialEq, Eq)]
pub enum SinkEvent {
    /// The queue delivered a chunk that lies here.
    Chunk(ChunkSpan),
    /// Positioning or writing the last chunk failed; the text says how.
    WriteFailed(String),
    /// The queue is closed and empty.
    Closed,
}

/// A [`SinkEvent`] with its text as a sequence.
pub enum SinkEventView {
    Chunk(ChunkSpan),
    WriteFailed(Seq<char>),
    Closed,
}

impl View for SinkEvent {
    type V = SinkEventView;

    open spec fn view(&self) -> SinkEventView {
        match self {
            SinkEvent::Chunk(span) => SinkEventView::Chunk(*span),
            SinkEvent::WriteFailed(reason) => SinkEventView::WriteFailed(reason@),
            SinkEvent::Closed => SinkEventView::Closed,
        }
    }
}

/// What the sink asks its caller to do next.
#[derive(Debug, Clone, PartialEq, Eq)]
pub enum SinkAction {
    /// Position the file at `offset` and write the chunk's `len` bytes in
    /// full; `written` is the byte count to show once that is done.
    Write { offset: u64, len: u64, written: u64 },
    /// Nothing more will come: the sink is done.
    Finished,
    /// The download fails with this error.
    Abort(DncliError),
    /// The sink had already finished or failed; nothing changed.
    Ignore,
}

/// A [`SinkAction`] with its error as kind and text.
pub enum SinkActionView {
    Write { offset: u64, len: u64, written: u64 },
    Finished,
    Abort { kind: ErrorKind, detail: Seq<char> },
    Ignore,
}

impl View for SinkAction {
    type V = SinkActionView;

    open spec fn view(&self) -> SinkActionView {
        match self {
            SinkAction::Write { offset, len, written } => SinkActionView::Write {
                offset: *offset,
                len: *len,
                written: *written,
            },
            SinkAction::Finished => SinkActionView::Finished,
            SinkAction::Abort(error) => SinkActionView::Abort {
                kind: error.kind(),
                detail: error.detail(),
            },
            SinkAction::Ignore => SinkActionView::Ignore,
        }
    }
}

/// Detail of the error of a sink whose byte count no longer fits.
pub open spec fn overflow_text() -> Seq<char> {
    "Byte count overflow"@
}

/// The transition function of the sink. A chunk is written where it says, in
/// whatever order it arrives; a failed write ends the download.
pub open spec fn sink_step(s: SinkState, event: SinkEventView) -> (SinkState, SinkActionView) {
    if s.phase != SinkPhase::Draining {
        (s, SinkActionView::Ignore)
    } else {
        match event {
            SinkEventView::Chunk(span) => if s.written + span.len <= u64::MAX {
                (
                    SinkState {
                        observed: s.observed.push(span),
                        written: (s.written + span.len) as u64,
                        ..s
                    },
                    SinkActionView::Write {
                        offset: span.offset,
                        len: span.len,
                        written: (s.written + span.len) as u64,
                    },
                )
            } else {
                (
                    SinkState { phase: SinkPhase::Failed, ..s },
                    SinkActionView::Abort { kind: ErrorKind::Other, detail: overflow_text() },
                )
            },
            SinkEventView::WriteFailed(reason) => (
                SinkState { phase: SinkPhase::Failed, ..s },
                SinkActionView::Abort { kind: ErrorKind::Io, detail: reason },
            ),
            SinkEventView::Closed => (
                SinkState { phase: SinkPhase::Finished, ..s },
                SinkActionView::Finished,
            ),
        }
    }
}

/// The byte count of the sink is the number of bytes in the chunks it accepted.
pub proof fn lemma_sink_step_preserves_wf(s: SinkState, event: SinkEventView)
    requires
        s.wf(),
    ensures
        sink_step(s, event).0.wf(),
        sink_step(s, event).0.expected == s.expected,
{
    match event {
        SinkEventView::Chunk(span) => {
            assert(s.observed.push(span).drop_last() =~= s.observed);
        },
        _ => {},
    }
}

/// The state that a sink reaches from `s` after the events `events`.
pub open spec fn sink_run(s: SinkState, events: Seq<SinkEventView>) -> SinkState
    decreases events.len(),
{
    if events.len() == 0 {
        s
    } else {
        sink_step(sink_run(s, events.drop_last()), events.last()).0
    }
}

/// The events of a queue that delivers the chunks `spans`, one after another.
pub open spec fn arrivals(spans: Seq<ChunkSpan>) -> Seq<SinkEventView> {
    Seq::new(spans.len(), |i: int| SinkEventView::Chunk(spans[i]))
}

/// A sink accepts what the queue delivers, in the order of delivery, and counts
/// its bytes, as long as that count is a `u64`.
pub proof fn lemma_sink_observes_arrivals(expected: u64, spans: Seq<ChunkSpan>)
    requires
        total_len(spans) <= u64::MAX,
    ensures
        sink_run(SinkState::initial(expected), arrivals(spans)) == (SinkState {
            observed: spans,
            written: total_len(spans) as u64,
            expected,
            phase: SinkPhase::Draining,
        }),
    decreases spans.len(),
{
    if spans.len() == 0 {
        assert(spans =~= Seq::<ChunkSpan>::empty());
    } else {
        lemma_sink_observes_arrivals(expected, spans.drop_last());
        assert(arrivals(spans).drop_last() =~= arrivals(spans.drop_last()));
        assert(arrivals(spans).last() == SinkEventView::Chunk(spans.last()));
        assert(spans.drop_last().push(spans.last()) =~= spans);
    }
}

/// The single consumer of the chunk queue.
pub struct OrderedSink {
    observed: Ghost<Seq<ChunkSpan>>,
    written: u64,
    expected: u64,
    phase: SinkPhase,
}

impl View for OrderedSink {
    type V = SinkState;

    closed spec fn view(&self) -> SinkState {
        SinkState {
            observed: self.observed@,
            written: self.written,
            expected: self.expected,
            phase: self.phase,
        }
    }
}

impl OrderedSink {
    #[verifier::type_invariant]
    spec fn inv(self) -> bool {
        self@.wf()
    }

    /// A sink for a download that is expected to hold `expected` bytes.
    pub fn new(expected: u64) -> (sink: OrderedSink)
        ensures
            sink@ == SinkState::initial(expected),
    {
        OrderedSink {
            observed: Ghost(Seq::empty()),
            written: 0,
            expected,
            phase: SinkPhase::Draining,
        }
    }

    /// Bytes accepted for writing so far, and bytes expected in all.
    pub fn progress(&self) -> (progress: (u64, u64))
        ensures
            progress == (self@.written, self@.expected),
            self@.written == total_len(self@.observed),
    {
        proof {
            use_type_invariant(self);
        }
        (self.written, self.expected)
    }

    /// Where the sink stands.
    pub fn phase(&self) -> (phase: SinkPhase)
        ensures
            phase == self@.phase,
    {
        self.phase
    }

    /// The place of a slice of `len` bytes that follows directly on everything
    /// accepted so far, as in a download over a single stream.
    pub fn next_in_sequence(&self, len: u64) -> (span: ChunkSpan)
        ensures
            span == (ChunkSpan { offset: self@.written, len }),
    {
        ChunkSpan { offset: self.written, len }
    }

    /// Advances the sink by one event and says what to do next.
    pub fn step(&mut self, event: SinkEvent) -> (action: SinkAction)
        ensures
            (final(self)@, action@) == sink_step(old(self)@, event@),
            final(self)@.wf(),
    {
        proof {
            use_type_invariant(&*self);
            lemma_sink_step_preserves_wf(self@, event@);
        }
        match self.phase {
            SinkPhase::Draining => {},
            _ => {
                return SinkAction::Ignore;
            },
        }
        match event {
            SinkEvent::Chunk(span) => {
                if span.len <= u64::MAX - self.written {
                    let written: u64 = self.written + span.len;
                    let ghost observed = self.observed@.push(span);
                    *self = OrderedSink {
                        observed: Ghost(observed),
                        written,
                        expected: self.expected,
                        phase: SinkPhase::Draining,
                    };
                    SinkAction::Write { offset: span.offset, len: span.len, written }
                } else {
                    self.phase = SinkPhase::Failed;
                    SinkAction::Abort(DncliError::Other(String::from_str("Byte count overflow")))
                }
            },
            SinkEvent::WriteFailed(reason) => {
                self.phase = SinkPhase::Failed;
                SinkAction::Abort(DncliError::Io(reason))
            },
            SinkEvent::Closed => {
                self.phase = SinkPhase::Finished;
                SinkAction::Finished
            },
        }
    }
}

} // verus!
