//! The segment fetcher: one byte range, fetched with resume and bounded retry.
//!
//! A fetcher performs no I/O. Its caller issues the request that
//! [`SegmentFetcher::request_range`] describes, reports what happened as a
//! [`FetchEvent`], and carries out the [`FetchAction`] that comes back.

use crate::dncli::{DncliError, ErrorKind};
use crate::plan::Segment;
use crate::sink::{lemma_tiling_writes_once, spans_tile, times_written, total_len, ChunkSpan};
use crate::text::{decimal, push_decimal};
use vstd::arithmetic::power2::{lemma2_to64, lemma_pow2_unfold, pow2};
use vstd::prelude::*;

verus! {

/// How many times a segment is retried before it fails for good.
pub const MAX_RETRIES: u32 = 5;

/// HTTP status of a partial-content answer.
pub const STATUS_PARTIAL_CONTENT: u16 = 206;

/// HTTP status of a whole-resource answer.
pub const STATUS_OK: u16 = 200;

/// Where a fetcher stands.
#[derive(Clone, Copy, Debug, PartialEq, Eq, Structural)]
pub enum FetchPhase {
    /// Still fetching: between attempts, or in the middle of one.
    Active,
    /// Every byte of the segment has been handed on.
    Done,
    /// The segment failed for good.
    Failed,
}

/// The progress of one fetcher.
#[derive(Clone, Copy, Debug, PartialEq, Eq, Structural)]
pub struct FetchState {
    /// The range this fetcher owns; it never changes.
    pub segment: Segment,
    /// Whether the size of the resource is unknown, so that this fetcher asks
    /// for all of it without naming a range. The segment then only says where
    /// the bytes begin.
    pub open_ended: bool,
    /// First byte that the current attempt asks for.
    pub position: u64,
    /// Bytes received so far in the current attempt.
    pub received: u64,
    /// Attempts that have ended without completing the segment.
    pub retries: u32,
    pub phase: FetchPhase,
}

impl FetchState {
    /// One past the last offset that this fetcher may hand on: the offset after
    /// the segment's end, or the largest offset where the size is unknown.
    pub open spec fn limit(self) -> int {
        if self.open_ended {
            u64::MAX as int
        } else {
            self.segment.end + 1
        }
    }

    /// Offset of the next byte that the current attempt will deliver.
    pub open spec fn next_offset(self) -> int {
        self.position + self.received
    }

    /// Whether the bytes handed on so far complete the segment: all of its
    /// bytes, or any byte at all where the size is unknown.
    pub open spec fn complete(self) -> bool {
        if self.open_ended {
            self.received > 0
        } else {
            self.next_offset() == self.segment.end + 1
        }
    }

    /// The range to ask the server for, or `None` where no range is requested.
    pub open spec fn request_range(self) -> Option<(u64, u64)> {
        if self.open_ended {
            None
        } else {
            Some((self.position, self.segment.end))
        }
    }

    /// What holds of every fetcher: it stands inside its segment, it has
    /// failed at most once more than it may retry, and it is done only when
    /// the segment is complete.
    pub open spec fn wf(self) -> bool {
        &&& self.segment.wf()
        &&& self.segment.start <= self.position
        &&& self.next_offset() <= self.limit()
        &&& self.open_ended ==> self.position == 0
        &&& self.phase == FetchPhase::Active && !self.open_ended ==> self.position
            <= self.segment.end
        &&& self.phase != FetchPhase::Failed ==> self.retries <= MAX_RETRIES
        &&& self.retries <= MAX_RETRIES + 1
        &&& self.phase == FetchPhase::Done ==> self.complete()
    }

    /// The state of a fetcher of `segment` that has not yet asked for anything.
    pub open spec fn initial(segment: Segment) -> FetchState {
        FetchState {
            segment,
            open_ended: false,
            position: segment.start,
            received: 0,
            retries: 0,
            phase: FetchPhase::Active,
        }
    }

    /// The state of a fetcher of a resource of unknown size that has not yet
    /// asked for anything.
    pub open spec fn initial_whole_resource() -> FetchState {
        FetchState {
            segment: Segment { index: 0, start: 0, end: 0 },
            open_ended: true,
            position: 0,
            received: 0,
            retries: 0,
            phase: FetchPhase::Active,
        }
    }
}

/// What the caller reports to a fetcher.
#[derive(Debug, Clone, PartialEq, Eq)]
pub enum FetchEvent {
    /// The request or the body stream broke; the text says how.
    TransportError(String),
    /// A response arrived with this HTTP status.
    Response(u16),
    /// The body delivered a slice of this many bytes.
    Slice(u64),
    /// The body ended.
    StreamEnded,
    /// The chunk queue refused a chunk; the text says why.
    QueueClosed(String),
}

/// A [`FetchEvent`] with its texts as sequences.
pub enum FetchEventView {
    TransportError(Seq<char>),
    Response(u16),
    Slice(u64),
    StreamEnded,
    QueueClosed(Seq<char>),
}

impl View for FetchEvent {
    type V = FetchEventView;

    open spec fn view(&self) -> FetchEventView {
        match self {
            FetchEvent::TransportError(reason) => FetchEventView::TransportError(reason@),
            FetchEvent::Response(status) => FetchEventView::Response(*status),
            FetchEvent::Slice(len) => FetchEventView::Slice(*len),
            FetchEvent::StreamEnded => FetchEventView::StreamEnded,
            FetchEvent::QueueClosed(reason) => FetchEventView::QueueClosed(reason@),
        }
    }
}

/// What a fetcher asks its caller to do next.
#[derive(Debug, Clone, PartialEq, Eq)]
pub enum FetchAction {
    /// The status is acceptable: start reading the body.
    ReadBody,
    /// Queue the slice just reported as a chunk at this absolute offset.
    Emit { offset: u64 },
    /// Sleep this many seconds, then issue the next request.
    Backoff { seconds: u64 },
    /// The segment is complete.
    Finished,
    /// The segment has failed; the whole download fails with this error.
    Abort(DncliError),
    /// The fetcher had already finished or failed; nothing changed.
    Ignore,
}

/// A [`FetchAction`] with its error as kind and text.
pub enum FetchActionView {
    ReadBody,
    Emit { offset: u64 },
    Backoff { seconds: u64 },
    Finished,
    Abort { kind: ErrorKind, detail: Seq<char> },
    Ignore,
}

impl View for FetchAction {
    type V = FetchActionView;

    open spec fn view(&self) -> FetchActionView {
        match self {
            FetchAction::ReadBody => FetchActionView::ReadBody,
            FetchAction::Emit { offset } => FetchActionView::Emit { offset: *offset },
            FetchAction::Backoff { seconds } => FetchActionView::Backoff { seconds: *seconds },
            FetchAction::Finished => FetchActionView::Finished,
            FetchAction::Abort(error) => FetchActionView::Abort {
                kind: error.kind(),
                detail: error.detail(),
            },
            FetchAction::Ignore => FetchActionView::Ignore,
        }
    }
}

/// Whether a response with this status carries the bytes asked for.
pub open spec fn acceptable_status(status: u16) -> bool {
    status == STATUS_PARTIAL_CONTENT || status == STATUS_OK
}

/// Seconds to wait before the retry that follows the `retries`-th failure.
pub open spec fn backoff_delay(retries: nat) -> nat {
    pow2(retries)
}

/// The range of a segment as it appears in messages: `start-end`.
pub open spec fn range_text(segment: Segment) -> Seq<char> {
    decimal(segment.start as nat) + seq!['-'] + decimal(segment.end as nat)
}

/// The value of the `Range` header for the bytes `start` to `end`.
pub open spec fn range_header_text(start: u64, end: u64) -> Seq<char> {
    "bytes="@ + decimal(start as nat) + seq!['-'] + decimal(end as nat)
}

/// Why an attempt ended, as the final error will put it.
pub open spec fn status_reason(status: u16) -> Seq<char> {
    "unexpected status code "@ + decimal(status as nat)
}

/// Detail of the error of a segment whose retries are used up.
pub open spec fn exhausted_text(segment: Segment, reason: Option<Seq<char>>) -> Seq<char> {
    let head = "Max retries reached for segment "@ + range_text(segment);
    match reason {
        Some(text) => head + ": "@ + text,
        None => head,
    }
}

/// Detail of the error of a segment whose server sent more than was asked for.
pub open spec fn overrun_text(segment: Segment) -> Seq<char> {
    "Size mismatch for segment "@ + range_text(segment)
}

/// An attempt is over. A complete segment is done; otherwise the bytes received
/// are kept, the failure is counted, and the fetcher backs off or gives up.
pub open spec fn end_attempt(s: FetchState, reason: Option<Seq<char>>) -> (
    FetchState,
    FetchActionView,
) {
    if s.complete() {
        (FetchState { phase: FetchPhase::Done, ..s }, FetchActionView::Finished)
    } else {
        let resumed = FetchState {
            position: s.next_offset() as u64,
            received: 0,
            retries: (s.retries + 1) as u32,
            ..s
        };
        if s.retries + 1 > MAX_RETRIES {
            (
                FetchState { phase: FetchPhase::Failed, ..resumed },
                FetchActionView::Abort {
                    kind: ErrorKind::Network,
                    detail: exhausted_text(s.segment, reason),
                },
            )
        } else {
            (
                resumed,
                FetchActionView::Backoff { seconds: backoff_delay((s.retries + 1) as nat) as u64 },
            )
        }
    }
}

/// A slice of `len` bytes arrived. It becomes a chunk at the next offset,
/// unless it would pass the end of the segment.
pub open spec fn take_slice(s: FetchState, len: u64) -> (FetchState, FetchActionView) {
    if s.next_offset() + len <= s.limit() {
        (
            FetchState { received: (s.received + len) as u64, ..s },
            FetchActionView::Emit { offset: s.next_offset() as u64 },
        )
    } else {
        (
            FetchState { phase: FetchPhase::Failed, ..s },
            FetchActionView::Abort { kind: ErrorKind::Network, detail: overrun_text(s.segment) },
        )
    }
}

/// The transition function of a fetcher.
pub open spec fn step(s: FetchState, event: FetchEventView) -> (FetchState, FetchActionView) {
    if s.phase != FetchPhase::Active {
        (s, FetchActionView::Ignore)
    } else {
        match event {
            FetchEventView::TransportError(reason) => end_attempt(s, Some(reason)),
            FetchEventView::Response(status) => if acceptable_status(status) {
                (s, FetchActionView::ReadBody)
            } else {
                end_attempt(s, Some(status_reason(status)))
            },
            FetchEventView::Slice(len) => take_slice(s, len),
            FetchEventView::StreamEnded => end_attempt(s, None),
            FetchEventView::QueueClosed(reason) => (
                FetchState { phase: FetchPhase::Failed, ..s },
                FetchActionView::Abort { kind: ErrorKind::ChannelSendError, detail: reason },
            ),
        }
    }
}

/// Every step keeps a well-formed state well-formed, and never touches the
/// segment or makes a bounded fetcher open-ended.
pub proof fn lemma_step_preserves_wf(s: FetchState, event: FetchEventView)
    requires
        s.wf(),
    ensures
        step(s, event).0.wf(),
        step(s, event).0.segment == s.segment,
        step(s, event).0.open_ended == s.open_ended,
{
}

/// Appends `start-end` to `out`.
fn push_range(out: &mut String, segment: &Segment)
    ensures
        final(out)@ == old(out)@ + range_text(*segment),
{
    proof {
        reveal_strlit("-");
    }
    push_decimal(out, segment.start);
    out.append("-");
    push_decimal(out, segment.end);
    assert(out@ =~= old(out)@ + range_text(*segment));
}

/// The value of the `Range` header that asks for the bytes `start` to `end`,
/// both inclusive.
pub fn range_header(start: u64, end: u64) -> (value: String)
    ensures
        value@ == range_header_text(start, end),
{
    proof {
        reveal_strlit("-");
    }
    let mut value = String::from_str("bytes=");
    push_decimal(&mut value, start);
    value.append("-");
    push_decimal(&mut value, end);
    assert(value@ =~= range_header_text(start, end));
    value
}

/// Seconds to wait after the `retries`-th failure: two to the power `retries`.
pub fn backoff_seconds(retries: u32) -> (seconds: u64)
    requires
        retries < 64,
    ensures
        seconds == backoff_delay(retries as nat),
{
    let mut seconds: u64 = 1;
    let mut i: u32 = 0;
    proof {
        lemma2_to64();
    }
    while i < retries
        invariant
            i <= retries < 64,
            seconds == pow2(i as nat),
            pow2(64) == 0x10000000000000000,
        decreases retries - i,
    {
        proof {
            lemma_pow2_unfold((i + 1) as nat);
            if i + 1 < 64 {
                vstd::arithmetic::power2::lemma_pow2_strictly_increases((i + 1) as nat, 64);
            }
        }
        seconds = seconds * 2;
        i = i + 1;
    }
    seconds
}

/// The fetcher of one segment.
pub struct SegmentFetcher {
    state: FetchState,
}

impl View for SegmentFetcher {
    type V = FetchState;

    closed spec fn view(&self) -> FetchState {
        self.state
    }
}

impl SegmentFetcher {
    #[verifier::type_invariant]
    spec fn inv(self) -> bool {
        self.state.wf()
    }

    /// A fetcher that is about to make its first attempt at `segment`.
    pub fn new(segment: Segment) -> (fetcher: SegmentFetcher)
        requires
            segment.wf(),
        ensures
            fetcher@ == FetchState::initial(segment),
    {
        SegmentFetcher {
            state: FetchState {
                segment,
                open_ended: false,
                position: segment.start,
                received: 0,
                retries: 0,
                phase: FetchPhase::Active,
            },
        }
    }

    /// A fetcher for a resource whose size is not known: it asks for the whole
    /// resource without a range, and any non-empty body completes it.
    pub fn whole_resource() -> (fetcher: SegmentFetcher)
        ensures
            fetcher@ == FetchState::initial_whole_resource(),
    {
        SegmentFetcher {
            state: FetchState {
                segment: Segment { index: 0, start: 0, end: 0 },
                open_ended: true,
                position: 0,
                received: 0,
                retries: 0,
                phase: FetchPhase::Active,
            },
        }
    }

    /// The progress of this fetcher. It is always well-formed.
    pub fn state(&self) -> (state: FetchState)
        ensures
            state == self@,
            state.wf(),
    {
        proof {
            use_type_invariant(self);
        }
        self.state
    }

    /// The range that the next request asks for: from the first byte not yet
    /// received to the end of the segment. `None` only for the fetcher of a
    /// resource of unknown size, whose request carries no range.
    pub fn request_range(&self) -> (range: Option<(u64, u64)>)
        ensures
            range == self@.request_range(),
    {
        if self.state.open_ended {
            None
        } else {
            Some((self.state.position, self.state.segment.end))
        }
    }

    /// The value of the `Range` header of the next request, if it has one.
    pub fn range_header_value(&self) -> (value: Option<String>)
        ensures
            match self@.request_range() {
                Some((start, end)) => value matches Some(text) && text@ == range_header_text(
                    start,
                    end,
                ),
                None => value is None,
            },
    {
        match self.request_range() {
            Some((start, end)) => Some(range_header(start, end)),
            None => None,
        }
    }

    /// Ends the current attempt, with the reason to report should this have
    /// been the last one.
    fn finish_attempt(&mut self, reason: Option<&str>) -> (action: FetchAction)
        requires
            old(self)@.phase == FetchPhase::Active,
        ensures
            (final(self)@, action@) == end_attempt(
                old(self)@,
                match reason {
                    Some(text) => Some(text@),
                    None => None,
                },
            ),
    {
        proof {
            use_type_invariant(&*self);
        }
        let s = self.state;
        let complete = if s.open_ended {
            s.received > 0
        } else {
            s.position + s.received == s.segment.end + 1
        };
        if complete {
            self.state = FetchState { phase: FetchPhase::Done, ..s };
            return FetchAction::Finished;
        }
        let retries: u32 = s.retries + 1;
        let resumed = FetchState { position: s.position + s.received, received: 0, retries, ..s };
        if retries > MAX_RETRIES {
            self.state = FetchState { phase: FetchPhase::Failed, ..resumed };
            let mut detail = String::from_str("Max retries reached for segment ");
            push_range(&mut detail, &s.segment);
            match reason {
                Some(text) => {
                    detail.append(": ");
                    detail.append(text);
                },
                None => {},
            }
            FetchAction::Abort(DncliError::Network(detail))
        } else {
            self.state = resumed;
            FetchAction::Backoff { seconds: backoff_seconds(retries) }
        }
    }

    /// Takes in a slice of `len` bytes.
    fn accept_slice(&mut self, len: u64) -> (action: FetchAction)
        requires
            old(self)@.phase == FetchPhase::Active,
        ensures
            (final(self)@, action@) == take_slice(old(self)@, len),
    {
        proof {
            use_type_invariant(&*self);
        }
        let s = self.state;
        let offset: u64 = s.position + s.received;
        let room: u64 = if s.open_ended {
            u64::MAX - offset
        } else {
            s.segment.end + 1 - offset
        };
        if len <= room {
            self.state = FetchState { received: s.received + len, ..s };
            FetchAction::Emit { offset }
        } else {
            self.state = FetchState { phase: FetchPhase::Failed, ..s };
            let mut detail = String::from_str("Size mismatch for segment ");
            push_range(&mut detail, &s.segment);
            FetchAction::Abort(DncliError::Network(detail))
        }
    }

    /// Advances the fetcher by one event and says what to do next.
    pub fn step(&mut self, event: FetchEvent) -> (action: FetchAction)
        ensures
            (final(self)@, action@) == step(old(self)@, event@),
            final(self)@.wf(),
    {
        proof {
            use_type_invariant(&*self);
            lemma_step_preserves_wf(self@, event@);
        }
        match self.state.phase {
            FetchPhase::Active => {},
            _ => {
                return FetchAction::Ignore;
            },
        }
        match event {
            FetchEvent::TransportError(reason) => self.finish_attempt(Some(reason.as_str())),
            FetchEvent::Response(status) => {
                if status == STATUS_PARTIAL_CONTENT || status == STATUS_OK {
                    FetchAction::ReadBody
                } else {
                    let mut reason = String::from_str("unexpected status code ");
                    push_decimal(&mut reason, status as u64);
                    self.finish_attempt(Some(reason.as_str()))
                }
            },
            FetchEvent::Slice(len) => self.accept_slice(len),
            FetchEvent::StreamEnded => self.finish_attempt(None),
            FetchEvent::QueueClosed(reason) => {
                let s = self.state;
                self.state = FetchState { phase: FetchPhase::Failed, ..s };
                FetchAction::Abort(DncliError::ChannelSendError(reason))
            },
        }
    }
}

/// The state that a fetcher reaches from `s` after the events `events`.
pub open spec fn run(s: FetchState, events: Seq<FetchEventView>) -> FetchState
    decreases events.len(),
{
    if events.len() == 0 {
        s
    } else {
        step(run(s, events.drop_last()), events.last()).0
    }
}

/// The chunks that a fetcher starting in `s` asks to queue over `events`, in
/// the order in which it hands them on.
pub open spec fn emitted(s: FetchState, events: Seq<FetchEventView>) -> Seq<ChunkSpan>
    decreases events.len(),
{
    if events.len() == 0 {
        Seq::empty()
    } else {
        let earlier = emitted(s, events.drop_last());
        match (events.last(), step(run(s, events.drop_last()), events.last()).1) {
            (FetchEventView::Slice(len), FetchActionView::Emit { offset }) => earlier.push(
                ChunkSpan { offset, len },
            ),
            _ => earlier,
        }
    }
}

/// How often a fetcher starting in `s` backs off over `events`.
pub open spec fn backoffs(s: FetchState, events: Seq<FetchEventView>) -> nat
    decreases events.len(),
{
    if events.len() == 0 {
        0
    } else {
        let earlier = backoffs(s, events.drop_last());
        match step(run(s, events.drop_last()), events.last()).1 {
            FetchActionView::Backoff { .. } => earlier + 1,
            _ => earlier,
        }
    }
}

/// Whatever happens, a fetcher stays well-formed and keeps its segment.
pub proof fn lemma_run_preserves_wf(s: FetchState, events: Seq<FetchEventView>)
    requires
        s.wf(),
    ensures
        run(s, events).wf(),
        run(s, events).segment == s.segment,
        run(s, events).open_ended == s.open_ended,
    decreases events.len(),
{
    if events.len() > 0 {
        lemma_run_preserves_wf(s, events.drop_last());
        lemma_step_preserves_wf(run(s, events.drop_last()), events.last());
    }
}

/// The chunks that a fetcher hands on follow one another without gap or
/// overlap: they start where the fetcher started and end at the next byte it
/// expects. Retries never hand a byte on twice.
pub proof fn lemma_emitted_tiles(s: FetchState, events: Seq<FetchEventView>)
    requires
        s.wf(),
    ensures
        spans_tile(emitted(s, events), s.next_offset(), run(s, events).next_offset()),
    decreases events.len(),
{
    if events.len() > 0 {
        lemma_emitted_tiles(s, events.drop_last());
        lemma_run_preserves_wf(s, events.drop_last());
        let before = run(s, events.drop_last());
        let earlier = emitted(s, events.drop_last());
        match (events.last(), step(before, events.last()).1) {
            (FetchEventView::Slice(len), FetchActionView::Emit { offset }) => {
                let span = ChunkSpan { offset, len };
                assert(earlier.push(span).drop_last() =~= earlier);
                assert(earlier.push(span).last() == span);
            },
            _ => {},
        }
    }
}

/// A fetcher that has finished its segment has written every byte of the
/// segment exactly once. No fetcher of a segment, finished or not, has written
/// a byte outside the segment.
pub proof fn lemma_segment_written_once(
    segment: Segment,
    events: Seq<FetchEventView>,
    offset: int,
)
    requires
        segment.wf(),
    ensures
        run(FetchState::initial(segment), events).phase == FetchPhase::Done && segment.covers(
            offset,
        ) ==> times_written(emitted(FetchState::initial(segment), events), offset) == 1,
        !segment.covers(offset) ==> times_written(
            emitted(FetchState::initial(segment), events),
            offset,
        ) == 0,
        run(FetchState::initial(segment), events).phase == FetchPhase::Done ==> total_len(
            emitted(FetchState::initial(segment), events),
        ) == segment.size(),
{
    let s = FetchState::initial(segment);
    lemma_run_preserves_wf(s, events);
    lemma_emitted_tiles(s, events);
    lemma_tiling_writes_once(
        emitted(s, events),
        s.next_offset(),
        run(s, events).next_offset(),
        offset,
    );
}

/// What follows an attempt that ends short of the segment's end, however it
/// ends. The next request starts at the first byte not yet handed on, which is
/// the segment's start plus every byte received so far, over all attempts, and
/// runs to the segment's end. While fewer than `MAX_RETRIES` attempts have
/// failed before, the fetcher waits two to the power of the number of failures
/// so far, this one included, and the first slice of the next attempt goes to
/// that same offset. Otherwise it fails with a network error that names the
/// segment's range.
pub proof fn lemma_resume_where_stopped(
    segment: Segment,
    events: Seq<FetchEventView>,
    last: FetchEventView,
    len: u64,
)
    requires
        segment.wf(),
        run(FetchState::initial(segment), events).phase == FetchPhase::Active,
        !run(FetchState::initial(segment), events).complete(),
        failed_attempt(last),
    ensures
        ({
            let s = FetchState::initial(segment);
            let here = segment.start + total_len(emitted(s, events));
            let failures = backoffs(s, events);
            let next = step(run(s, events), last).0;
            let action = step(run(s, events), last).1;
            &&& here <= segment.end
            &&& next.request_range() == Some((here as u64, segment.end))
            &&& failures <= MAX_RETRIES
            &&& failures < MAX_RETRIES ==> next.phase == FetchPhase::Active && action
                == (FetchActionView::Backoff { seconds: backoff_delay(failures + 1) as u64 })
            &&& failures == MAX_RETRIES ==> next.phase == FetchPhase::Failed && action
                == (FetchActionView::Abort {
                kind: ErrorKind::Network,
                detail: exhausted_text(segment, failure_reason(last)),
            })
            &&& next.phase == FetchPhase::Active && here + len <= segment.end + 1 ==> step(
                next,
                FetchEventView::Slice(len),
            ).1 == (FetchActionView::Emit { offset: here as u64 })
        }),
{
    let s = FetchState::initial(segment);
    lemma_run_preserves_wf(s, events);
    lemma_emitted_tiles(s, events);
    lemma_tiling_writes_once(emitted(s, events), s.next_offset(), run(s, events).next_offset(), 0);
    lemma_retry_budget(segment, events);
}

/// The same for a first attempt: a stream that ends cleanly after `k` bytes of
/// a longer segment makes the second request start at the segment's start plus
/// `k`, not at the start.
pub proof fn lemma_truncated_stream_resumes(segment: Segment, status: u16, k: u64)
    requires
        segment.wf(),
        acceptable_status(status),
        k < segment.size(),
    ensures
        run(
            FetchState::initial(segment),
            seq![
                FetchEventView::Response(status),
                FetchEventView::Slice(k),
                FetchEventView::StreamEnded,
            ],
        ).request_range() == Some(((segment.start + k) as u64, segment.end)),
{
    let s = FetchState::initial(segment);
    let first = seq![FetchEventView::Response(status)];
    let second = seq![FetchEventView::Response(status), FetchEventView::Slice(k)];
    let third = seq![
        FetchEventView::Response(status),
        FetchEventView::Slice(k),
        FetchEventView::StreamEnded,
    ];
    assert(first.drop_last() =~= Seq::<FetchEventView>::empty());
    assert(second.drop_last() =~= first);
    assert(third.drop_last() =~= second);
    assert(run(s, first.drop_last()) == s);
    assert(run(s, first) == s);
    assert(run(s, second) == (FetchState { received: k, ..s }));
}

/// Whether `event` ends an attempt.
pub open spec fn failed_attempt(event: FetchEventView) -> bool {
    match event {
        FetchEventView::TransportError(_) => true,
        FetchEventView::Response(status) => !acceptable_status(status),
        FetchEventView::StreamEnded => true,
        _ => false,
    }
}

/// The reason that the final error gives for an attempt ended by `event`.
pub open spec fn failure_reason(event: FetchEventView) -> Option<Seq<char>> {
    match event {
        FetchEventView::TransportError(reason) => Some(reason),
        FetchEventView::Response(status) => Some(status_reason(status)),
        _ => None,
    }
}

/// A fetcher backs off at most `MAX_RETRIES` times, and while it is active its
/// retry counter is the number of times it has backed off.
pub proof fn lemma_retry_budget(segment: Segment, events: Seq<FetchEventView>)
    requires
        segment.wf(),
    ensures
        backoffs(FetchState::initial(segment), events) <= MAX_RETRIES,
        run(FetchState::initial(segment), events).phase == FetchPhase::Active ==> run(
            FetchState::initial(segment),
            events,
        ).retries == backoffs(FetchState::initial(segment), events),
        run(FetchState::initial(segment), events).retries >= backoffs(
            FetchState::initial(segment),
            events,
        ),
    decreases events.len(),
{
    if events.len() > 0 {
        lemma_retry_budget(segment, events.drop_last());
        lemma_run_preserves_wf(FetchState::initial(segment), events.drop_last());
    }
}

/// A segment whose every attempt fails is retried exactly `MAX_RETRIES` times,
/// after waits of 2, 4, 8, 16 and 32 seconds; the failure after that ends it
/// with a network error that names the segment's range.
pub proof fn lemma_always_failing_segment(segment: Segment, events: Seq<FetchEventView>, i: int)
    requires
        segment.wf(),
        forall|k: int| 0 <= k < events.len() ==> failed_attempt(#[trigger] events[k]),
        0 <= i < events.len(),
        i <= MAX_RETRIES,
    ensures
        i < MAX_RETRIES ==> step(
            run(FetchState::initial(segment), events.take(i)),
            events[i],
        ).1 == (FetchActionView::Backoff { seconds: backoff_delay((i + 1) as nat) as u64 }),
        i == MAX_RETRIES ==> step(
            run(FetchState::initial(segment), events.take(i)),
            events[i],
        ).1 == (FetchActionView::Abort {
            kind: ErrorKind::Network,
            detail: exhausted_text(segment, failure_reason(events[i])),
        }),
        i == MAX_RETRIES ==> run(FetchState::initial(segment), events.take(i + 1)).phase
            == FetchPhase::Failed,
        backoff_delay(1) == 2 && backoff_delay(2) == 4 && backoff_delay(3) == 8 && backoff_delay(4)
            == 16 && backoff_delay(5) == 32,
{
    lemma2_to64();
    lemma_failing_prefix(segment, events, i);
    assert(events.take(i + 1).drop_last() =~= events.take(i));
    assert(events.take(i + 1).last() == events[i]);
}

/// After `i` failed attempts, and nothing else, a fetcher is where it began
/// but for its retry counter.
proof fn lemma_failing_prefix(segment: Segment, events: Seq<FetchEventView>, i: int)
    requires
        segment.wf(),
        forall|k: int| 0 <= k < events.len() ==> failed_attempt(#[trigger] events[k]),
        0 <= i <= events.len(),
        i <= MAX_RETRIES,
    ensures
        run(FetchState::initial(segment), events.take(i)) == (FetchState {
            retries: i as u32,
            ..FetchState::initial(segment)
        }),
    decreases i,
{
    if i > 0 {
        lemma_failing_prefix(segment, events, i - 1);
        assert(events.take(i).drop_last() =~= events.take(i - 1));
        assert(events.take(i).last() == events[i - 1]);
        assert(failed_attempt(events[i - 1]));
    }
}

} // verus!
