//! Errors of a download, and the orchestration that decides how it proceeds.

use crate::location::{check_url, parsed_url_path, refuses_url};
use crate::output::{unknown_file_name, FileInfo};
use crate::plan::{plan, plan_spec, Segment};
use crate::probe::{declared_size, DownloadTarget};
use vstd::prelude::*;

verus! {

/// What went wrong, without the detail text.
#[derive(Clone, Copy, Debug, PartialEq, Eq, Structural)]
pub enum ErrorKind {
    HttpRequest,
    Io,
    UrlParse,
    Network,
    Other,
    Join,
    ChannelSendError,
}

/// A fatal failure of a download. Each variant carries its detail as text.
#[derive(Debug, Clone, PartialEq, Eq)]
pub enum DncliError {
    /// The capability probe or a whole-resource request failed.
    HttpRequest(String),
    /// The output file could not be created, positioned or written.
    Io(String),
    /// The URL is not an absolute URL.
    UrlParse(String),
    /// A segment could not be fetched.
    Network(String),
    /// Any other failure.
    Other(String),
    /// A task of the download ended abnormally.
    Join(String),
    /// A fetcher could not hand a chunk to the sink.
    ChannelSendError(String),
}

impl DncliError {
    /// The variant of this error.
    pub open spec fn kind(self) -> ErrorKind {
        match self {
            DncliError::HttpRequest(_) => ErrorKind::HttpRequest,
            DncliError::Io(_) => ErrorKind::Io,
            DncliError::UrlParse(_) => ErrorKind::UrlParse,
            DncliError::Network(_) => ErrorKind::Network,
            DncliError::Other(_) => ErrorKind::Other,
            DncliError::Join(_) => ErrorKind::Join,
            DncliError::ChannelSendError(_) => ErrorKind::ChannelSendError,
        }
    }

    /// The detail text that the variant carries.
    pub open spec fn detail(self) -> Seq<char> {
        match self {
            DncliError::HttpRequest(d) => d@,
            DncliError::Io(d) => d@,
            DncliError::UrlParse(d) => d@,
            DncliError::Network(d) => d@,
            DncliError::Other(d) => d@,
            DncliError::Join(d) => d@,
            DncliError::ChannelSendError(d) => d@,
        }
    }

    /// The variant of this error.
    pub fn error_kind(&self) -> (k: ErrorKind)
        ensures
            k == self.kind(),
    {
        match self {
            DncliError::HttpRequest(_) => ErrorKind::HttpRequest,
            DncliError::Io(_) => ErrorKind::Io,
            DncliError::UrlParse(_) => ErrorKind::UrlParse,
            DncliError::Network(_) => ErrorKind::Network,
            DncliError::Other(_) => ErrorKind::Other,
            DncliError::Join(_) => ErrorKind::Join,
            DncliError::ChannelSendError(_) => ErrorKind::ChannelSendError,
        }
    }

    /// The text shown to the user: a label for the variant, then the detail.
    pub fn message(&self) -> (text: String)
        ensures
            text@ == error_label(self.kind()) + self.detail(),
    {
        let (label, detail) = match self {
            DncliError::HttpRequest(d) => ("HTTP request error: ", d),
            DncliError::Io(d) => ("I/O error: ", d),
            DncliError::UrlParse(d) => ("URL parse error: ", d),
            DncliError::Network(d) => ("Network error: ", d),
            DncliError::Other(d) => ("Error: ", d),
            DncliError::Join(d) => ("Task join error: ", d),
            DncliError::ChannelSendError(d) => ("Channel send error: ", d),
        };
        let mut text = String::from_str(label);
        text.append(detail.as_str());
        text
    }
}

/// The label that precedes the detail in an error's message.
pub open spec fn error_label(kind: ErrorKind) -> Seq<char> {
    match kind {
        ErrorKind::HttpRequest => "HTTP request error: "@,
        ErrorKind::Io => "I/O error: "@,
        ErrorKind::UrlParse => "URL parse error: "@,
        ErrorKind::Network => "Network error: "@,
        ErrorKind::Other => "Error: "@,
        ErrorKind::Join => "Task join error: "@,
        ErrorKind::ChannelSendError => "Channel send error: "@,
    }
}

/// How the bytes of a resource are fetched.
#[derive(Clone, Copy, Debug, PartialEq, Eq, Structural)]
pub enum Strategy {
    /// One request for the whole resource, written out as it arrives.
    SingleStream,
    /// One fetcher per byte range, all writing through the ordered sink.
    Segmented,
}

/// The strategy for a resource: segmented only if the server supports ranges,
/// the size is known, and more than one connection was asked for.
pub open spec fn strategy_for(supports_ranges: bool, total_size: u64, connections: usize) -> Strategy {
    if supports_ranges && total_size > 0 && connections > 1 {
        Strategy::Segmented
    } else {
        Strategy::SingleStream
    }
}

/// Chooses between the segmented and the single-stream download.
pub fn choose_strategy(supports_ranges: bool, total_size: u64, connections: usize) -> (strategy:
    Strategy)
    ensures
        strategy == strategy_for(supports_ranges, total_size, connections),
        !supports_ranges || total_size == 0 || connections == 1 ==> strategy
            == Strategy::SingleStream,
{
    if supports_ranges && total_size > 0 && connections > 1 {
        Strategy::Segmented
    } else {
        Strategy::SingleStream
    }
}

/// Where a download stands.
#[derive(Clone, Copy, Debug, PartialEq, Eq, Structural)]
pub enum DownloadPhase {
    /// Waiting for the answer to the capability probe.
    Probing,
    /// The whole resource is being streamed over one connection.
    SingleStream,
    /// The segmented strategy was chosen; the output file is being created.
    Segmented,
    /// Fetchers and sink are running, or the sink is draining the queue.
    Joining,
    Succeeded,
    Failed,
}

/// The progress of a download.
#[derive(Clone, Copy, Debug, PartialEq, Eq, Structural)]
pub struct DownloadState {
    pub phase: DownloadPhase,
    /// Connections asked for.
    pub connections: usize,
    /// What the probe found; meaningful once probing is over.
    pub target: DownloadTarget,
    /// Fetchers that have not finished yet; meaningful while joining.
    pub pending: usize,
}

impl DownloadState {
    /// What holds of every download: it runs fetchers only where the
    /// segmented strategy applies.
    pub open spec fn wf(self) -> bool {
        self.phase == DownloadPhase::Segmented || self.phase == DownloadPhase::Joining
            ==> strategy_for(
            self.target.supports_ranges,
            self.target.total_size,
            self.connections,
        ) == Strategy::Segmented
    }

    /// The state of a download that has just sent its probe.
    pub open spec fn initial(connections: usize) -> DownloadState {
        DownloadState {
            phase: DownloadPhase::Probing,
            connections,
            target: DownloadTarget { total_size: 0, supports_ranges: false },
            pending: 0,
        }
    }
}

/// A download as its contracts see it.
pub struct DownloadView {
    pub url: Seq<char>,
    pub file_name: Seq<char>,
    pub state: DownloadState,
}

/// What the caller reports to a download.
#[derive(Debug, Clone, PartialEq, Eq)]
pub enum DownloadEvent {
    /// The probe was answered: the value of the `Content-Length` header, if
    /// there is one, and whether there is an `Accept-Ranges` header.
    Probed { content_length: Option<Vec<u8>>, accept_ranges: bool },
    /// The probe failed; the text says how.
    ProbeFailed(String),
    /// The output file has been created.
    OutputReady,
    /// One fetcher has finished its segment.
    FetcherFinished,
    /// The writer has written everything it was given: the ordered sink after
    /// the queue was closed, or the single stream at its end.
    WriterFinished,
    /// A fetcher, the sink, the single stream or the creation of the output
    /// file failed with this error.
    Failed(DncliError),
}

/// A [`DownloadEvent`] with its texts as sequences.
pub enum DownloadEventView {
    Probed { content_length: Option<Seq<u8>>, accept_ranges: bool },
    ProbeFailed(Seq<char>),
    OutputReady,
    FetcherFinished,
    WriterFinished,
    Failed { kind: ErrorKind, detail: Seq<char> },
}

impl View for DownloadEvent {
    type V = DownloadEventView;

    open spec fn view(&self) -> DownloadEventView {
        match self {
            DownloadEvent::Probed { content_length, accept_ranges } => DownloadEventView::Probed {
                content_length: match content_length {
                    Some(text) => Some(text@),
                    None => None,
                },
                accept_ranges: *accept_ranges,
            },
            DownloadEvent::ProbeFailed(reason) => DownloadEventView::ProbeFailed(reason@),
            DownloadEvent::OutputReady => DownloadEventView::OutputReady,
            DownloadEvent::FetcherFinished => DownloadEventView::FetcherFinished,
            DownloadEvent::WriterFinished => DownloadEventView::WriterFinished,
            DownloadEvent::Failed(error) => DownloadEventView::Failed {
                kind: error.kind(),
                detail: error.detail(),
            },
        }
    }
}

/// What a download asks its caller to do next.
#[derive(Debug, Clone, PartialEq, Eq)]
pub enum DownloadAction {
    /// Request the whole resource, without a range, and write it out in order.
    StreamWhole,
    /// Create the output file.
    CreateOutput,
    /// Start the ordered sink and one fetcher for each of these segments.
    FetchSegments(Vec<Segment>),
    /// Wait for the next event.
    Wait,
    /// Every fetcher has finished: close the chunk queue, so that the sink
    /// ends once it has drained it.
    CloseQueue,
    /// The download is complete; this is its report.
    Report(FileInfo),
    /// The download has failed with this error; stop what is still running.
    Fail(DncliError),
    /// The event does not apply where the download stands; nothing changed.
    Ignore,
}

/// A [`DownloadAction`] with its payload as sequences.
pub enum DownloadActionView {
    StreamWhole,
    CreateOutput,
    FetchSegments(Seq<Segment>),
    Wait,
    CloseQueue,
    Report { url: Seq<char>, file_name: Seq<char>, total_size: u64 },
    Fail { kind: ErrorKind, detail: Seq<char> },
    Ignore,
}

impl View for DownloadAction {
    type V = DownloadActionView;

    open spec fn view(&self) -> DownloadActionView {
        match self {
            DownloadAction::StreamWhole => DownloadActionView::StreamWhole,
            DownloadAction::CreateOutput => DownloadActionView::CreateOutput,
            DownloadAction::FetchSegments(segments) => DownloadActionView::FetchSegments(segments@),
            DownloadAction::Wait => DownloadActionView::Wait,
            DownloadAction::CloseQueue => DownloadActionView::CloseQueue,
            DownloadAction::Report(info) => DownloadActionView::Report {
                url: info.url@,
                file_name: info.file_name@,
                total_size: info.total_size,
            },
            DownloadAction::Fail(error) => DownloadActionView::Fail {
                kind: error.kind(),
                detail: error.detail(),
            },
            DownloadAction::Ignore => DownloadActionView::Ignore,
        }
    }
}

/// The download has failed: the first error reported is the one it fails with.
pub open spec fn fail_with(s: DownloadState, kind: ErrorKind, detail: Seq<char>) -> (
    DownloadState,
    DownloadActionView,
) {
    (DownloadState { phase: DownloadPhase::Failed, ..s }, DownloadActionView::Fail { kind, detail })
}

/// The download is complete.
pub open spec fn succeed(d: DownloadView) -> (DownloadState, DownloadActionView) {
    (
        DownloadState { phase: DownloadPhase::Succeeded, ..d.state },
        DownloadActionView::Report {
            url: d.url,
            file_name: d.file_name,
            total_size: d.state.target.total_size,
        },
    )
}

/// The probe was answered: the strategy is chosen.
pub open spec fn on_probed(
    s: DownloadState,
    content_length: Option<Seq<u8>>,
    accept_ranges: bool,
) -> (DownloadState, DownloadActionView) {
    let target = DownloadTarget {
        total_size: declared_size(content_length),
        supports_ranges: accept_ranges,
    };
    match strategy_for(accept_ranges, target.total_size, s.connections) {
        Strategy::SingleStream => (
            DownloadState { phase: DownloadPhase::SingleStream, target, ..s },
            DownloadActionView::StreamWhole,
        ),
        Strategy::Segmented => (
            DownloadState { phase: DownloadPhase::Segmented, target, ..s },
            DownloadActionView::CreateOutput,
        ),
    }
}

/// One fetcher has finished; the last one to do so has the queue closed.
pub open spec fn on_fetcher_finished(s: DownloadState) -> (DownloadState, DownloadActionView) {
    if s.pending == 0 {
        (s, DownloadActionView::Ignore)
    } else if s.pending == 1 {
        (DownloadState { pending: 0, ..s }, DownloadActionView::CloseQueue)
    } else {
        (DownloadState { pending: (s.pending - 1) as usize, ..s }, DownloadActionView::Wait)
    }
}

/// The transition function of a download.
pub open spec fn download_step(d: DownloadView, event: DownloadEventView) -> (
    DownloadState,
    DownloadActionView,
) {
    let s = d.state;
    match (s.phase, event) {
        (DownloadPhase::Succeeded, _) => (s, DownloadActionView::Ignore),
        (DownloadPhase::Failed, _) => (s, DownloadActionView::Ignore),
        (_, DownloadEventView::Failed { kind, detail }) => fail_with(s, kind, detail),
        (DownloadPhase::Probing, DownloadEventView::Probed { content_length, accept_ranges }) => {
            on_probed(s, content_length, accept_ranges)
        },
        (DownloadPhase::Probing, DownloadEventView::ProbeFailed(reason)) => fail_with(
            s,
            ErrorKind::HttpRequest,
            reason,
        ),
        (DownloadPhase::SingleStream, DownloadEventView::WriterFinished) => succeed(d),
        (DownloadPhase::Segmented, DownloadEventView::OutputReady) => (
            DownloadState {
                phase: DownloadPhase::Joining,
                pending: plan_spec(s.target.total_size, s.connections).len() as usize,
                ..s
            },
            DownloadActionView::FetchSegments(plan_spec(s.target.total_size, s.connections)),
        ),
        (DownloadPhase::Joining, DownloadEventView::FetcherFinished) => on_fetcher_finished(s),
        (DownloadPhase::Joining, DownloadEventView::WriterFinished) => if s.pending == 0 {
            succeed(d)
        } else {
            (s, DownloadActionView::Ignore)
        },
        _ => (s, DownloadActionView::Ignore),
    }
}

/// Every step keeps a well-formed download well-formed, and never changes the
/// number of connections asked for.
pub proof fn lemma_download_step_preserves_wf(d: DownloadView, event: DownloadEventView)
    requires
        d.state.wf(),
    ensures
        download_step(d, event).0.wf(),
        download_step(d, event).0.connections == d.state.connections,
{
}

/// The single stream is chosen whenever the server advertises no ranges, the
/// size is unknown, or at most one connection was asked for; the segmented
/// download in every other case.
pub proof fn lemma_strategy_fallback(
    d: DownloadView,
    content_length: Option<Seq<u8>>,
    accept_ranges: bool,
)
    requires
        d.state.phase == DownloadPhase::Probing,
    ensures
        ({
            let event = DownloadEventView::Probed { content_length, accept_ranges };
            let single = !accept_ranges || declared_size(content_length) == 0
                || d.state.connections <= 1;
            &&& single ==> download_step(d, event).0.phase == DownloadPhase::SingleStream
                && download_step(d, event).1 == DownloadActionView::StreamWhole
            &&& !single ==> download_step(d, event).0.phase == DownloadPhase::Segmented
                && download_step(d, event).1 == DownloadActionView::CreateOutput
        }),
{
}

/// The state that a download reaches from `d` after the events `events`.
pub open spec fn download_run(d: DownloadView, events: Seq<DownloadEventView>) -> DownloadState
    decreases events.len(),
{
    if events.len() == 0 {
        d.state
    } else {
        download_step(
            DownloadView { state: download_run(d, events.drop_last()), ..d },
            events.last(),
        ).0
    }
}

/// How many fetchers a download starting in `d` has seen finish over `events`:
/// the reports of a finished fetcher that it did not ignore.
pub open spec fn fetchers_joined(d: DownloadView, events: Seq<DownloadEventView>) -> nat
    decreases events.len(),
{
    if events.len() == 0 {
        0
    } else {
        let before = download_run(d, events.drop_last());
        let earlier = fetchers_joined(d, events.drop_last());
        if events.last() is FetcherFinished && before.phase == DownloadPhase::Joining
            && before.pending > 0 {
            earlier + 1
        } else {
            earlier
        }
    }
}

/// Whether a download in phase `phase` is over.
pub open spec fn is_terminal(phase: DownloadPhase) -> bool {
    phase == DownloadPhase::Succeeded || phase == DownloadPhase::Failed
}

/// What holds of a download that started with its probe, at any later time.
spec fn joined_in_step(s: DownloadState, start: DownloadState, joined: nat) -> bool {
    let segmented = strategy_for(s.target.supports_ranges, s.target.total_size, s.connections)
        == Strategy::Segmented;
    let planned = plan_spec(s.target.total_size, s.connections).len();
    &&& s.connections == start.connections
    &&& s.phase == DownloadPhase::Probing ==> joined == 0
    &&& s.phase == DownloadPhase::SingleStream ==> joined == 0 && !segmented
    &&& s.phase == DownloadPhase::Segmented ==> joined == 0 && segmented
    &&& s.phase == DownloadPhase::Joining ==> segmented && s.pending + joined == planned
    &&& s.phase == DownloadPhase::Succeeded ==> if segmented {
        joined == planned
    } else {
        joined == 0
    }
}

proof fn lemma_joined_in_step(d: DownloadView, events: Seq<DownloadEventView>)
    requires
        d.state.phase == DownloadPhase::Probing,
    ensures
        joined_in_step(download_run(d, events), d.state, fetchers_joined(d, events)),
    decreases events.len(),
{
    if events.len() > 0 {
        lemma_joined_in_step(d, events.drop_last());
    }
}

/// A download that has ended stays as it ended, whatever it is told.
pub proof fn lemma_end_is_final(
    d: DownloadView,
    events: Seq<DownloadEventView>,
    more: Seq<DownloadEventView>,
)
    requires
        is_terminal(download_run(d, events).phase),
    ensures
        download_run(d, events + more) == download_run(d, events),
    decreases more.len(),
{
    if more.len() == 0 {
        assert(events + more =~= events);
    } else {
        lemma_end_is_final(d, events, more.drop_last());
        assert((events + more).drop_last() =~= events + more.drop_last());
        assert((events + more).last() == more.last());
    }
}

/// A failure reported to a download that is still running ends it as failed:
/// no later event can make it succeed.
pub proof fn lemma_failure_is_fatal(d: DownloadView, events: Seq<DownloadEventView>, i: int)
    requires
        0 <= i < events.len(),
        events[i] is Failed,
        !is_terminal(download_run(d, events.take(i)).phase),
    ensures
        download_run(d, events).phase == DownloadPhase::Failed,
{
    let upto = events.take(i + 1);
    assert(upto.drop_last() =~= events.take(i));
    assert(upto.last() == events[i]);
    assert(download_run(d, upto).phase == DownloadPhase::Failed);
    lemma_end_is_final(d, upto, events.skip(i + 1));
    assert(upto + events.skip(i + 1) =~= events);
}

/// A segmented download succeeds only after every one of its fetchers has
/// finished; a download over a single stream has no fetcher to wait for.
pub proof fn lemma_success_joins_every_fetcher(d: DownloadView, events: Seq<DownloadEventView>)
    requires
        d.state.phase == DownloadPhase::Probing,
        download_run(d, events).phase == DownloadPhase::Succeeded,
    ensures
        ({
            let end = download_run(d, events);
            fetchers_joined(d, events) == match strategy_for(
                end.target.supports_ranges,
                end.target.total_size,
                d.state.connections,
            ) {
                Strategy::Segmented => plan_spec(end.target.total_size, d.state.connections).len(),
                Strategy::SingleStream => 0,
            }
        }),
{
    lemma_joined_in_step(d, events);
}

/// A download from its probe to its end.
pub struct Download {
    url: String,
    file_name: String,
    state: DownloadState,
}

impl View for Download {
    type V = DownloadView;

    closed spec fn view(&self) -> DownloadView {
        DownloadView { url: self.url@, file_name: self.file_name@, state: self.state }
    }
}

impl Download {
    #[verifier::type_invariant]
    spec fn inv(self) -> bool {
        self.state.wf()
    }

    /// A download of `url` over `connections` connections, to be reported
    /// under `file_name`; a missing name is reported as `unknown`. The probe is
    /// the caller's next move. A `url` that is no absolute URL is refused.
    pub fn start(url: &str, file_name: Option<&str>, connections: usize) -> (r: Result<
        Download,
        DncliError,
    >)
        ensures
            match r {
                Ok(download) => parsed_url_path(url@) is Some && download@ == (DownloadView {
                    url: url@,
                    file_name: match file_name {
                        Some(name) => name@,
                        None => unknown_file_name(),
                    },
                    state: DownloadState::initial(connections),
                }),
                Err(error) => refuses_url(error, url@),
            },
    {
        match check_url(url) {
            Ok(()) => {},
            Err(error) => {
                return Err(error);
            },
        }
        let info = FileInfo::new(url, file_name, 0);
        Ok(
            Download {
                url: info.url,
                file_name: info.file_name,
                state: DownloadState {
                    phase: DownloadPhase::Probing,
                    connections,
                    target: DownloadTarget { total_size: 0, supports_ranges: false },
                    pending: 0,
                },
            },
        )
    }

    /// The progress of this download. It is always well-formed.
    pub fn state(&self) -> (state: DownloadState)
        ensures
            state == self@.state,
            state.wf(),
    {
        proof {
            use_type_invariant(self);
        }
        self.state
    }

    /// The report of this download as it stands.
    pub fn file_info(&self) -> (info: FileInfo)
        ensures
            info.url@ == self@.url,
            info.file_name@ == self@.file_name,
            info.total_size == self@.state.target.total_size,
    {
        FileInfo {
            url: self.url.clone(),
            file_name: self.file_name.clone(),
            total_size: self.state.target.total_size,
        }
    }

    /// Advances the download by one event and says what to do next.
    pub fn step(&mut self, event: DownloadEvent) -> (action: DownloadAction)
        ensures
            (final(self)@.state, action@) == download_step(old(self)@, event@),
            final(self)@.url == old(self)@.url,
            final(self)@.file_name == old(self)@.file_name,
            final(self)@.state.wf(),
    {
        proof {
            use_type_invariant(&*self);
            lemma_download_step_preserves_wf(self@, event@);
        }
        let s = self.state;
        match s.phase {
            DownloadPhase::Succeeded => {
                return DownloadAction::Ignore;
            },
            DownloadPhase::Failed => {
                return DownloadAction::Ignore;
            },
            _ => {},
        }
        match event {
            DownloadEvent::Failed(error) => {
                self.state = DownloadState { phase: DownloadPhase::Failed, ..s };
                DownloadAction::Fail(error)
            },
            DownloadEvent::Probed { content_length, accept_ranges } => {
                match s.phase {
                    DownloadPhase::Probing => {},
                    _ => {
                        return DownloadAction::Ignore;
                    },
                }
                let target = match &content_length {
                    Some(text) => DownloadTarget::from_probe(Some(text.as_slice()), accept_ranges),
                    None => DownloadTarget::from_probe(None, accept_ranges),
                };
                match choose_strategy(target.supports_ranges, target.total_size, s.connections) {
                    Strategy::SingleStream => {
                        self.state = DownloadState {
                            phase: DownloadPhase::SingleStream,
                            target,
                            ..s
                        };
                        DownloadAction::StreamWhole
                    },
                    Strategy::Segmented => {
                        self.state = DownloadState { phase: DownloadPhase::Segmented, target, ..s };
                        DownloadAction::CreateOutput
                    },
                }
            },
            DownloadEvent::ProbeFailed(reason) => {
                match s.phase {
                    DownloadPhase::Probing => {
                        self.state = DownloadState { phase: DownloadPhase::Failed, ..s };
                        DownloadAction::Fail(DncliError::HttpRequest(reason))
                    },
                    _ => DownloadAction::Ignore,
                }
            },
            DownloadEvent::OutputReady => {
                match s.phase {
                    DownloadPhase::Segmented => {
                        let segments = plan(s.target.total_size, s.connections);
                        self.state = DownloadState {
                            phase: DownloadPhase::Joining,
                            pending: segments.len(),
                            ..s
                        };
                        DownloadAction::FetchSegments(segments)
                    },
                    _ => DownloadAction::Ignore,
                }
            },
            DownloadEvent::FetcherFinished => {
                match s.phase {
                    DownloadPhase::Joining => {
                        if s.pending == 0 {
                            DownloadAction::Ignore
                        } else if s.pending == 1 {
                            self.state = DownloadState { pending: 0, ..s };
                            DownloadAction::CloseQueue
                        } else {
                            self.state = DownloadState { pending: s.pending - 1, ..s };
                            DownloadAction::Wait
                        }
                    },
                    _ => DownloadAction::Ignore,
                }
            },
            DownloadEvent::WriterFinished => {
                let done = match s.phase {
                    DownloadPhase::SingleStream => true,
                    DownloadPhase::Joining => s.pending == 0,
                    _ => false,
                };
                if done {
                    self.state = DownloadState { phase: DownloadPhase::Succeeded, ..s };
                    DownloadAction::Report(self.file_info())
                } else {
                    DownloadAction::Ignore
                }
            },
        }
    }
}

} // verus!
