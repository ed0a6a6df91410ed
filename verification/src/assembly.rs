//! How the chunks of all fetchers assemble into the output file.

use crate::fetch::{
    emitted, lemma_segment_written_once, run, FetchEventView, FetchPhase, FetchState,
};
use crate::plan::{is_partition, lemma_plan_is_partition, plan_spec, Segment};
use crate::sink::{
    arrivals, lemma_sink_observes_arrivals, lemma_times_written_any_order,
    lemma_times_written_concat, lemma_total_len_any_order, lemma_total_len_concat, sink_run,
    times_written, total_len, ChunkSpan, SinkPhase, SinkState,
};
use vstd::prelude::*;

verus! {

/// The chunks handed on by the fetchers of `segments`, where the fetcher of
/// segment `i` is told `traces[i]`; fetcher after fetcher.
pub open spec fn all_emitted(
    segments: Seq<Segment>,
    traces: Seq<Seq<FetchEventView>>,
) -> Seq<ChunkSpan>
    recommends
        segments.len() == traces.len(),
    decreases segments.len(),
{
    if segments.len() == 0 {
        Seq::empty()
    } else {
        all_emitted(segments.drop_last(), traces.drop_last()) + emitted(
            FetchState::initial(segments.last()),
            traces.last(),
        )
    }
}

/// Every fetcher has finished its segment.
pub open spec fn all_done(segments: Seq<Segment>, traces: Seq<Seq<FetchEventView>>) -> bool {
    forall|i: int|
        0 <= i < segments.len() ==> (#[trigger] run(
            FetchState::initial(segments[i]),
            traces[i],
        )).phase == FetchPhase::Done
}

/// The first `n` fetchers of a partition have together written every byte up
/// to the end of segment `n - 1` once, and nothing else; they have handed on as
/// many bytes as lie before that end.
proof fn lemma_prefix_written_once(
    segments: Seq<Segment>,
    traces: Seq<Seq<FetchEventView>>,
    total_size: int,
    offset: int,
    n: int,
)
    requires
        is_partition(segments, total_size),
        segments.len() == traces.len(),
        all_done(segments, traces),
        0 <= n <= segments.len(),
    ensures
        times_written(all_emitted(segments.take(n), traces.take(n)), offset) == if n > 0 && 0
            <= offset <= segments[n - 1].end {
            1nat
        } else {
            0nat
        },
        total_len(all_emitted(segments.take(n), traces.take(n))) == if n > 0 {
            segments[n - 1].end + 1
        } else {
            0
        },
    decreases n,
{
    if n > 0 {
        lemma_prefix_written_once(segments, traces, total_size, offset, n - 1);
        let segment = segments[n - 1];
        let trace = traces[n - 1];
        let earlier = all_emitted(segments.take(n - 1), traces.take(n - 1));
        assert(segments.take(n).drop_last() =~= segments.take(n - 1));
        assert(traces.take(n).drop_last() =~= traces.take(n - 1));
        assert(segments.take(n).last() == segment);
        assert(traces.take(n).last() == trace);
        assert(segment.wf());
        assert(run(FetchState::initial(segments[n - 1]), traces[n - 1]).phase == FetchPhase::Done);
        lemma_segment_written_once(segment, trace, offset);
        lemma_times_written_concat(earlier, emitted(FetchState::initial(segment), trace), offset);
        lemma_total_len_concat(earlier, emitted(FetchState::initial(segment), trace));
        if n > 1 {
            assert(segments[(n - 2) + 1].start == segments[n - 2].end + 1);
            assert(segments[n - 2].wf());
        }
    }
}

/// After a download in which every fetcher finished, every byte of the
/// resource has been written exactly once and no byte beyond it has been
/// written, in whatever order the chunks reached the sink; the chunks hold
/// `total_size` bytes in all.
///
/// `segments` is any partition of `[0, total_size)`, `traces[i]` is what the
/// fetcher of segment `i` was told, and `observed` holds the chunks of all
/// fetchers in the order of their arrival.
pub proof fn lemma_partition_written_once(
    segments: Seq<Segment>,
    traces: Seq<Seq<FetchEventView>>,
    total_size: int,
    observed: Seq<ChunkSpan>,
    offset: int,
)
    requires
        is_partition(segments, total_size),
        segments.len() == traces.len(),
        all_done(segments, traces),
        observed.to_multiset() == all_emitted(segments, traces).to_multiset(),
    ensures
        times_written(observed, offset) == if 0 <= offset < total_size {
            1nat
        } else {
            0nat
        },
        total_size > 0 ==> total_len(observed) == total_size,
        total_size <= 0 ==> total_len(observed) == 0,
{
    let all = all_emitted(segments, traces);
    lemma_times_written_any_order(observed, all, offset);
    lemma_total_len_any_order(observed, all);
    lemma_prefix_written_once(segments, traces, total_size, offset, segments.len() as int);
    assert(segments.take(segments.len() as int) =~= segments);
    assert(traces.take(traces.len() as int) =~= traces);
}

/// The same for the plan of the range planner: after a segmented download in
/// which every fetcher finished, every offset below `total_size` has been
/// written exactly once, and no other offset has been written.
pub proof fn lemma_download_written_once(
    total_size: u64,
    connections: usize,
    traces: Seq<Seq<FetchEventView>>,
    observed: Seq<ChunkSpan>,
    offset: int,
)
    requires
        connections >= 1,
        plan_spec(total_size, connections).len() == traces.len(),
        all_done(plan_spec(total_size, connections), traces),
        observed.to_multiset() == all_emitted(
            plan_spec(total_size, connections),
            traces,
        ).to_multiset(),
    ensures
        times_written(observed, offset) == if 0 <= offset < total_size {
            1nat
        } else {
            0nat
        },
        total_len(observed) == total_size,
{
    lemma_plan_is_partition(total_size, connections);
    lemma_partition_written_once(
        plan_spec(total_size, connections),
        traces,
        total_size as int,
        observed,
        offset,
    );
}

/// After a segmented download in which every fetcher finished, the sink,
/// having been handed the chunks of all fetchers in any order, has accepted
/// them all, has counted exactly `total_size` bytes, and has written every
/// offset below `total_size` exactly once and no other offset.
pub proof fn lemma_download_fills_sink(
    total_size: u64,
    connections: usize,
    traces: Seq<Seq<FetchEventView>>,
    delivered: Seq<ChunkSpan>,
)
    requires
        connections >= 1,
        plan_spec(total_size, connections).len() == traces.len(),
        all_done(plan_spec(total_size, connections), traces),
        delivered.to_multiset() == all_emitted(
            plan_spec(total_size, connections),
            traces,
        ).to_multiset(),
    ensures
        ({
            let sink = sink_run(SinkState::initial(total_size), arrivals(delivered));
            &&& sink.phase == SinkPhase::Draining
            &&& sink.observed == delivered
            &&& sink.written == total_size
            &&& forall|offset: int|
                #[trigger] times_written(sink.observed, offset) == if 0 <= offset < total_size {
                    1nat
                } else {
                    0nat
                }
        }),
{
    lemma_download_written_once(total_size, connections, traces, delivered, 0);
    lemma_sink_observes_arrivals(total_size, delivered);
    assert forall|offset: int| #[trigger]
        times_written(delivered, offset) == if 0 <= offset < total_size {
            1nat
        } else {
            0nat
        } by {
        lemma_download_written_once(total_size, connections, traces, delivered, offset);
    }
}

} // verus!
