//! Range planning: splitting `[0, total_size)` into contiguous byte ranges.

use vstd::prelude::*;

verus! {

/// One contiguous byte range of the resource, both ends inclusive.
#[derive(Clone, Copy, Debug, PartialEq, Eq, Structural)]
pub struct Segment {
    pub index: usize,
    pub start: u64,
    pub end: u64,
}

impl Segment {
    /// A segment holds at least one byte, and the offset after its last byte
    /// is still a `u64`.
    pub open spec fn wf(self) -> bool {
        self.start <= self.end < u64::MAX
    }

    /// Number of bytes in the range.
    pub open spec fn size(self) -> nat {
        (self.end - self.start + 1) as nat
    }

    /// Whether the absolute offset `offset` lies in the range.
    pub open spec fn covers(self, offset: int) -> bool {
        self.start <= offset <= self.end
    }
}

/// Number of segments actually planned: never more than one per byte.
pub open spec fn effective_connections(total_size: u64, connections: usize) -> nat {
    if connections as nat <= total_size as nat {
        connections as nat
    } else {
        total_size as nat
    }
}

/// Nominal length of every segment but the last.
pub open spec fn chunk_size(total_size: u64, connections: usize) -> nat
    recommends
        effective_connections(total_size, connections) > 0,
{
    total_size as nat / effective_connections(total_size, connections)
}

/// The `i`-th planned segment.
pub open spec fn planned_segment(total_size: u64, connections: usize, i: int) -> Segment {
    let n = effective_connections(total_size, connections);
    let c = chunk_size(total_size, connections);
    Segment {
        index: i as usize,
        start: (i * c) as u64,
        end: if i == n - 1 {
            (total_size - 1) as u64
        } else {
            ((i + 1) * c - 1) as u64
        },
    }
}

/// The whole plan for a resource of `total_size` bytes.
pub open spec fn plan_spec(total_size: u64, connections: usize) -> Seq<Segment> {
    Seq::new(
        effective_connections(total_size, connections),
        |i: int| planned_segment(total_size, connections, i),
    )
}

/// `segments` splits `[0, total_size)` into non-empty ranges, in order, with no
/// gap and no overlap.
pub open spec fn is_partition(segments: Seq<Segment>, total_size: int) -> bool {
    if total_size <= 0 {
        segments.len() == 0
    } else {
        &&& segments.len() > 0
        &&& segments[0].start == 0
        &&& segments[segments.len() - 1].end == total_size - 1
        &&& forall|i: int|
            0 <= i < segments.len() ==> (#[trigger] segments[i]).wf() && segments[i].index == i
        &&& forall|i: int|
            0 <= i < segments.len() - 1 ==> (#[trigger] segments[i + 1]).start == segments[i].end
                + 1
    }
}

proof fn lemma_chunk_bounds(total_size: u64, connections: usize, i: int)
    requires
        connections >= 1,
        total_size > 0,
        0 <= i <= effective_connections(total_size, connections),
    ensures
        chunk_size(total_size, connections) >= 1,
        0 <= i * chunk_size(total_size, connections) <= total_size,
        i < effective_connections(total_size, connections) ==> (i + 1) * chunk_size(
            total_size,
            connections,
        ) == i * chunk_size(total_size, connections) + chunk_size(total_size, connections),
{
    let n = effective_connections(total_size, connections) as int;
    let c = chunk_size(total_size, connections) as int;
    let t = total_size as int;
    assert(c == t / n);
    assert(c >= 1 && n * c <= t) by (nonlinear_arith)
        requires
            1 <= n <= t,
            c == t / n,
    ;
    assert(0 <= i * c <= n * c) by (nonlinear_arith)
        requires
            0 <= i <= n,
            c >= 1,
    ;
    assert((i + 1) * c == i * c + c) by (nonlinear_arith);
}

/// The plan is a partition of `[0, total_size)` whose last segment ends at
/// `total_size - 1`, for every size and every connection count of at least one.
pub proof fn lemma_plan_is_partition(total_size: u64, connections: usize)
    requires
        connections >= 1,
    ensures
        is_partition(plan_spec(total_size, connections), total_size as int),
{
    let segments = plan_spec(total_size, connections);
    let n = effective_connections(total_size, connections) as int;
    let c = chunk_size(total_size, connections) as int;
    if total_size > 0 {
        lemma_chunk_bounds(total_size, connections, 0);
        assert(0 * c == 0) by (nonlinear_arith);
        assert forall|i: int| 0 <= i < segments.len() implies (#[trigger] segments[i]).wf()
            && segments[i].index == i by {
            lemma_chunk_bounds(total_size, connections, i);
            lemma_chunk_bounds(total_size, connections, i + 1);
        }
        assert forall|i: int| 0 <= i < segments.len() - 1 implies (#[trigger] segments[i
            + 1]).start == segments[i].end + 1 by {
            lemma_chunk_bounds(total_size, connections, i);
            lemma_chunk_bounds(total_size, connections, i + 1);
        }
    }
}

/// In a partition every offset below `total_size` lies in exactly one segment.
pub proof fn lemma_partition_covers_once(segments: Seq<Segment>, total_size: int, offset: int)
    requires
        is_partition(segments, total_size),
        0 <= offset < total_size,
    ensures
        exists|i: int| 0 <= i < segments.len() && (#[trigger] segments[i]).covers(offset),
        forall|i: int, j: int|
            0 <= i < segments.len() && 0 <= j < segments.len() && (#[trigger] segments[i]).covers(
                offset,
            ) && (#[trigger] segments[j]).covers(offset) ==> i == j,
{
    lemma_partition_ordered(segments, total_size);
    let i = lemma_partition_finds(segments, total_size, offset, segments.len() - 1);
    assert(segments[i].covers(offset));
}

/// Segments of a partition come in strictly increasing order.
proof fn lemma_partition_ordered(segments: Seq<Segment>, total_size: int)
    requires
        is_partition(segments, total_size),
    ensures
        forall|i: int, j: int|
            0 <= i < j < segments.len() ==> (#[trigger] segments[i]).end < (
            #[trigger] segments[j]).start,
{
    assert forall|i: int, j: int| 0 <= i < j < segments.len() implies (#[trigger] segments[i]).end
        < (#[trigger] segments[j]).start by {
        lemma_partition_ordered_from(segments, total_size, i, j);
    }
}

proof fn lemma_partition_ordered_from(segments: Seq<Segment>, total_size: int, i: int, j: int)
    requires
        is_partition(segments, total_size),
        0 <= i < j < segments.len(),
    ensures
        segments[i].end < segments[j].start,
    decreases j - i,
{
    if j == i + 1 {
        assert(segments[i + 1].start == segments[i].end + 1);
    } else {
        lemma_partition_ordered_from(segments, total_size, i, j - 1);
        assert(segments[j - 1].wf());
        assert(segments[(j - 1) + 1].start == segments[j - 1].end + 1);
    }
}

/// Walks down from segment `hi` to the segment that holds `offset`.
proof fn lemma_partition_finds(segments: Seq<Segment>, total_size: int, offset: int, hi: int) -> (i:
    int)
    requires
        is_partition(segments, total_size),
        0 <= hi < segments.len(),
        0 <= offset <= segments[hi].end,
    ensures
        0 <= i <= hi,
        segments[i].covers(offset),
    decreases hi,
{
    if segments[hi].start <= offset {
        hi
    } else {
        assert(hi > 0);
        assert(segments[(hi - 1) + 1].start == segments[hi - 1].end + 1);
        lemma_partition_finds(segments, total_size, offset, hi - 1)
    }
}

/// Plans the byte ranges for `connections` parallel fetchers.
///
/// Each segment but the last holds `total_size / n` bytes, where `n` is
/// `connections` capped at one segment per byte; the last one runs to the end of
/// the resource. An empty resource gets an empty plan.
pub fn plan(total_size: u64, connections: usize) -> (segments: Vec<Segment>)
    requires
        connections >= 1,
    ensures
        segments@ == plan_spec(total_size, connections),
        is_partition(segments@, total_size as int),
{
    let wanted: u64 = connections as u64;
    let n: u64 = if wanted <= total_size {
        wanted
    } else {
        total_size
    };
    let mut segments: Vec<Segment> = Vec::new();
    if n == 0 {
        assert(segments@ =~= plan_spec(total_size, connections));
        return segments;
    }
    let chunk: u64 = total_size / n;
    let mut i: u64 = 0;
    let mut start: u64 = 0;
    proof {
        assert(0 * chunk == 0) by (nonlinear_arith);
    }
    while i < n
        invariant
            connections >= 1,
            total_size > 0,
            n == effective_connections(total_size, connections),
            chunk == chunk_size(total_size, connections),
            0 <= i <= n,
            start == i * chunk,
            segments@.len() == i,
            forall|k: int|
                0 <= k < i ==> segments@[k] == planned_segment(total_size, connections, k),
        decreases n - i,
    {
        proof {
            lemma_chunk_bounds(total_size, connections, i as int);
            lemma_chunk_bounds(total_size, connections, i as int + 1);
        }
        let end: u64 = if i == n - 1 {
            total_size - 1
        } else {
            start + chunk - 1
        };
        segments.push(Segment { index: i as usize, start, end });
        start = start + chunk;
        i = i + 1;
    }
    proof {
        assert(segments@ =~= plan_spec(total_size, connections));
        lemma_plan_is_partition(total_size, connections);
    }
    segments
}

} // verus!
