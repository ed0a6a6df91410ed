use dncli::plan::{plan, Segment};

fn assert_partition(segments: &[Segment], total_size: u64) {
    assert!(!segments.is_empty());
    assert_eq!(segments[0].start, 0);
    assert_eq!(segments[segments.len() - 1].end, total_size - 1);
    for (i, segment) in segments.iter().enumerate() {
        assert_eq!(segment.index, i);
        assert!(segment.start <= segment.end);
        if i > 0 {
            assert_eq!(segment.start, segments[i - 1].end + 1);
        }
    }
    let covered: u64 = segments.iter().map(|s| s.end - s.start + 1).sum();
    assert_eq!(covered, total_size);
}

#[test]
fn plan_ten_thousand_bytes_over_four_connections() {
    let segments = plan(10_000, 4);
    assert_eq!(
        segments,
        vec![
            Segment { index: 0, start: 0, end: 2499 },
            Segment { index: 1, start: 2500, end: 4999 },
            Segment { index: 2, start: 5000, end: 7499 },
            Segment { index: 3, start: 7500, end: 9999 },
        ]
    );
}

#[test]
fn plan_ten_bytes_over_four_connections() {
    let segments = plan(10, 4);
    assert_eq!(
        segments,
        vec![
            Segment { index: 0, start: 0, end: 1 },
            Segment { index: 1, start: 2, end: 3 },
            Segment { index: 2, start: 4, end: 5 },
            Segment { index: 3, start: 6, end: 9 },
        ]
    );
    assert_partition(&segments, 10);
}

#[test]
fn plan_is_a_partition_for_many_sizes() {
    for total_size in 1..=120u64 {
        for connections in 1..=40usize {
            let segments = plan(total_size, connections);
            assert_partition(&segments, total_size);
            let expected = std::cmp::min(total_size, connections as u64) as usize;
            assert_eq!(segments.len(), expected);
        }
    }
}

#[test]
fn plan_segments_but_the_last_have_the_chunk_size() {
    let segments = plan(1_003, 10);
    assert_eq!(segments.len(), 10);
    for segment in &segments[..9] {
        assert_eq!(segment.end - segment.start + 1, 100);
    }
    assert_eq!(segments[9], Segment { index: 9, start: 900, end: 1002 });
}

#[test]
fn plan_caps_connections_at_one_per_byte() {
    let segments = plan(3, 8);
    assert_eq!(
        segments,
        vec![
            Segment { index: 0, start: 0, end: 0 },
            Segment { index: 1, start: 1, end: 1 },
            Segment { index: 2, start: 2, end: 2 },
        ]
    );
}

#[test]
fn plan_of_an_empty_resource_is_empty() {
    assert_eq!(plan(0, 4), Vec::<Segment>::new());
    assert_eq!(plan(0, 1), Vec::<Segment>::new());
}

#[test]
fn plan_for_one_connection_is_the_whole_range() {
    assert_eq!(plan(777, 1), vec![Segment { index: 0, start: 0, end: 776 }]);
    assert_eq!(plan(1, 1), vec![Segment { index: 0, start: 0, end: 0 }]);
}

#[test]
fn plan_handles_the_largest_size() {
    let segments = plan(u64::MAX, 4);
    assert_partition(&segments, u64::MAX);
    let chunk = u64::MAX / 4;
    assert_eq!(segments[0], Segment { index: 0, start: 0, end: chunk - 1 });
    assert_eq!(segments[3], Segment { index: 3, start: 3 * chunk, end: u64::MAX - 1 });
}
