use dncli::dncli::DncliError;
use dncli::fetch::{
    backoff_seconds, range_header, FetchAction, FetchEvent, FetchPhase, SegmentFetcher,
    MAX_RETRIES,
};
use dncli::plan::Segment;

fn segment(start: u64, end: u64) -> Segment {
    Segment { index: 0, start, end }
}

#[test]
fn fetch_first_request_asks_for_the_whole_segment() {
    let fetcher = SegmentFetcher::new(segment(2500, 4999));
    assert_eq!(fetcher.request_range(), Some((2500, 4999)));
    assert_eq!(fetcher.range_header_value(), Some("bytes=2500-4999".to_string()));
    let state = fetcher.state();
    assert_eq!(state.position, 2500);
    assert_eq!(state.received, 0);
    assert_eq!(state.retries, 0);
    assert_eq!(state.phase, FetchPhase::Active);
}

#[test]
fn fetch_range_header_has_both_ends() {
    assert_eq!(range_header(0, 0), "bytes=0-0");
    assert_eq!(range_header(7500, 9999), "bytes=7500-9999");
    assert_eq!(
        range_header(u64::MAX - 1, u64::MAX),
        "bytes=18446744073709551614-18446744073709551615"
    );
}

#[test]
fn fetch_emits_slices_at_consecutive_offsets() {
    let mut fetcher = SegmentFetcher::new(segment(100, 199));
    assert_eq!(fetcher.step(FetchEvent::Response(206)), FetchAction::ReadBody);
    assert_eq!(fetcher.step(FetchEvent::Slice(30)), FetchAction::Emit { offset: 100 });
    assert_eq!(fetcher.step(FetchEvent::Slice(0)), FetchAction::Emit { offset: 130 });
    assert_eq!(fetcher.step(FetchEvent::Slice(70)), FetchAction::Emit { offset: 130 });
    assert_eq!(fetcher.step(FetchEvent::StreamEnded), FetchAction::Finished);
    assert_eq!(fetcher.state().phase, FetchPhase::Done);
}

#[test]
fn fetch_accepts_a_whole_resource_status() {
    let mut fetcher = SegmentFetcher::new(segment(0, 9));
    assert_eq!(fetcher.step(FetchEvent::Response(200)), FetchAction::ReadBody);
    assert_eq!(fetcher.step(FetchEvent::Slice(10)), FetchAction::Emit { offset: 0 });
    assert_eq!(fetcher.step(FetchEvent::StreamEnded), FetchAction::Finished);
}

#[test]
fn fetch_resumes_after_a_truncated_stream() {
    for k in 0..100u64 {
        let mut fetcher = SegmentFetcher::new(segment(1000, 1099));
        assert_eq!(fetcher.step(FetchEvent::Response(206)), FetchAction::ReadBody);
        if k > 0 {
            assert_eq!(fetcher.step(FetchEvent::Slice(k)), FetchAction::Emit { offset: 1000 });
        }
        assert_eq!(fetcher.step(FetchEvent::StreamEnded), FetchAction::Backoff { seconds: 2 });
        assert_eq!(fetcher.request_range(), Some((1000 + k, 1099)));
        assert_eq!(fetcher.step(FetchEvent::Response(206)), FetchAction::ReadBody);
        assert_eq!(
            fetcher.step(FetchEvent::Slice(100 - k)),
            FetchAction::Emit { offset: 1000 + k }
        );
        assert_eq!(fetcher.step(FetchEvent::StreamEnded), FetchAction::Finished);
    }
}

#[test]
fn fetch_resumes_after_a_broken_stream() {
    let mut fetcher = SegmentFetcher::new(segment(0, 99));
    fetcher.step(FetchEvent::Response(206));
    assert_eq!(fetcher.step(FetchEvent::Slice(40)), FetchAction::Emit { offset: 0 });
    assert_eq!(
        fetcher.step(FetchEvent::TransportError("connection reset".to_string())),
        FetchAction::Backoff { seconds: 2 }
    );
    assert_eq!(fetcher.request_range(), Some((40, 99)));
    assert_eq!(fetcher.state().retries, 1);
}

#[test]
fn fetch_stream_that_breaks_after_the_last_byte_is_complete() {
    let mut fetcher = SegmentFetcher::new(segment(0, 99));
    fetcher.step(FetchEvent::Response(206));
    assert_eq!(fetcher.step(FetchEvent::Slice(100)), FetchAction::Emit { offset: 0 });
    assert_eq!(
        fetcher.step(FetchEvent::TransportError("connection reset".to_string())),
        FetchAction::Finished
    );
}

#[test]
fn fetch_gives_up_after_five_retries() {
    let mut fetcher = SegmentFetcher::new(segment(2500, 4999));
    let mut waits = Vec::new();
    let mut attempts = 0;
    let error = loop {
        attempts += 1;
        assert_eq!(fetcher.request_range(), Some((2500, 4999)));
        match fetcher.step(FetchEvent::TransportError("connection refused".to_string())) {
            FetchAction::Backoff { seconds } => waits.push(seconds),
            FetchAction::Abort(error) => break error,
            other => panic!("unexpected action {:?}", other),
        }
    };
    assert_eq!(waits, vec![2, 4, 8, 16, 32]);
    assert_eq!(attempts, 6);
    assert_eq!(MAX_RETRIES, 5);
    assert_eq!(
        error,
        DncliError::Network(
            "Max retries reached for segment 2500-4999: connection refused".to_string()
        )
    );
    assert_eq!(fetcher.state().phase, FetchPhase::Failed);
    assert_eq!(
        fetcher.step(FetchEvent::TransportError("again".to_string())),
        FetchAction::Ignore
    );
}

#[test]
fn fetch_short_reads_use_up_the_same_budget() {
    let mut fetcher = SegmentFetcher::new(segment(0, 99));
    assert_eq!(
        fetcher.step(FetchEvent::TransportError("refused".to_string())),
        FetchAction::Backoff { seconds: 2 }
    );
    fetcher.step(FetchEvent::Response(206));
    fetcher.step(FetchEvent::Slice(10));
    assert_eq!(fetcher.step(FetchEvent::StreamEnded), FetchAction::Backoff { seconds: 4 });
    assert_eq!(fetcher.step(FetchEvent::Response(500)), FetchAction::Backoff { seconds: 8 });
    fetcher.step(FetchEvent::Response(206));
    fetcher.step(FetchEvent::Slice(10));
    assert_eq!(fetcher.step(FetchEvent::StreamEnded), FetchAction::Backoff { seconds: 16 });
    assert_eq!(fetcher.step(FetchEvent::StreamEnded), FetchAction::Backoff { seconds: 32 });
    assert_eq!(fetcher.request_range(), Some((20, 99)));
    assert_eq!(
        fetcher.step(FetchEvent::StreamEnded),
        FetchAction::Abort(DncliError::Network(
            "Max retries reached for segment 0-99".to_string()
        ))
    );
}

#[test]
fn fetch_unacceptable_status_is_retried() {
    let mut fetcher = SegmentFetcher::new(segment(10, 19));
    assert_eq!(fetcher.step(FetchEvent::Response(503)), FetchAction::Backoff { seconds: 2 });
    assert_eq!(fetcher.step(FetchEvent::Response(404)), FetchAction::Backoff { seconds: 4 });
    assert_eq!(fetcher.step(FetchEvent::Response(206)), FetchAction::ReadBody);
    assert_eq!(fetcher.state().retries, 2);
}

#[test]
fn fetch_slice_past_the_end_is_fatal() {
    let mut fetcher = SegmentFetcher::new(segment(10, 19));
    fetcher.step(FetchEvent::Response(200));
    assert_eq!(fetcher.step(FetchEvent::Slice(10)), FetchAction::Emit { offset: 10 });
    assert_eq!(
        fetcher.step(FetchEvent::Slice(1)),
        FetchAction::Abort(DncliError::Network("Size mismatch for segment 10-19".to_string()))
    );
    assert_eq!(fetcher.state().phase, FetchPhase::Failed);
}

#[test]
fn fetch_closed_queue_is_fatal() {
    let mut fetcher = SegmentFetcher::new(segment(10, 19));
    fetcher.step(FetchEvent::Response(206));
    fetcher.step(FetchEvent::Slice(5));
    assert_eq!(
        fetcher.step(FetchEvent::QueueClosed("channel closed".to_string())),
        FetchAction::Abort(DncliError::ChannelSendError("channel closed".to_string()))
    );
    assert_eq!(fetcher.step(FetchEvent::StreamEnded), FetchAction::Ignore);
}

#[test]
fn fetch_one_byte_segment_at_offset_zero_asks_for_its_byte() {
    let mut fetcher = SegmentFetcher::new(segment(0, 0));
    assert!(!fetcher.state().open_ended);
    assert_eq!(fetcher.request_range(), Some((0, 0)));
    assert_eq!(fetcher.range_header_value(), Some("bytes=0-0".to_string()));
    fetcher.step(FetchEvent::Response(206));
    assert_eq!(fetcher.step(FetchEvent::StreamEnded), FetchAction::Backoff { seconds: 2 });
    assert_eq!(fetcher.request_range(), Some((0, 0)));
    assert_eq!(
        fetcher.step(FetchEvent::TransportError("refused".to_string())),
        FetchAction::Backoff { seconds: 4 }
    );
    assert_eq!(fetcher.range_header_value(), Some("bytes=0-0".to_string()));
    fetcher.step(FetchEvent::Response(206));
    assert_eq!(fetcher.step(FetchEvent::Slice(1)), FetchAction::Emit { offset: 0 });
    assert_eq!(fetcher.step(FetchEvent::StreamEnded), FetchAction::Finished);
}

#[test]
fn fetch_one_byte_segment_at_offset_zero_takes_one_byte_only() {
    let mut fetcher = SegmentFetcher::new(segment(0, 0));
    fetcher.step(FetchEvent::Response(200));
    assert_eq!(
        fetcher.step(FetchEvent::Slice(5)),
        FetchAction::Abort(DncliError::Network("Size mismatch for segment 0-0".to_string()))
    );
    let mut fetcher = SegmentFetcher::new(segment(0, 0));
    fetcher.step(FetchEvent::Response(206));
    assert_eq!(fetcher.step(FetchEvent::Slice(1)), FetchAction::Emit { offset: 0 });
    assert_eq!(
        fetcher.step(FetchEvent::Slice(1)),
        FetchAction::Abort(DncliError::Network("Size mismatch for segment 0-0".to_string()))
    );
}

#[test]
fn fetch_of_unknown_size_carries_no_range() {
    let mut fetcher = SegmentFetcher::whole_resource();
    assert!(fetcher.state().open_ended);
    assert_eq!(fetcher.request_range(), None);
    assert_eq!(fetcher.range_header_value(), None);
    fetcher.step(FetchEvent::Response(200));
    assert_eq!(fetcher.step(FetchEvent::StreamEnded), FetchAction::Backoff { seconds: 2 });
    assert_eq!(fetcher.request_range(), None);
    fetcher.step(FetchEvent::Response(200));
    assert_eq!(fetcher.step(FetchEvent::Slice(300)), FetchAction::Emit { offset: 0 });
    assert_eq!(fetcher.step(FetchEvent::Slice(200)), FetchAction::Emit { offset: 300 });
    assert_eq!(fetcher.step(FetchEvent::StreamEnded), FetchAction::Finished);
}

#[test]
fn fetch_of_unknown_size_stops_at_the_largest_offset() {
    let mut fetcher = SegmentFetcher::whole_resource();
    fetcher.step(FetchEvent::Response(200));
    assert_eq!(fetcher.step(FetchEvent::Slice(u64::MAX)), FetchAction::Emit { offset: 0 });
    assert_eq!(
        fetcher.step(FetchEvent::Slice(1)),
        FetchAction::Abort(DncliError::Network("Size mismatch for segment 0-0".to_string()))
    );
}

#[test]
fn fetch_of_unknown_size_gives_up_after_five_retries() {
    let mut fetcher = SegmentFetcher::whole_resource();
    for seconds in [2u64, 4, 8, 16, 32] {
        assert_eq!(fetcher.step(FetchEvent::Response(503)), FetchAction::Backoff { seconds });
        assert_eq!(fetcher.request_range(), None);
    }
    assert_eq!(
        fetcher.step(FetchEvent::StreamEnded),
        FetchAction::Abort(DncliError::Network(
            "Max retries reached for segment 0-0".to_string()
        ))
    );
}

#[test]
fn fetch_finished_fetcher_ignores_events() {
    let mut fetcher = SegmentFetcher::new(segment(5, 5));
    fetcher.step(FetchEvent::Response(206));
    fetcher.step(FetchEvent::Slice(1));
    assert_eq!(fetcher.step(FetchEvent::StreamEnded), FetchAction::Finished);
    let before = fetcher.state();
    assert_eq!(fetcher.step(FetchEvent::Slice(1)), FetchAction::Ignore);
    assert_eq!(fetcher.step(FetchEvent::Response(206)), FetchAction::Ignore);
    assert_eq!(fetcher.step(FetchEvent::StreamEnded), FetchAction::Ignore);
    assert_eq!(fetcher.state(), before);
}

#[test]
fn fetch_backoff_doubles() {
    assert_eq!(backoff_seconds(0), 1);
    assert_eq!(backoff_seconds(1), 2);
    assert_eq!(backoff_seconds(2), 4);
    assert_eq!(backoff_seconds(3), 8);
    assert_eq!(backoff_seconds(4), 16);
    assert_eq!(backoff_seconds(5), 32);
    assert_eq!(backoff_seconds(63), 1u64 << 63);
}
