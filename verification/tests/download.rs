use dncli::dncli::{
    choose_strategy, DncliError, Download, DownloadAction, DownloadEvent, DownloadPhase, ErrorKind,
    Strategy,
};
use dncli::output::FileInfo;
use dncli::plan::Segment;
use dncli::probe::{parse_decimal_u64, DownloadTarget};

const URL: &str = "https://example.com/files/archive.tar.gz";

fn probed(content_length: Option<&str>, accept_ranges: bool) -> DownloadEvent {
    DownloadEvent::Probed {
        content_length: content_length.map(|text| text.as_bytes().to_vec()),
        accept_ranges,
    }
}

#[test]
fn strategy_is_segmented_only_with_ranges_size_and_connections() {
    assert_eq!(choose_strategy(true, 10_000, 4), Strategy::Segmented);
    assert_eq!(choose_strategy(true, 1, 2), Strategy::Segmented);
    assert_eq!(choose_strategy(true, u64::MAX, usize::MAX), Strategy::Segmented);
}

#[test]
fn strategy_falls_back_to_a_single_stream() {
    for connections in [0usize, 1, 2, 4, 64, usize::MAX] {
        assert_eq!(choose_strategy(false, 10_000, connections), Strategy::SingleStream);
        assert_eq!(choose_strategy(true, 0, connections), Strategy::SingleStream);
        assert_eq!(choose_strategy(false, 0, connections), Strategy::SingleStream);
    }
    for total_size in [0u64, 1, 10_000, u64::MAX] {
        assert_eq!(choose_strategy(true, total_size, 1), Strategy::SingleStream);
        assert_eq!(choose_strategy(true, total_size, 0), Strategy::SingleStream);
    }
}

#[test]
fn content_length_is_an_unsigned_decimal_number() {
    assert_eq!(parse_decimal_u64(b"0"), Some(0));
    assert_eq!(parse_decimal_u64(b"10000"), Some(10_000));
    assert_eq!(parse_decimal_u64(b"+42"), Some(42));
    assert_eq!(parse_decimal_u64(b"007"), Some(7));
    assert_eq!(parse_decimal_u64(b"18446744073709551615"), Some(u64::MAX));
    assert_eq!(parse_decimal_u64(b"18446744073709551616"), None);
    assert_eq!(parse_decimal_u64(b"99999999999999999999999"), None);
    assert_eq!(parse_decimal_u64(b""), None);
    assert_eq!(parse_decimal_u64(b"+"), None);
    assert_eq!(parse_decimal_u64(b"-1"), None);
    assert_eq!(parse_decimal_u64(b"-0"), None);
    assert_eq!(parse_decimal_u64(b"++1"), None);
    assert_eq!(parse_decimal_u64(b" 12"), None);
    assert_eq!(parse_decimal_u64(b"12 "), None);
    assert_eq!(parse_decimal_u64(b"1_000"), None);
    assert_eq!(parse_decimal_u64(b"12a"), None);
    assert_eq!(parse_decimal_u64(b"0x10"), None);
    assert_eq!(parse_decimal_u64(&[0x31, 0xff]), None);
}

#[test]
fn content_length_parses_as_the_standard_library_does() {
    let samples = [
        "", "+", "-", "0", "+0", "-0", "1", "+1", "-1", "12345", "00012", "1 2", "1.5", "1e3",
        "18446744073709551615", "18446744073709551616", "+18446744073709551615",
        "184467440737095516150", "\u{663}", "12\n",
    ];
    for sample in samples {
        assert_eq!(parse_decimal_u64(sample.as_bytes()), sample.parse::<u64>().ok(), "{:?}", sample);
    }
}

#[test]
fn probe_answer_gives_size_and_range_support() {
    assert_eq!(
        DownloadTarget::from_probe(Some(b"10000"), true),
        DownloadTarget { total_size: 10_000, supports_ranges: true }
    );
    assert_eq!(
        DownloadTarget::from_probe(Some(b"ten"), true),
        DownloadTarget { total_size: 0, supports_ranges: true }
    );
    assert_eq!(
        DownloadTarget::from_probe(None, false),
        DownloadTarget { total_size: 0, supports_ranges: false }
    );
}

#[test]
fn download_refuses_a_url_that_does_not_parse() {
    match Download::start("files/archive.tar.gz", Some("archive.tar.gz"), 4) {
        Ok(_) => panic!("a relative URL was accepted"),
        Err(error) => {
            assert_eq!(error, DncliError::UrlParse("relative URL without a base".to_string()));
            assert_eq!(error.message(), "URL parse error: relative URL without a base");
        }
    }
    match Download::start("https://", None, 4) {
        Ok(_) => panic!("a URL without host was accepted"),
        Err(error) => assert_eq!(error, DncliError::UrlParse("empty host".to_string())),
    }
}

#[test]
fn download_starts_by_probing() {
    let download = Download::start(URL, Some("archive.tar.gz"), 4).unwrap();
    let state = download.state();
    assert_eq!(state.phase, DownloadPhase::Probing);
    assert_eq!(state.connections, 4);
    assert_eq!(
        download.file_info(),
        FileInfo { url: URL.to_string(), file_name: "archive.tar.gz".to_string(), total_size: 0 }
    );
    let unnamed = Download::start(URL, None, 1).unwrap();
    assert_eq!(unnamed.file_info().file_name, "unknown");
}

#[test]
fn download_segmented_runs_to_its_report() {
    let mut download = Download::start(URL, Some("archive.tar.gz"), 4).unwrap();
    assert_eq!(download.step(probed(Some("10000"), true)), DownloadAction::CreateOutput);
    assert_eq!(download.state().phase, DownloadPhase::Segmented);
    assert_eq!(
        download.step(DownloadEvent::OutputReady),
        DownloadAction::FetchSegments(vec![
            Segment { index: 0, start: 0, end: 2499 },
            Segment { index: 1, start: 2500, end: 4999 },
            Segment { index: 2, start: 5000, end: 7499 },
            Segment { index: 3, start: 7500, end: 9999 },
        ])
    );
    assert_eq!(download.state().phase, DownloadPhase::Joining);
    assert_eq!(download.state().pending, 4);
    assert_eq!(download.step(DownloadEvent::WriterFinished), DownloadAction::Ignore);
    assert_eq!(download.step(DownloadEvent::FetcherFinished), DownloadAction::Wait);
    assert_eq!(download.step(DownloadEvent::FetcherFinished), DownloadAction::Wait);
    assert_eq!(download.step(DownloadEvent::FetcherFinished), DownloadAction::Wait);
    assert_eq!(download.step(DownloadEvent::FetcherFinished), DownloadAction::CloseQueue);
    assert_eq!(download.step(DownloadEvent::FetcherFinished), DownloadAction::Ignore);
    assert_eq!(download.state().phase, DownloadPhase::Joining);
    assert_eq!(
        download.step(DownloadEvent::WriterFinished),
        DownloadAction::Report(FileInfo {
            url: URL.to_string(),
            file_name: "archive.tar.gz".to_string(),
            total_size: 10_000,
        })
    );
    assert_eq!(download.state().phase, DownloadPhase::Succeeded);
    assert_eq!(download.step(DownloadEvent::WriterFinished), DownloadAction::Ignore);
    assert_eq!(
        download.step(DownloadEvent::Failed(DncliError::Io("late".to_string()))),
        DownloadAction::Ignore
    );
    assert_eq!(download.state().phase, DownloadPhase::Succeeded);
}

#[test]
fn download_falls_back_to_a_single_stream() {
    let cases: Vec<(Option<&str>, bool, usize)> = vec![
        (Some("10000"), false, 4),
        (None, true, 4),
        (Some("0"), true, 4),
        (Some("garbage"), true, 4),
        (Some("10000"), true, 1),
        (Some("10000"), true, 0),
        (None, false, 16),
    ];
    for (content_length, accept_ranges, connections) in cases {
        let mut download = Download::start(URL, Some("a"), connections).unwrap();
        assert_eq!(
            download.step(probed(content_length, accept_ranges)),
            DownloadAction::StreamWhole
        );
        assert_eq!(download.state().phase, DownloadPhase::SingleStream);
        assert_eq!(download.step(DownloadEvent::OutputReady), DownloadAction::Ignore);
        assert_eq!(download.step(DownloadEvent::FetcherFinished), DownloadAction::Ignore);
        match download.step(DownloadEvent::WriterFinished) {
            DownloadAction::Report(info) => {
                let expected = content_length.and_then(|t| t.parse::<u64>().ok()).unwrap_or(0);
                assert_eq!(info.total_size, expected);
            }
            other => panic!("unexpected action {:?}", other),
        }
        assert_eq!(download.state().phase, DownloadPhase::Succeeded);
    }
}

#[test]
fn download_fails_when_the_probe_fails() {
    let mut download = Download::start(URL, None, 4).unwrap();
    assert_eq!(
        download.step(DownloadEvent::ProbeFailed("dns error".to_string())),
        DownloadAction::Fail(DncliError::HttpRequest("dns error".to_string()))
    );
    assert_eq!(download.state().phase, DownloadPhase::Failed);
    assert_eq!(download.step(probed(Some("10"), true)), DownloadAction::Ignore);
    assert_eq!(download.state().phase, DownloadPhase::Failed);
}

#[test]
fn download_reports_the_first_error_only() {
    let mut download = Download::start(URL, None, 3).unwrap();
    download.step(probed(Some("300"), true));
    download.step(DownloadEvent::OutputReady);
    assert_eq!(download.step(DownloadEvent::FetcherFinished), DownloadAction::Wait);
    let first = DncliError::Network("Max retries reached for segment 100-199".to_string());
    assert_eq!(
        download.step(DownloadEvent::Failed(first.clone())),
        DownloadAction::Fail(first)
    );
    assert_eq!(download.state().phase, DownloadPhase::Failed);
    assert_eq!(
        download.step(DownloadEvent::Failed(DncliError::ChannelSendError("closed".to_string()))),
        DownloadAction::Ignore
    );
    assert_eq!(download.step(DownloadEvent::FetcherFinished), DownloadAction::Ignore);
    assert_eq!(download.step(DownloadEvent::WriterFinished), DownloadAction::Ignore);
    assert_eq!(download.state().phase, DownloadPhase::Failed);
}

#[test]
fn download_fails_when_the_output_cannot_be_created() {
    let mut download = Download::start(URL, None, 2).unwrap();
    assert_eq!(download.step(probed(Some("2"), true)), DownloadAction::CreateOutput);
    let error = DncliError::Io("permission denied".to_string());
    assert_eq!(
        download.step(DownloadEvent::Failed(error.clone())),
        DownloadAction::Fail(error)
    );
    assert_eq!(download.step(DownloadEvent::OutputReady), DownloadAction::Ignore);
}

#[test]
fn download_single_stream_failure_is_fatal() {
    let mut download = Download::start(URL, None, 1).unwrap();
    assert_eq!(download.step(probed(Some("10"), true)), DownloadAction::StreamWhole);
    let error = DncliError::HttpRequest("status 500".to_string());
    assert_eq!(
        download.step(DownloadEvent::Failed(error.clone())),
        DownloadAction::Fail(error)
    );
    assert_eq!(download.step(DownloadEvent::WriterFinished), DownloadAction::Ignore);
}

#[test]
fn error_messages_name_their_kind() {
    let cases = vec![
        (DncliError::HttpRequest("a".to_string()), ErrorKind::HttpRequest, "HTTP request error: a"),
        (DncliError::Io("b".to_string()), ErrorKind::Io, "I/O error: b"),
        (DncliError::UrlParse("c".to_string()), ErrorKind::UrlParse, "URL parse error: c"),
        (DncliError::Network("d".to_string()), ErrorKind::Network, "Network error: d"),
        (DncliError::Other("e".to_string()), ErrorKind::Other, "Error: e"),
        (DncliError::Join("f".to_string()), ErrorKind::Join, "Task join error: f"),
        (
            DncliError::ChannelSendError("g".to_string()),
            ErrorKind::ChannelSendError,
            "Channel send error: g",
        ),
    ];
    for (error, kind, message) in cases {
        assert_eq!(error.error_kind(), kind);
        assert_eq!(error.message(), message);
    }
    assert_eq!(DncliError::Other(String::new()).message(), "Error: ");
}
