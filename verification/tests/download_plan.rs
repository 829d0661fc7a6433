use snout::download::{
    appends_to_partial, desired_threads, parallel_part_path, part_range_header,
    plan_parallel_ranges, response_total_length, resume_range_header, retry_delay_secs,
    supports_parallel_download, temp_download_path, tries_parallel, ParallelRefusal,
};
use snout::numfmt::parse_u64;
use snout::download::{
    is_success_status, plan_attempt, range_part_accepted, AttemptPlan, DownloadFailure, DownloadRetry,
};

#[test]
fn temporary_names_sit_beside_the_destination() {
    assert_eq!(temp_download_path(Some("asset.bin")), "asset.bin.tmp");
    assert_eq!(temp_download_path(None), "download.tmp");
    assert_eq!(parallel_part_path(Some("asset.bin"), 12), "asset.bin.part12");
    assert_eq!(parallel_part_path(None, 0), "download.part0");
}

#[test]
fn range_headers() {
    assert_eq!(resume_range_header(10), "bytes=10-");
    assert_eq!(part_range_header(0, 1023), "bytes=0-1023");
}

#[test]
fn total_length_prefers_content_range() {
    assert_eq!(response_total_length(Some("bytes 10-35/36"), Some(26), true, 10), Some(36));
    assert_eq!(response_total_length(Some("bytes 10-35/*"), Some(26), true, 10), Some(36));
    assert_eq!(response_total_length(None, Some(26), false, 10), Some(26));
    assert_eq!(response_total_length(None, None, false, 0), None);
    assert_eq!(response_total_length(Some("a/+7/x"), None, false, 0), Some(7));
}

#[test]
fn u64_parsing_matches_from_str() {
    for s in ["0", "42", "+42", "+", "", "-1", "18446744073709551615", "18446744073709551616", "1a"] {
        assert_eq!(parse_u64(s), s.parse::<u64>().ok(), "{s}");
    }
}

#[test]
fn parallel_needs_ranges_support() {
    assert!(supports_parallel_download(true, None));
    assert!(supports_parallel_download(false, Some("Bytes")));
    assert!(!supports_parallel_download(false, Some("none")));
    assert!(!supports_parallel_download(false, None));
}

#[test]
fn threads_and_retries() {
    assert_eq!(desired_threads(0), 1);
    assert_eq!(desired_threads(4), 4);
    assert_eq!(desired_threads(20), 8);
    assert_eq!(retry_delay_secs(1), 2);
    assert_eq!(retry_delay_secs(2), 4);
    assert!(appends_to_partial(true, 10));
    assert!(!appends_to_partial(false, 10));
    assert!(tries_parallel(0, 4, Some(10), true));
    assert!(!tries_parallel(5, 4, Some(10), true));
}

#[test]
fn parallel_ranges_cover_the_file() {
    let total = 2_000_000u64;
    let ranges = plan_parallel_ranges(total, 4).unwrap();
    assert_eq!(ranges, vec![(0, 499_999), (500_000, 999_999), (1_000_000, 1_499_999), (1_500_000, 1_999_999)]);
    let ranges = plan_parallel_ranges(1_000_001, 8).unwrap();
    assert_eq!(ranges, vec![(0, 500_000), (500_001, 1_000_000)]);
    assert_eq!(ranges[0].0, 0);
    assert_eq!(ranges.last().unwrap().1, 1_000_000);
}

#[test]
fn small_files_are_not_split() {
    assert_eq!(plan_parallel_ranges(1000, 4), Err(ParallelRefusal::NotBeneficial));
    assert_eq!(plan_parallel_ranges(2_000_000, 1), Err(ParallelRefusal::NotBeneficial));
    assert_eq!(plan_parallel_ranges(524_288, 4), Ok(vec![(0, 262_143), (262_144, 524_287)]));
}

#[test]
fn at_most_three_attempts_with_growing_waits() {
    let mut retry = DownloadRetry::new();
    assert_eq!(retry.next_attempt(), Some(0));
    retry.record_failure(DownloadFailure::HttpStatus(503));
    assert_eq!(retry.next_attempt(), Some(2));
    assert_eq!(retry.next_attempt(), Some(4));
    assert_eq!(retry.next_attempt(), None);
    assert!(matches!(retry.final_error(), DownloadFailure::HttpStatus(503)));
    assert!(matches!(DownloadRetry::new().final_error(), DownloadFailure::Exhausted));
    assert!(is_success_status(206));
    assert!(!is_success_status(404));
    assert!(range_part_accepted(206));
    assert!(!range_part_accepted(200));
}

#[test]
fn an_attempt_plans_from_the_answer() {
    assert!(matches!(
        plan_attempt(0, 4, 404, None, Some(10), None),
        AttemptPlan::Fail(DownloadFailure::HttpStatus(404))
    ));
    assert!(matches!(
        plan_attempt(0, 4, 200, None, Some(2_000_000), Some("bytes")),
        AttemptPlan::Parallel { total: 2_000_000 }
    ));
    assert!(matches!(
        plan_attempt(0, 1, 200, None, Some(2_000_000), Some("bytes")),
        AttemptPlan::Stream { append: false, total: Some(2_000_000) }
    ));
    // Resuming: a 206 answer is appended, its total taken from Content-Range.
    assert!(matches!(
        plan_attempt(10, 4, 206, Some("bytes 10-35/36"), Some(26), None),
        AttemptPlan::Stream { append: true, total: Some(36) }
    ));
    // A server that ignores the range answers 200: written anew.
    assert!(matches!(
        plan_attempt(10, 4, 200, None, Some(36), None),
        AttemptPlan::Stream { append: false, total: Some(36) }
    ));
}
