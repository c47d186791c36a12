use hyperlane_cli::errors::CliError;
use hyperlane_cli::matching::{ListElement, LogRecord, MatchingList};
use hyperlane_cli::scanner::{indexer_failure, plan_ranges, BlockRange, ScanAccumulator};

fn msg(nonce: u64, origin: &str) -> LogRecord {
    LogRecord {
        nonce,
        origin: origin.to_string(),
        sender: vec![0u8; 32],
        destination: "fuji".to_string(),
        recipient: vec![0u8; 32],
        body: Vec::new(),
    }
}

#[test]
fn ranges_tile_the_window_exactly() {
    let finalized: u64 = 50_000;
    let ranges = plan_ranges(finalized, 10_000, 1_000);
    assert_eq!(ranges.len(), 10);
    // Oldest first, starting at the window's lower edge.
    assert_eq!(ranges[0], BlockRange { start: 40_001, end: 41_000 });
    assert_eq!(ranges[9], BlockRange { start: 49_001, end: 50_000 });
    assert_eq!(ranges[0].start, finalized - 9_999);
    assert_eq!(ranges[9].end, finalized);
    for w in ranges.windows(2) {
        assert_eq!(w[1].start, w[0].end + 1, "ranges must abut without gap or overlap");
    }
    for r in &ranges {
        assert_eq!(r.end - r.start + 1, 1_000, "each range is one chunk wide");
    }
}

#[test]
fn ranges_clamp_at_zero_on_short_chains() {
    let ranges = plan_ranges(5_000, 10_000, 1_000);
    assert_eq!(ranges.len(), 10);
    for r in &ranges {
        assert!(r.start <= r.end || (r.start == 0 && r.end == 0));
    }
    assert_eq!(ranges[0], BlockRange { start: 0, end: 0 });
    assert_eq!(ranges[4], BlockRange { start: 0, end: 0 });
    assert_eq!(ranges[5], BlockRange { start: 1, end: 1_000 });
    assert_eq!(ranges[9], BlockRange { start: 4_001, end: 5_000 });
}

#[test]
fn range_count_rounds_up() {
    assert_eq!(plan_ranges(100_000, 10_500, 1_000).len(), 11);
    assert_eq!(plan_ranges(100_000, 1, 1_000).len(), 1);
    assert_eq!(plan_ranges(100_000, 0, 1_000).len(), 0);
}

#[test]
fn chronological_accumulation_and_reversal() {
    let list = MatchingList::empty();
    let mut acc = ScanAccumulator::new();
    acc.feed(&list, vec![msg(1, "bsc"), msg(2, "bsc")]);
    acc.feed(&list, vec![msg(3, "bsc"), msg(4, "bsc")]);
    acc.feed(&list, vec![msg(5, "bsc")]);
    let nonces: Vec<u64> = acc.logs.iter().map(|m| m.nonce).collect();
    assert_eq!(nonces, vec![1, 2, 3, 4, 5]);
    let reported = acc.into_newest_first();
    let reported_nonces: Vec<u64> = reported.iter().map(|m| m.nonce).collect();
    assert_eq!(reported_nonces, vec![5, 4, 3, 2, 1]);
}

#[test]
fn feed_applies_the_matching_list() {
    let list = MatchingList {
        elements: vec![ListElement {
            origin: Some("bsc".to_string()),
            sender: None,
            destination: None,
            recipient: None,
        }],
    };
    let mut acc = ScanAccumulator::new();
    acc.feed(&list, vec![msg(1, "bsc"), msg(2, "fuji"), msg(3, "bsc")]);
    acc.feed(&list, vec![msg(4, "polygon"), msg(5, "bsc")]);
    let nonces: Vec<u64> = acc.logs.iter().map(|m| m.nonce).collect();
    assert_eq!(nonces, vec![1, 3, 5]);
}

#[test]
fn indexer_failures_carry_the_chain_name() {
    assert_eq!(
        indexer_failure("bsctestnet".to_string()),
        CliError::IndexerError { chain: "bsctestnet".to_string() }
    );
}

#[test]
fn empty_scan_reports_nothing() {
    let acc = ScanAccumulator::new();
    assert!(acc.into_newest_first().is_empty());
}
