use bestftp::progress::{percent_of, ProgressReporter, TransferProgress};

fn run(total: u64, chunks: &[(u64, u64)]) -> Vec<TransferProgress> {
    let mut reporter = ProgressReporter::new("file.bin".to_string(), total);
    let mut events = Vec::new();
    for &(n, at) in chunks {
        if let Some(event) = reporter.on_chunk(n, at) {
            events.push(event);
        }
    }
    events
}

#[test]
fn percent_is_rounded_down_and_capped() {
    assert_eq!(percent_of(0, 0), 0);
    assert_eq!(percent_of(5, 0), 0);
    assert_eq!(percent_of(0, 10), 0);
    assert_eq!(percent_of(1, 3), 33);
    assert_eq!(percent_of(2, 3), 66);
    assert_eq!(percent_of(3, 3), 100);
    assert_eq!(percent_of(4, 3), 100);
    assert_eq!(percent_of(u64::MAX - 1, u64::MAX), 99);
}

#[test]
fn the_first_chunk_always_makes_an_event() {
    let events = run(100, &[(10, 0)]);
    assert_eq!(events.len(), 1);
    assert_eq!(events[0].transferred_bytes, 10);
    assert_eq!(events[0].percent, 10);
    assert_eq!(events[0].total_bytes, 100);
    assert_eq!(events[0].item_name, "file.bin");
    assert_eq!(events[0].speed, "0 B/s");
}

#[test]
fn chunks_within_fifty_milliseconds_are_quiet() {
    let events = run(100, &[(10, 5), (10, 20), (10, 54), (10, 55), (10, 60), (10, 105)]);
    let seen: Vec<u64> = events.iter().map(|e| e.transferred_bytes).collect();
    assert_eq!(seen, vec![10, 40, 60]);
}

#[test]
fn fifty_milliseconds_are_enough() {
    let events = run(100, &[(10, 0), (10, 49), (10, 50)]);
    let seen: Vec<u64> = events.iter().map(|e| e.transferred_bytes).collect();
    assert_eq!(seen, vec![10, 30]);
}

#[test]
fn the_end_of_the_stream_makes_the_closing_event() {
    let events = run(30, &[(10, 0), (10, 1), (10, 2), (0, 3)]);
    assert_eq!(events.len(), 2);
    let last = events.last().unwrap();
    assert_eq!(last.transferred_bytes, 30);
    assert_eq!(last.total_bytes, 30);
    assert_eq!(last.percent, 100);
    assert_eq!(last.speed, "Done");
}

#[test]
fn speed_is_bytes_per_second() {
    let events = run(10_000_000, &[(1024, 0), (1024 * 1024 - 1024, 500)]);
    assert_eq!(events[1].transferred_bytes, 1024 * 1024);
    assert_eq!(events[1].speed, "2.00 MB/s");
    assert_eq!(events[1].percent, 10);
}

#[test]
fn events_of_a_whole_transfer_never_fall() {
    let mut chunks = Vec::new();
    let mut at = 0u64;
    let mut sum = 0u64;
    for i in 0..200u64 {
        let n = 1 + (i * 37) % 4096;
        at += (i * 13) % 40;
        sum += n;
        chunks.push((n, at));
    }
    chunks.push((0, at + 1));
    let events = run(sum, &chunks);
    assert!(events.len() >= 2);
    for pair in events.windows(2) {
        assert!(pair[0].transferred_bytes <= pair[1].transferred_bytes);
        assert!(pair[0].percent <= pair[1].percent);
    }
    assert_eq!(events.last().unwrap().transferred_bytes, sum);
    assert_eq!(events.last().unwrap().percent, 100);
}

#[test]
fn an_unknown_size_shows_no_percentage_until_the_end() {
    let events = run(0, &[(10, 0), (10, 60), (0, 61)]);
    let percents: Vec<u8> = events.iter().map(|e| e.percent).collect();
    assert_eq!(percents, vec![0, 0, 100]);
}

#[test]
fn the_count_of_bytes_does_not_wrap() {
    let mut reporter = ProgressReporter::new("big".to_string(), u64::MAX);
    reporter.on_chunk(u64::MAX - 1, 0);
    reporter.on_chunk(10, 100);
    assert_eq!(reporter.bytes_read(), u64::MAX);
}
