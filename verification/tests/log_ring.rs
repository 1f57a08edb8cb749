use pumpkin_embed::log_ring::{LogRing, MAX_LOG_LINES};

fn fill(ring: &mut LogRing, n: usize) {
    for i in 0..n {
        ring.push(format!("line {i}"));
    }
}

#[test]
fn empty_ring_reads_as_empty() {
    let ring = LogRing::new();
    assert_eq!(ring.total(), 0);
    assert_eq!(ring.since(0), "");
}

#[test]
fn since_returns_the_tail_from_an_absolute_index() {
    let mut ring = LogRing::new();
    fill(&mut ring, 5);
    assert_eq!(ring.total(), 5);
    assert_eq!(ring.since(0), "line 0\nline 1\nline 2\nline 3\nline 4");
    assert_eq!(ring.since(3), "line 3\nline 4");
    assert_eq!(ring.since(5), "");
}

#[test]
fn a_cursor_past_the_end_yields_nothing_rather_than_panicking() {
    let mut ring = LogRing::new();
    fill(&mut ring, 3);
    assert_eq!(ring.since(99), "");
}

#[test]
fn total_never_decreases_across_an_eviction() {
    let mut ring = LogRing::new();
    fill(&mut ring, MAX_LOG_LINES);
    assert_eq!(ring.total(), MAX_LOG_LINES as u64);

    // One more line trips the eviction of the oldest quarter.
    ring.push("overflow".to_owned());
    assert_eq!(
        ring.total(),
        MAX_LOG_LINES as u64 + 1,
        "total must count evicted lines; a count that went backwards would \
         strand the reader's cursor and silently drop every later line"
    );
}

#[test]
fn a_cursor_held_across_an_eviction_still_advances() {
    let mut ring = LogRing::new();
    fill(&mut ring, MAX_LOG_LINES);
    let cursor = ring.total();

    ring.push("after".to_owned());

    // The reader asks for everything after the last line it saw and must
    // get exactly the new line, not an empty string.
    assert_eq!(ring.since(cursor), "after");
    assert_eq!(ring.total(), cursor + 1);
}

#[test]
fn eviction_drops_the_oldest_quarter_and_keeps_the_rest() {
    let mut ring = LogRing::new();
    fill(&mut ring, MAX_LOG_LINES);
    ring.push("newest".to_owned());

    let evicted = MAX_LOG_LINES / 4;
    let retained = ring.since(0);
    let first = retained.lines().next().expect("ring is not empty");
    assert_eq!(first, format!("line {evicted}"));
    assert_eq!(retained.lines().count(), MAX_LOG_LINES - evicted + 1);
    assert_eq!(retained.lines().last(), Some("newest"));
}

#[test]
fn a_cursor_pointing_at_evicted_lines_resumes_at_the_oldest_retained() {
    let mut ring = LogRing::new();
    fill(&mut ring, MAX_LOG_LINES);
    ring.push("newest".to_owned());

    let evicted = MAX_LOG_LINES / 4;
    // Index 0 was evicted; asking for it must not panic or skip the tail.
    assert_eq!(
        ring.since(0).lines().next(),
        Some(format!("line {evicted}").as_str())
    );
}

#[test]
fn lines_are_joined_without_a_trailing_newline() {
    let mut ring = LogRing::new();
    fill(&mut ring, 2);
    assert_eq!(ring.since(0), "line 0\nline 1");
}

#[test]
fn cap_is_two_thousand_lines() {
    assert_eq!(MAX_LOG_LINES, 2_000);
    let mut ring = LogRing::new();
    fill(&mut ring, MAX_LOG_LINES);
    assert_eq!(ring.since(0).lines().count(), 2_000);
    assert_eq!(ring.since(1_999), "line 1999");
}

#[test]
fn an_index_names_the_same_line_across_many_evictions() {
    let mut ring = LogRing::new();
    for i in 0..7_321u64 {
        ring.push(format!("line {i}"));
        assert_eq!(ring.total(), i + 1);
    }
    // 5321 lines over the cap begin the eleventh quarter.
    let retained = ring.since(0);
    assert_eq!(retained.lines().next(), Some("line 5500"));
    assert_eq!(retained.lines().count(), 1_821);
    assert_eq!(ring.since(7_000).lines().next(), Some("line 7000"));
    assert_eq!(ring.since(5_499), retained);
    assert_eq!(ring.since(5_500), retained);
}

#[test]
fn a_reader_that_polls_in_time_misses_nothing() {
    let mut ring = LogRing::new();
    fill(&mut ring, 1_234);
    let cursor = ring.total();
    let fresh: Vec<String> = (0..1_501).map(|i| format!("fresh {i}")).collect();
    for line in &fresh {
        ring.push(line.clone());
    }
    assert_eq!(ring.since(cursor), fresh.join("\n"));
}

#[test]
fn reading_on_neither_repeats_nor_skips() {
    let mut ring = LogRing::new();
    fill(&mut ring, 2_100);
    let from_600 = ring.since(600);
    let from_601 = ring.since(601);
    assert_eq!(from_600, format!("line 600\n{from_601}"));
}

#[test]
fn empty_lines_are_kept_as_lines() {
    let mut ring = LogRing::new();
    ring.push(String::new());
    ring.push(String::new());
    assert_eq!(ring.total(), 2);
    assert_eq!(ring.since(0), "\n");
    assert_eq!(ring.since(1), "");
    assert_eq!(ring.since(u64::MAX), "");
}
