use station_bridge::link::{StationReader, READ_BYTES, WINDOW_BYTES, WINDOW_MILLIS};

fn numbered(n: usize) -> Vec<u8> {
    (0..n).map(|i| (i % 251) as u8).collect()
}

#[test]
fn link_constants() {
    assert_eq!(WINDOW_MILLIS, 150);
    assert_eq!(WINDOW_BYTES, 60);
    assert_eq!(READ_BYTES, 64);
}

#[test]
fn nothing_pending_writes_nothing() {
    let mut link = StationReader::new(0);
    assert_eq!(link.pending(), 0);
    assert!(link.next_write(0).is_empty());
    assert!(link.next_write(1_000).is_empty());
}

#[test]
fn short_record_goes_out_whole() {
    let mut link = StationReader::new(0);
    link.queue(vec![1, 2, 3]);
    assert_eq!(link.pending(), 3);
    assert_eq!(link.next_write(5), vec![1, 2, 3]);
    assert_eq!(link.pending(), 0);
}

#[test]
fn window_carries_sixty_bytes() {
    let mut link = StationReader::new(0);
    let bytes = numbered(100);
    link.queue(bytes.clone());
    assert_eq!(link.next_write(0), bytes[0..60].to_vec());
    assert_eq!(link.pending(), 40);
    assert!(link.next_write(1).is_empty());
    assert!(link.next_write(149).is_empty());
    assert!(link.next_write(150).is_empty());
    assert_eq!(link.next_write(151), bytes[60..100].to_vec());
    assert_eq!(link.pending(), 0);
}

#[test]
fn budget_is_shared_by_the_writes_of_a_window() {
    let mut link = StationReader::new(1_000);
    link.queue(numbered(25));
    assert_eq!(link.next_write(1_010).len(), 25);
    link.queue(numbered(25));
    assert_eq!(link.next_write(1_050).len(), 25);
    link.queue(numbered(25));
    assert_eq!(link.next_write(1_100).len(), 10);
    assert_eq!(link.pending(), 15);
    assert_eq!(link.next_write(1_150).len(), 0);
    assert_eq!(link.next_write(1_151).len(), 0);
    // The last write was at 1 100: the budget is renewed once it is more
    // than 150 ms old.
    assert_eq!(link.next_write(1_250).len(), 0);
    assert_eq!(link.next_write(1_251), numbered(25)[10..].to_vec());
}

#[test]
fn budget_is_renewed_by_the_age_of_the_last_write() {
    let mut link = StationReader::new(0);
    let bytes = numbered(120);
    link.queue(bytes.clone());
    assert_eq!(link.next_write(150), bytes[0..60].to_vec());
    assert!(link.next_write(151).is_empty());
    assert!(link.next_write(300).is_empty());
    assert_eq!(link.next_write(301), bytes[60..120].to_vec());
}

#[test]
fn steady_trickle_stops_at_the_budget_until_the_line_was_quiet() {
    let mut link = StationReader::new(0);
    let mut now = 0;
    // Twenty bytes every 100 ms: the third write fills the budget.
    for expected in [20usize, 20, 20] {
        now += 100;
        link.queue(numbered(20));
        assert_eq!(link.next_write(now).len(), expected, "at {}", now);
    }
    // The last write was at 300, and the budget is spent.
    link.queue(numbered(40));
    assert!(link.next_write(400).is_empty());
    assert!(link.next_write(450).is_empty());
    assert_eq!(link.next_write(451).len(), 40);
    assert_eq!(link.pending(), 0);
}

#[test]
fn window_begins_when_bytes_wait_after_a_pause() {
    let mut link = StationReader::new(0);
    assert!(link.next_write(10_000).is_empty());
    link.queue(numbered(200));
    assert_eq!(link.next_write(10_000).len(), 60);
    assert_eq!(link.next_write(10_150).len(), 0);
    assert_eq!(link.next_write(10_151).len(), 60);
    assert_eq!(link.next_write(10_301).len(), 0);
    assert_eq!(link.next_write(10_302).len(), 60);
    assert_eq!(link.next_write(10_500).len(), 20);
    assert_eq!(link.pending(), 0);
}

#[test]
fn bytes_leave_in_the_order_they_were_queued() {
    let mut link = StationReader::new(0);
    let mut sent: Vec<u8> = Vec::new();
    let mut queued: Vec<u8> = Vec::new();
    let mut now = 0;
    for round in 0..40u8 {
        let record: Vec<u8> = (0..(round % 7) * 5).map(|i| round.wrapping_mul(31).wrapping_add(i)).collect();
        queued.extend_from_slice(&record);
        link.queue(record);
        now += 37;
        let out = link.next_write(now);
        assert!(out.len() <= 60);
        sent.extend_from_slice(&out);
    }
    while link.pending() > 0 {
        now += 151;
        sent.extend_from_slice(&link.next_write(now));
    }
    assert_eq!(sent, queued);
}

fn most_in_any_span(writes: &[(u64, usize)]) -> usize {
    let mut most = 0;
    for (i, (start, _)) in writes.iter().enumerate() {
        let in_span: usize =
            writes[i..].iter().take_while(|(t, _)| t - start <= 150).map(|(_, n)| n).sum();
        most = most.max(in_span);
    }
    most
}

#[test]
fn no_span_of_150_ms_carries_more_than_the_budget() {
    for step in [1u64, 7, 13, 50, 75, 149, 150, 151, 400] {
        let mut link = StationReader::new(0);
        link.queue(numbered(1_000));
        let mut writes: Vec<(u64, usize)> = Vec::new();
        let mut now = 0u64;
        while link.pending() > 0 {
            let out = link.next_write(now);
            if !out.is_empty() {
                writes.push((now, out.len()));
            }
            now += step;
        }
        assert_eq!(writes.iter().map(|(_, n)| n).sum::<usize>(), 1_000);
        assert_eq!(most_in_any_span(&writes), 60, "step {}", step);
    }
}

#[test]
fn small_records_share_the_budget_of_every_span() {
    let mut link = StationReader::new(0);
    let mut writes: Vec<(u64, usize)> = Vec::new();
    let mut now = 0u64;
    for round in 0..400u64 {
        if round % 3 == 0 {
            link.queue(numbered(17));
        }
        let out = link.next_write(now);
        if !out.is_empty() {
            writes.push((now, out.len()));
        }
        now += 20 + (round * 7) % 31;
    }
    assert!(writes.len() > 10);
    assert!(most_in_any_span(&writes) <= 60);
}

#[test]
fn clock_that_steps_back_opens_no_window() {
    let mut link = StationReader::new(1_000);
    link.queue(numbered(100));
    assert_eq!(link.next_write(1_000).len(), 60);
    assert_eq!(link.next_write(0).len(), 0);
    assert_eq!(link.next_write(999).len(), 0);
    assert_eq!(link.pending(), 40);
}
