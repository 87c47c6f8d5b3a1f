use libbyreads_rs::schedule::{ProbeOutcome, ProbeScheduler};

#[test]
fn window_never_exceeds_limit() {
    let total = 9;
    let limit = 3;
    let mut s = ProbeScheduler::new(total, limit);
    let mut in_flight: Vec<usize> = Vec::new();
    let mut launched_order: Vec<usize> = Vec::new();
    let mut completions = 0;
    // Launch eagerly, completing the oldest probe whenever the window is
    // full, in a deliberately uneven pattern.
    while !s.is_done() {
        match s.next_launch() {
            Some(idx) => {
                in_flight.push(idx);
                launched_order.push(idx);
                assert!(in_flight.len() <= limit);
            }
            None => {
                let finished = in_flight.remove(0);
                let outcome = match finished % 4 {
                    0 => ProbeOutcome::Available,
                    1 => ProbeOutcome::Holdable,
                    2 => ProbeOutcome::NotOwned,
                    _ => ProbeOutcome::Failed,
                };
                s.record_outcome(outcome);
                completions += 1;
            }
        }
    }
    assert_eq!(completions, total);
    assert_eq!(launched_order, (0..total).collect::<Vec<usize>>());
    let (available, holdable, not_owned, failed) = s.tallies();
    assert_eq!(available + holdable + not_owned + failed, total);
    assert_eq!(available, 3);
    assert_eq!(holdable, 2);
    assert_eq!(not_owned, 2);
    assert_eq!(failed, 2);
}

#[test]
fn progress_counts_completions() {
    let mut s = ProbeScheduler::new(2, 5);
    assert_eq!(s.progress(), 0);
    assert_eq!(s.next_launch(), Some(0));
    assert_eq!(s.next_launch(), Some(1));
    assert_eq!(s.next_launch(), None);
    s.record_outcome(ProbeOutcome::Available);
    assert_eq!(s.progress(), 1);
    assert!(!s.is_done());
    s.record_outcome(ProbeOutcome::Failed);
    assert_eq!(s.progress(), 2);
    assert!(s.is_done());
}

#[test]
fn limit_larger_than_books() {
    let mut s = ProbeScheduler::new(2, 5);
    assert_eq!(s.next_launch(), Some(0));
    assert_eq!(s.next_launch(), Some(1));
    // Every book is in flight; nothing further to hand out.
    assert_eq!(s.next_launch(), None);
}
