use rand_wipe::elapsed::Elapsed;
use rand_wipe::event::{count, ProgressEvent};
use rand_wipe::progress::Progress;
use rand_wipe::worker::{FailureKind, Status, Worker, WriteOutcome};

const MIB: u64 = 1 << 20;

fn delta(target: usize, bytes: u64) -> ProgressEvent {
    ProgressEvent::Delta { target, bytes }
}

fn ended(target: usize, error: Option<&str>, summary: &str) -> ProgressEvent {
    ProgressEvent::Terminal {
        target,
        error: error.map(|e| e.to_string()),
        summary: summary.to_string(),
    }
}

fn failure(kind: FailureKind, message: &str, secs: u64) -> WriteOutcome {
    WriteOutcome::Failed {
        kind,
        message: message.to_string(),
        elapsed: Elapsed::new(secs, 0).expect("whole seconds"),
    }
}

#[test]
fn counters_stop_at_their_top() {
    assert_eq!(count(0, 0), 0);
    assert_eq!(count(1, 2), 3);
    assert_eq!(count(u64::MAX - 1, 1), u64::MAX);
    assert_eq!(count(u64::MAX, 1), u64::MAX);
    assert_eq!(count(u64::MAX, u64::MAX), u64::MAX);
    assert_eq!(count(1, u64::MAX), u64::MAX);
}

#[test]
fn an_event_names_its_target() {
    assert_eq!(delta(3, 1).target(), 3);
    assert_eq!(ended(5, None, "s").target(), 5);
}

#[test]
fn a_fresh_aggregator_holds_nothing() {
    let p = Progress::new(3);
    assert_eq!(p.targets(), 3);
    for t in 0..3 {
        assert_eq!(p.written(t), Some(0));
        assert!(!p.is_finished(t));
    }
    assert_eq!(p.written(3), None);
    assert!(!p.is_finished(3));
    assert!(!p.all_finished());
    assert!(p.summaries().is_empty());
    assert!(p.errors().is_empty());
}

#[test]
fn an_aggregator_without_targets_is_done() {
    let mut p = Progress::new(0);
    assert_eq!(p.targets(), 0);
    assert!(p.all_finished());
    assert!(!p.record(delta(0, 1)));
    assert!(!p.record(ended(0, None, "Finished x after 0s")));
    assert!(p.summaries().is_empty());
}

#[test]
fn deltas_add_up_for_their_target_alone() {
    let mut p = Progress::new(3);
    assert!(p.record(delta(1, MIB)));
    assert!(p.record(delta(1, 4096)));
    assert!(p.record(delta(2, 7)));
    assert!(p.record(delta(1, 0)));
    assert_eq!(p.written(0), Some(0));
    assert_eq!(p.written(1), Some(MIB + 4096));
    assert_eq!(p.written(2), Some(7));
    assert!(!p.is_finished(1));
}

#[test]
fn a_count_stops_at_its_top() {
    let mut p = Progress::new(1);
    assert!(p.record(delta(0, u64::MAX - 1)));
    assert!(p.record(delta(0, 5)));
    assert_eq!(p.written(0), Some(u64::MAX));
    assert!(p.record(delta(0, 5)));
    assert_eq!(p.written(0), Some(u64::MAX));
}

#[test]
fn a_terminal_event_ends_its_target_and_leaves_its_lines() {
    let mut p = Progress::new(2);
    p.record(delta(0, 10));
    assert!(p.record(ended(0, None, "Finished a after 1s")));
    assert!(p.is_finished(0));
    assert!(!p.is_finished(1));
    assert!(!p.all_finished());
    assert_eq!(p.written(0), Some(10));
    assert!(p.record(ended(1, Some("Error writing to b: gone"), "Finished b after 2s")));
    assert!(p.all_finished());
    assert_eq!(p.summaries().as_slice(), ["Finished a after 1s", "Finished b after 2s"]);
    assert_eq!(p.errors().as_slice(), ["Error writing to b: gone"]);
}

#[test]
fn events_for_unknown_targets_are_turned_away() {
    let mut p = Progress::new(2);
    assert!(!p.record(delta(2, 5)));
    assert!(!p.record(delta(usize::MAX, 5)));
    assert!(!p.record(ended(2, Some("e"), "s")));
    assert_eq!(p.written(0), Some(0));
    assert_eq!(p.written(1), Some(0));
    assert!(p.summaries().is_empty());
    assert!(p.errors().is_empty());
    assert!(!p.all_finished());
}

#[test]
fn a_target_that_has_ended_takes_no_more() {
    let mut p = Progress::new(1);
    p.record(delta(0, 3));
    assert!(p.record(ended(0, None, "Finished a after 1s")));
    assert!(!p.record(delta(0, 3)));
    assert!(!p.record(ended(0, Some("again"), "Finished a after 9s")));
    assert_eq!(p.written(0), Some(3));
    assert_eq!(p.summaries().len(), 1);
    assert!(p.errors().is_empty());
}

#[test]
fn every_target_leaves_one_terminal_line() {
    for n in 1..6usize {
        let mut p = Progress::new(n);
        for t in (0..n).rev() {
            assert!(p.summaries().len() < n);
            assert_eq!(p.all_finished(), false);
            let error = if t % 2 == 0 { Some("Error writing to t: e") } else { None };
            p.record(delta(t, t as u64));
            p.record(ended(t, error, "Finished t after 0s"));
            p.record(ended(t, error, "Finished t after 0s"));
        }
        assert!(p.all_finished());
        assert_eq!(p.summaries().len(), n);
        assert_eq!(p.errors().len(), (n + 1) / 2);
    }
}

#[test]
fn the_interleaving_does_not_matter() {
    let a = [delta(0, 5), delta(0, 6), ended(0, None, "Finished a after 1s")];
    let b = [delta(1, 100), delta(1, 200), delta(1, 300), ended(1, Some("Error writing to b: e"), "Finished b after 2s")];
    let orders: [&[usize]; 4] = [
        &[0, 0, 0, 1, 1, 1, 1],
        &[1, 1, 1, 1, 0, 0, 0],
        &[0, 1, 0, 1, 0, 1, 1],
        &[1, 0, 1, 1, 0, 1, 0],
    ];
    for order in orders {
        let mut p = Progress::new(2);
        let mut next = [0usize, 0usize];
        for &who in order {
            let event = if who == 0 { &a[next[0]] } else { &b[next[1]] };
            next[who] += 1;
            let copy = match event {
                ProgressEvent::Delta { target, bytes } => delta(*target, *bytes),
                ProgressEvent::Terminal { target, error, summary } => {
                    ended(*target, error.as_deref(), summary)
                }
            };
            assert!(p.record(copy));
        }
        assert_eq!(p.written(0), Some(11));
        assert_eq!(p.written(1), Some(600));
        assert!(p.all_finished());
        assert_eq!(p.summaries().len(), 2);
        assert_eq!(p.errors().as_slice(), ["Error writing to b: e"]);
    }
}

#[test]
fn two_targets_end_apart_with_their_own_counts() {
    let mut small = Worker::start(0, "small.img".to_string(), Some(2 * MIB), 2).expect("entropy");
    let mut large = Worker::start(1, "large.img".to_string(), Some(9 * MIB), 2).expect("entropy");
    let mut p = Progress::new(2);
    let (small_size, large_size) = (2 * MIB, 9 * MIB);
    let mut round = 0;
    while small.is_running() || large.is_running() {
        round += 1;
        if small.refill() {
            let outcome = if small.written() < small_size {
                WriteOutcome::Wrote(small.block().len())
            } else {
                failure(FailureKind::StorageFull, "No space left on device (os error 28)", 2)
            };
            if let Some(event) = small.step(outcome) {
                assert!(p.record(event));
            }
        }
        if large.refill() {
            let outcome = if large.written() < large_size {
                WriteOutcome::Wrote(large.block().len())
            } else {
                failure(FailureKind::Other, "Input/output error (os error 5)", 9)
            };
            if let Some(event) = large.step(outcome) {
                assert!(p.record(event));
            }
        }
        if round == 4 {
            assert!(p.is_finished(0));
            assert!(!p.is_finished(1));
            assert_eq!(p.written(0), Some(2 * MIB));
            assert_eq!(p.written(1), Some(4 * MIB));
            assert_eq!(p.summaries().len(), 1);
        }
    }
    assert_eq!(round, 10);
    assert_eq!(small.status(), Status::FinishedOk);
    assert_eq!(large.status(), Status::FinishedError);
    assert_eq!(p.written(0), Some(small.written()));
    assert_eq!(p.written(1), Some(large.written()));
    assert_eq!(p.written(0), Some(2 * MIB));
    assert_eq!(p.written(1), Some(9 * MIB));
    assert!(p.all_finished());
    assert_eq!(
        p.summaries().as_slice(),
        ["Finished small.img after 2s", "Finished large.img after 9s"]
    );
    assert_eq!(p.errors().as_slice(), ["Error writing to large.img: Input/output error (os error 5)"]);
}

#[test]
fn a_run_leaves_one_line_for_each_target() {
    let names = ["a", "b", "c", "d"];
    let mut workers: Vec<Worker> = names
        .iter()
        .enumerate()
        .map(|(i, n)| Worker::start(i, n.to_string(), None, names.len()).expect("entropy"))
        .collect();
    let mut p = Progress::new(workers.len());
    let mut step = 0usize;
    while workers.iter().any(|w| w.is_running()) {
        for w in workers.iter_mut() {
            step += 1;
            if !w.refill() {
                continue;
            }
            let outcome = if step % 7 == 0 {
                failure(FailureKind::Other, "gone", 1)
            } else if step % 5 == 0 {
                failure(FailureKind::StorageFull, "full", 1)
            } else {
                WriteOutcome::Wrote(4096)
            };
            if let Some(event) = w.step(outcome) {
                assert!(p.record(event));
            }
        }
    }
    assert!(p.all_finished());
    assert_eq!(p.summaries().len(), names.len());
    for w in &workers {
        assert_eq!(p.written(w.id()), Some(w.written()));
        assert!(p.is_finished(w.id()));
    }
    let in_error = workers.iter().filter(|w| w.status() == Status::FinishedError).count();
    assert_eq!(p.errors().len(), in_error);
}
