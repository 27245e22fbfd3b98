use file_hasher::JobStatus;
use file_hasher::Ledger;
use file_hasher::TickOutcome;
use file_hasher::digest_bytes;

fn paths(names: &[&str]) -> Vec<String> {
    names.iter().map(|n| n.to_string()).collect()
}

#[test]
fn empty_input_set_completes_immediately_with_no_records() {
    let ledger_paths = paths(&[]);
    let mut ledger = Ledger::new(&ledger_paths);
    assert_eq!(ledger.len(), 0);
    assert!(ledger.all_terminal());
    let outcome = ledger.consumer_tick(Vec::new(), 0, false);
    assert_eq!(outcome, TickOutcome::Complete);
}

#[test]
fn three_files_two_equal_contents_all_reach_done() {
    let digest_a = digest_bytes(b"x");
    let digest_b = digest_bytes(b"x");
    let digest_c = digest_bytes(b"y");
    assert_eq!(digest_a, digest_b);
    assert_ne!(digest_a, digest_c);

    let ledger_paths = paths(&["a", "b", "c"]);
    let mut ledger = Ledger::new(&ledger_paths);
    let events = vec![
        ("a".to_string(), JobStatus::Working),
        ("b".to_string(), JobStatus::Working),
        ("c".to_string(), JobStatus::Working),
        ("a".to_string(), JobStatus::Done(digest_a.clone())),
        ("b".to_string(), JobStatus::Done(digest_b.clone())),
        ("c".to_string(), JobStatus::Done(digest_c.clone())),
    ];
    let outcome = ledger.consumer_tick(events, 7, false);
    assert_eq!(outcome, TickOutcome::Complete);
    for i in 0..3 {
        match &ledger.record_at(i).status {
            JobStatus::Done(d) => {
                if i < 2 {
                    assert_eq!(d, &digest_a);
                } else {
                    assert_eq!(d, &digest_c);
                }
            },
            other => panic!("record {} not done: {:?} expected Done", i, other.is_terminal()),
        }
    }
}

#[test]
fn unreadable_file_fails_with_cause_and_others_still_finish() {
    let ledger_paths = paths(&["ok.txt", "gone.txt"]);
    let mut ledger = Ledger::new(&ledger_paths);
    let digest = digest_bytes(b"readable");
    let events = vec![
        ("ok.txt".to_string(), JobStatus::Working),
        ("gone.txt".to_string(), JobStatus::Working),
        ("ok.txt".to_string(), JobStatus::Done(digest.clone())),
        ("gone.txt".to_string(), JobStatus::Error("permission denied".to_string())),
    ];
    let outcome = ledger.consumer_tick(events, 3, false);
    assert_eq!(outcome, TickOutcome::Complete);
    match &ledger.record_at(0).status {
        JobStatus::Done(d) => assert_eq!(d, &digest),
        _ => panic!("readable file did not finish"),
    }
    match &ledger.record_at(1).status {
        JobStatus::Error(cause) => assert!(!cause.is_empty()),
        _ => panic!("unreadable file did not fail"),
    }
}

#[test]
fn cancellation_returns_promptly_and_leaves_records_unfinished() {
    let ledger_paths = paths(&["a", "b", "c"]);
    let mut ledger = Ledger::new(&ledger_paths);
    let events = vec![("a".to_string(), JobStatus::Working)];
    let outcome = ledger.consumer_tick(events, 1, true);
    assert_eq!(outcome, TickOutcome::Cancelled);
    assert!(matches!(ledger.record_at(0).status, JobStatus::Working));
    assert!(matches!(ledger.record_at(1).status, JobStatus::Pending));
    assert!(matches!(ledger.record_at(2).status, JobStatus::Pending));
    assert!(!ledger.all_terminal());
}

#[test]
fn cancellation_wins_even_when_everything_finished() {
    let ledger_paths = paths(&["a"]);
    let mut ledger = Ledger::new(&ledger_paths);
    let events = vec![
        ("a".to_string(), JobStatus::Working),
        ("a".to_string(), JobStatus::Done("00".to_string())),
    ];
    let outcome = ledger.consumer_tick(events, 1, true);
    assert_eq!(outcome, TickOutcome::Cancelled);
}

#[test]
fn terminal_event_applied_twice_changes_nothing_after_the_first() {
    let ledger_paths = paths(&["a"]);
    let mut ledger = Ledger::new(&ledger_paths);
    let path = "a".to_string();
    ledger.apply_event(&path, JobStatus::Working, 1);
    ledger.apply_event(&path, JobStatus::Done("abcd".to_string()), 2);
    let status_once = ledger.record_at(0).status.clone();
    let started_once = ledger.record_at(0).started_at;
    let finished_once = ledger.record_at(0).finished_at;
    ledger.apply_event(&path, JobStatus::Done("abcd".to_string()), 9);
    assert!(matches!(&status_once, JobStatus::Done(d) if d == "abcd"));
    assert!(matches!(&ledger.record_at(0).status, JobStatus::Done(d) if d == "abcd"));
    assert_eq!(ledger.record_at(0).started_at, started_once);
    assert_eq!(ledger.record_at(0).finished_at, finished_once);
    assert_eq!(started_once, Some(1));
    assert_eq!(finished_once, Some(2));
}

#[test]
fn no_record_leaves_a_terminal_state() {
    let ledger_paths = paths(&["a"]);
    let mut ledger = Ledger::new(&ledger_paths);
    let path = "a".to_string();
    ledger.apply_event(&path, JobStatus::Working, 1);
    ledger.apply_event(&path, JobStatus::Error("boom".to_string()), 2);
    ledger.apply_event(&path, JobStatus::Working, 3);
    ledger.apply_event(&path, JobStatus::Pending, 4);
    ledger.apply_event(&path, JobStatus::Done("ff".to_string()), 5);
    match &ledger.record_at(0).status {
        JobStatus::Error(cause) => assert_eq!(cause, "boom"),
        _ => panic!("terminal state was left"),
    }
    assert_eq!(ledger.record_at(0).finished_at, Some(2));
}

#[test]
fn event_for_unknown_identity_is_ignored() {
    let ledger_paths = paths(&["a"]);
    let mut ledger = Ledger::new(&ledger_paths);
    ledger.apply_event(&"stranger".to_string(), JobStatus::Working, 1);
    assert!(matches!(ledger.record_at(0).status, JobStatus::Pending));
    assert_eq!(ledger.len(), 1);
}

#[test]
fn first_working_event_sets_the_start_time_and_later_ones_do_not() {
    let ledger_paths = paths(&["a"]);
    let mut ledger = Ledger::new(&ledger_paths);
    let path = "a".to_string();
    ledger.apply_event(&path, JobStatus::Working, 4);
    ledger.apply_event(&path, JobStatus::Working, 8);
    assert_eq!(ledger.record_at(0).started_at, Some(4));
    assert!(matches!(ledger.record_at(0).status, JobStatus::Working));
}
