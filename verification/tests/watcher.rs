use gtrends::watch::{DownloadWatcher, PollVerdict};

#[test]
fn file_already_there_returns_immediately() {
    let w = DownloadWatcher::standard();
    let r = w.await_file(&vec![true]);
    assert!(r.found);
    assert_eq!(r.polls, 1);
    assert_eq!(r.elapsed_ms, 0);
}

#[test]
fn file_never_appearing_waits_the_timeout_out() {
    let w = DownloadWatcher::standard();
    let r = w.await_file(&vec![]);
    assert!(!r.found);
    assert!(r.elapsed_ms >= w.timeout_ms);
    assert!(r.elapsed_ms < w.timeout_ms + w.poll_interval_ms);
    assert_eq!(r.polls, 101);
}

#[test]
fn file_appearing_mid_wait_is_seen_at_its_poll() {
    let w = DownloadWatcher { timeout_ms: 1000, poll_interval_ms: 100 };
    let r = w.await_file(&vec![false, false, true]);
    assert!(r.found);
    assert_eq!(r.polls, 3);
    assert_eq!(r.elapsed_ms, 200);
}

#[test]
fn file_appearing_after_the_deadline_is_missed() {
    let w = DownloadWatcher { timeout_ms: 250, poll_interval_ms: 100 };
    // Polls happen at 0, 100, 200 and 300 ms; the file is only there
    // from the fifth entry on, which no poll reaches.
    let r = w.await_file(&vec![false, false, false, false, true]);
    assert!(!r.found);
    assert_eq!(r.elapsed_ms, 300);
    assert_eq!(r.polls, 4);
}

#[test]
fn verdicts_follow_the_policy() {
    let w = DownloadWatcher { timeout_ms: 1000, poll_interval_ms: 100 };
    assert_eq!(w.verdict(0, true), PollVerdict::Ready);
    assert_eq!(w.verdict(5000, true), PollVerdict::Ready);
    assert_eq!(w.verdict(0, false), PollVerdict::KeepWaiting);
    assert_eq!(w.verdict(999, false), PollVerdict::KeepWaiting);
    assert_eq!(w.verdict(1000, false), PollVerdict::TimedOut);
}

#[test]
fn standard_policy_matches_the_defaults() {
    let w = DownloadWatcher::standard();
    assert_eq!(w.timeout_ms, 10000);
    assert_eq!(w.poll_interval_ms, 100);
}
