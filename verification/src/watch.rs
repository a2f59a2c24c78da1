//! The download watcher: a bounded existence poll.
//!
//! The exported file appears asynchronously; the watcher checks for it
//! at a fixed cadence until it is there or a deadline has passed. The
//! policy is pure: given the elapsed time and whether the file is
//! there, it says what to do next, so the loop around it can run
//! against a real clock and filesystem or against a prepared trace.

use vstd::prelude::*;

verus! {

/// What one poll decides.
#[derive(Clone, Copy, PartialEq, Eq, Structural, Debug)]
pub enum PollVerdict {
    /// The file is there; stop waiting.
    Ready,
    /// Not there yet and the deadline has not passed; poll again.
    KeepWaiting,
    /// Not there and the deadline has passed; stop waiting.
    TimedOut,
}

/// The watcher's policy: how long to wait in all, and how long between
/// polls.
#[derive(Clone, Copy, PartialEq, Eq, Structural, Debug)]
pub struct DownloadWatcher {
    pub timeout_ms: u64,
    pub poll_interval_ms: u64,
}

/// The outcome of waiting a whole schedule out.
#[derive(Clone, Copy, PartialEq, Eq, Structural, Debug)]
pub struct WaitOutcome {
    /// Whether the file was seen.
    pub found: bool,
    /// Time waited, in milliseconds.
    pub elapsed_ms: u64,
    /// How many times the file's existence was checked.
    pub polls: u64,
}

/// Whether the file was there at the `k`-th poll of a trace.
pub open spec fn present_at(trace: Seq<bool>, k: int) -> bool {
    0 <= k < trace.len() && trace[k]
}

impl DownloadWatcher {
    /// The default policy: a ten-second deadline checked every tenth
    /// of a second.
    pub fn standard() -> (w: DownloadWatcher)
        ensures
            w.timeout_ms == 10000,
            w.poll_interval_ms == 100,
    {
        DownloadWatcher { timeout_ms: 10000, poll_interval_ms: 100 }
    }

    /// What one poll decides, as a value.
    pub open spec fn spec_verdict(self, elapsed_ms: u64, file_exists: bool) -> PollVerdict {
        if file_exists {
            PollVerdict::Ready
        } else if elapsed_ms >= self.timeout_ms {
            PollVerdict::TimedOut
        } else {
            PollVerdict::KeepWaiting
        }
    }

    /// Decides one poll: the file being there ends the wait at once,
    /// and the wait is given up only once the deadline has passed.
    pub fn verdict(&self, elapsed_ms: u64, file_exists: bool) -> (v: PollVerdict)
        ensures
            v == self.spec_verdict(elapsed_ms, file_exists),
    {
        if file_exists {
            PollVerdict::Ready
        } else if elapsed_ms >= self.timeout_ms {
            PollVerdict::TimedOut
        } else {
            PollVerdict::KeepWaiting
        }
    }

    /// Waits a prepared trace out: poll `k` happens after `k` whole
    /// intervals, and `trace[k]` says whether the file was there. A
    /// missing entry reads as absent. The wait ends at the first poll
    /// that sees the file, or at the first poll at or past the
    /// deadline.
    pub fn await_file(&self, trace: &Vec<bool>) -> (r: WaitOutcome)
        requires
            self.poll_interval_ms >= 1,
            self.timeout_ms <= u64::MAX - self.poll_interval_ms,
        ensures
            r.polls >= 1,
            r.elapsed_ms == (r.polls - 1) * self.poll_interval_ms,
            forall|j: int| 0 <= j < r.polls - 1 ==> !present_at(trace@, j),
            r.found <==> present_at(trace@, r.polls - 1),
            !r.found ==> r.elapsed_ms >= self.timeout_ms,
            r.elapsed_ms < self.timeout_ms + self.poll_interval_ms,
            present_at(trace@, 0) ==> r.found && r.polls == 1 && r.elapsed_ms == 0,
            (forall|j: int| !present_at(trace@, j)) ==> !r.found && r.elapsed_ms
                >= self.timeout_ms,
    {
        let mut elapsed: u64 = 0;
        let mut k: u64 = 0;
        loop
            invariant
                self.poll_interval_ms >= 1,
                self.timeout_ms <= u64::MAX - self.poll_interval_ms,
                elapsed == k * self.poll_interval_ms,
                k == 0 || (k - 1) * self.poll_interval_ms < self.timeout_ms,
                elapsed < self.timeout_ms + self.poll_interval_ms,
                k < u64::MAX,
                forall|j: int| 0 <= j < k ==> !present_at(trace@, j),
            decreases self.timeout_ms + self.poll_interval_ms - elapsed,
        {
            let exists = k < trace.len() as u64 && trace[k as usize];
            proof {
                assert(exists == present_at(trace@, k as int));
            }
            match self.verdict(elapsed, exists) {
                PollVerdict::Ready => {
                    proof {
                        if k > 0 {
                            assert(!present_at(trace@, 0));
                        } else {
                            assert(elapsed == 0) by (nonlinear_arith)
                                requires
                                    elapsed == k * self.poll_interval_ms,
                                    k == 0,
                            ;
                        }
                    }
                    return WaitOutcome { found: true, elapsed_ms: elapsed, polls: k + 1 };
                },
                PollVerdict::TimedOut => {
                    return WaitOutcome { found: false, elapsed_ms: elapsed, polls: k + 1 };
                },
                PollVerdict::KeepWaiting => {
                    proof {
                        assert((k + 1) * self.poll_interval_ms == k * self.poll_interval_ms
                            + self.poll_interval_ms) by (nonlinear_arith);
                        assert(k <= k * self.poll_interval_ms) by (nonlinear_arith)
                            requires
                                self.poll_interval_ms >= 1,
                        ;
                    }
                    elapsed = elapsed + self.poll_interval_ms;
                    k = k + 1;
                },
            }
        }
    }
}

/// The watcher's law: a file already there is seen at once, whatever
/// the elapsed time; and an absent file makes the watcher keep polling
/// until, and only until, the deadline has passed.
pub proof fn lemma_watcher_verdict(w: DownloadWatcher, elapsed_ms: u64)
    ensures
        w.spec_verdict(elapsed_ms, true) == PollVerdict::Ready,
        (w.spec_verdict(elapsed_ms, false) == PollVerdict::TimedOut) <==> elapsed_ms
            >= w.timeout_ms,
        (w.spec_verdict(elapsed_ms, false) == PollVerdict::KeepWaiting) <==> elapsed_ms
            < w.timeout_ms,
{
}

} // verus!
