//! The keyword query: a fixed plan of outside steps and the decisions
//! between them.
//!
//! A query drives a browser session through navigation, an export
//! click and a file download. Those actions happen outside the
//! library; what is verified here is the plan itself: which action
//! comes when, what each outcome leads to, and which error each
//! failure surfaces as. The shell around the library performs the
//! current action, reports whether it succeeded, and hands the
//! downloaded bytes back to be parsed.

use vstd::prelude::*;
use vstd::string::StringExecFns;
use vstd::string::StringSliceAdditionalSpecFns;

use crate::date::Date;
use crate::parse::{parse_export, parse_export_spec, ParseError};
use crate::url::{explore_url, spec_explore_url};

verus! {

/// Where a query stands.
#[derive(Clone, Copy, PartialEq, Eq, Structural, Debug)]
pub enum QueryPhase {
    /// Remove a leftover export file from an earlier query.
    ClearStale,
    /// Navigate the session to the keyword-explore URL.
    Navigate,
    /// Wait for the export control to become visible.
    LocateControl,
    /// Activate the export control.
    TriggerExport,
    /// Poll for the exported file.
    AwaitDownload,
    /// Read the exported file's bytes.
    ReadExport,
}

/// A failed query, by stage.
#[derive(Clone, Copy, PartialEq, Eq, Structural, Debug)]
pub enum QueryError {
    /// The leftover export file could not be removed.
    StaleFileRemoval,
    /// Navigation to the keyword-explore page failed.
    Navigation,
    /// The export control never became visible, or could not be
    /// activated.
    UiElementUnavailable,
    /// The exported file was not there to read after the wait.
    DownloadTimeout,
    /// The exported file was malformed.
    Parse(ParseError),
}

/// What the shell is asked to do next. Each action carries the value
/// it needs: a path, a URL, or the locator of the export control.
#[derive(Clone, Debug)]
pub enum QueryAction {
    /// Delete the file at this path if it exists.
    RemoveStale(String),
    /// Drive the session to this URL.
    NavigateTo(String),
    /// Wait, bounded, for the element at this locator to be visible.
    AwaitControl(String),
    /// Click the element at this locator.
    ClickControl(String),
    /// Poll, bounded, for a file to appear at this path.
    PollDownload(String),
    /// Read the bytes of the file at this path.
    ReadDownload(String),
}

/// The finished answer: the keyword and its series, one record per
/// data row of the export, in file order.
#[derive(Clone, Debug)]
pub struct Report {
    pub keyword: String,
    pub timestamps: Vec<(Date, i32)>,
}

/// The structural locator of the export control on the keyword-explore
/// page. It is the one place coupled to the page's layout.
pub open spec fn spec_control_locator() -> Seq<char> {
    "/html/body/div[3]/div[2]/div/md-content/div/div/div[1]/trends-widget/ng-include/widget/div/div/div/widget-actions/div/button[1]"@
}

/// The site's root page, visited once when a session opens: the
/// warm-up navigation that acquires the cookies without which later
/// requests are rejected.
pub open spec fn spec_warmup_url() -> Seq<char> {
    "https://trends.google.com"@
}

/// The target of the session's one-time warm-up navigation.
pub fn warmup_url() -> (u: String)
    ensures
        u@ == spec_warmup_url(),
{
    "https://trends.google.com".to_owned()
}

/// The fixed name the site gives the exported file.
pub open spec fn spec_export_name() -> Seq<char> {
    "/multiTimeline.csv"@
}

/// Where the export lands for a session downloading into `dir`.
pub open spec fn spec_export_path(dir: Seq<char>) -> Seq<char> {
    dir + spec_export_name()
}

/// Builds the export file's path inside a download directory.
pub fn export_file_path(download_dir: &str) -> (p: String)
    ensures
        p@ == spec_export_path(download_dir@),
{
    let mut p = download_dir.to_owned();
    p.append("/multiTimeline.csv");
    p
}

/// How one phase answers an outcome: the next phase, or the typed
/// error that failure surfaces as. The download poll advances either
/// way: whether the wait timed out is discovered when the file is
/// read, so an absent file surfaces at the read, as `DownloadTimeout`.
/// A successful read leaves the plan at the read; the bytes
/// themselves go to `complete`.
pub open spec fn spec_step(phase: QueryPhase, succeeded: bool) -> Result<QueryPhase, QueryError> {
    match phase {
        QueryPhase::ClearStale => if succeeded {
            Ok(QueryPhase::Navigate)
        } else {
            Err(QueryError::StaleFileRemoval)
        },
        QueryPhase::Navigate => if succeeded {
            Ok(QueryPhase::LocateControl)
        } else {
            Err(QueryError::Navigation)
        },
        QueryPhase::LocateControl => if succeeded {
            Ok(QueryPhase::TriggerExport)
        } else {
            Err(QueryError::UiElementUnavailable)
        },
        QueryPhase::TriggerExport => if succeeded {
            Ok(QueryPhase::AwaitDownload)
        } else {
            Err(QueryError::UiElementUnavailable)
        },
        QueryPhase::AwaitDownload => Ok(QueryPhase::ReadExport),
        QueryPhase::ReadExport => if succeeded {
            Ok(QueryPhase::ReadExport)
        } else {
            Err(QueryError::DownloadTimeout)
        },
    }
}

/// How far into the plan a phase stands.
pub open spec fn phase_stage(phase: QueryPhase) -> int {
    match phase {
        QueryPhase::ClearStale => 0,
        QueryPhase::Navigate => 1,
        QueryPhase::LocateControl => 2,
        QueryPhase::TriggerExport => 3,
        QueryPhase::AwaitDownload => 4,
        QueryPhase::ReadExport => 5,
    }
}

/// The phase a run of outcomes reaches from `phase`, or the error it
/// stops at.
pub open spec fn spec_run(phase: QueryPhase, outcomes: Seq<bool>) -> Result<QueryPhase, QueryError>
    decreases outcomes.len(),
{
    if outcomes.len() == 0 {
        Ok(phase)
    } else {
        match spec_step(phase, outcomes[0]) {
            Ok(p) => spec_run(p, outcomes.drop_first()),
            Err(e) => Err(e),
        }
    }
}

/// One keyword query: the values its actions carry and where it
/// stands. Built once per keyword; its first action is always the
/// removal of a stale export file.
pub struct QueryPlan {
    pub keyword: String,
    pub url: String,
    pub export_path: String,
    pub phase: QueryPhase,
}

impl QueryPlan {
    /// Starts a query for `keyword` against a session downloading into
    /// `download_dir`. The plan opens with the stale-file removal.
    pub fn new(download_dir: &str, keyword: &str) -> (p: QueryPlan)
        ensures
            p.keyword@ == keyword@,
            p.url@ == spec_explore_url(keyword.spec_bytes()),
            p.export_path@ == spec_export_path(download_dir@),
            p.phase == QueryPhase::ClearStale,
    {
        QueryPlan {
            keyword: keyword.to_owned(),
            url: explore_url(keyword),
            export_path: export_file_path(download_dir),
            phase: QueryPhase::ClearStale,
        }
    }

    /// The action the shell should perform now.
    pub fn current_action(&self) -> (a: QueryAction)
        ensures
            self.phase == QueryPhase::ClearStale ==> (a matches QueryAction::RemoveStale(s)
                && s@ == self.export_path@),
            self.phase == QueryPhase::Navigate ==> (a matches QueryAction::NavigateTo(s) && s@
                == self.url@),
            self.phase == QueryPhase::LocateControl ==> (a matches QueryAction::AwaitControl(s)
                && s@ == spec_control_locator()),
            self.phase == QueryPhase::TriggerExport ==> (a matches QueryAction::ClickControl(s)
                && s@ == spec_control_locator()),
            self.phase == QueryPhase::AwaitDownload ==> (a matches QueryAction::PollDownload(s)
                && s@ == self.export_path@),
            self.phase == QueryPhase::ReadExport ==> (a matches QueryAction::ReadDownload(s)
                && s@ == self.export_path@),
    {
        match self.phase {
            QueryPhase::ClearStale => QueryAction::RemoveStale(self.export_path.clone()),
            QueryPhase::Navigate => QueryAction::NavigateTo(self.url.clone()),
            QueryPhase::LocateControl => QueryAction::AwaitControl(
                "/html/body/div[3]/div[2]/div/md-content/div/div/div[1]/trends-widget/ng-include/widget/div/div/div/widget-actions/div/button[1]".to_owned(),
            ),
            QueryPhase::TriggerExport => QueryAction::ClickControl(
                "/html/body/div[3]/div[2]/div/md-content/div/div/div[1]/trends-widget/ng-include/widget/div/div/div/widget-actions/div/button[1]".to_owned(),
            ),
            QueryPhase::AwaitDownload => QueryAction::PollDownload(self.export_path.clone()),
            QueryPhase::ReadExport => QueryAction::ReadDownload(self.export_path.clone()),
        }
    }

    /// Moves the plan by one reported outcome: to the next phase, or
    /// to the typed error of the phase that failed, the plan left
    /// where it stood. For the download poll, `succeeded` says whether
    /// the file was seen; the plan advances to the read either way.
    pub fn advance(&mut self, succeeded: bool) -> (r: Result<(), QueryError>)
        ensures
            match spec_step(old(self).phase, succeeded) {
                Ok(ph) => r == Ok::<(), QueryError>(()) && final(self).phase == ph,
                Err(e) => r == Err::<(), QueryError>(e) && final(self).phase == old(self).phase,
            },
            final(self).keyword == old(self).keyword,
            final(self).url == old(self).url,
            final(self).export_path == old(self).export_path,
    {
        let next = match self.phase {
            QueryPhase::ClearStale => if succeeded {
                Ok(QueryPhase::Navigate)
            } else {
                Err(QueryError::StaleFileRemoval)
            },
            QueryPhase::Navigate => if succeeded {
                Ok(QueryPhase::LocateControl)
            } else {
                Err(QueryError::Navigation)
            },
            QueryPhase::LocateControl => if succeeded {
                Ok(QueryPhase::TriggerExport)
            } else {
                Err(QueryError::UiElementUnavailable)
            },
            QueryPhase::TriggerExport => if succeeded {
                Ok(QueryPhase::AwaitDownload)
            } else {
                Err(QueryError::UiElementUnavailable)
            },
            QueryPhase::AwaitDownload => Ok(QueryPhase::ReadExport),
            QueryPhase::ReadExport => if succeeded {
                Ok(QueryPhase::ReadExport)
            } else {
                Err(QueryError::DownloadTimeout)
            },
        };
        match next {
            Ok(ph) => {
                self.phase = ph;
                Ok(())
            },
            Err(e) => Err(e),
        }
    }

    /// Finishes the query on the bytes read from the export file:
    /// parses them and wraps the records with the keyword, or surfaces
    /// the parse error.
    pub fn complete(&self, data: &[u8]) -> (r: Result<Report, QueryError>)
        requires
            self.phase == QueryPhase::ReadExport,
        ensures
            match parse_export_spec(data@) {
                Ok(s) => (r matches Ok(rep) && rep.keyword@ == self.keyword@ && rep.timestamps@
                    == s),
                Err(e) => r matches Err(q) && q == QueryError::Parse(e),
            },
            r matches Ok(rep) ==> forall|k: int|
                0 <= k < rep.timestamps@.len() ==> (#[trigger] rep.timestamps@[k]).0.is_valid()
                    && rep.timestamps@[k].0.day == 1,
    {
        match parse_export(data) {
            Ok(timestamps) => Ok(Report { keyword: self.keyword.clone(), timestamps }),
            Err(e) => Err(QueryError::Parse(e)),
        }
    }
}

/// The stale-file law: a run that reaches the download poll began
/// with a successful stale-file removal. Together with `new` (a fresh
/// plan opens in `ClearStale`, whose action is removing the export
/// path) this says the watcher can only ever observe a file written
/// after the old one was deleted: a leftover from an earlier query
/// cannot satisfy the poll.
pub proof fn lemma_stale_cleared_before_poll(outcomes: Seq<bool>, reached: QueryPhase)
    requires
        spec_run(QueryPhase::ClearStale, outcomes) == Ok::<QueryPhase, QueryError>(reached),
        phase_stage(reached) >= phase_stage(QueryPhase::AwaitDownload),
    ensures
        outcomes.len() >= 1,
        outcomes[0],
{
    if outcomes.len() == 0 {
        assert(reached == QueryPhase::ClearStale);
    }
}

} // verus!
