use gtrends::query::{export_file_path, warmup_url, QueryAction, QueryError, QueryPlan};
use gtrends::url::explore_url;
use gtrends::Date;

const LOCATOR: &str = "/html/body/div[3]/div[2]/div/md-content/div/div/div[1]/trends-widget/ng-include/widget/div/div/div/widget-actions/div/button[1]";

#[test]
fn warmup_navigates_to_the_site_root() {
    assert_eq!(warmup_url(), "https://trends.google.com");
}

#[test]
fn export_path_is_fixed_inside_the_directory() {
    assert_eq!(export_file_path("/tmp/dl"), "/tmp/dl/multiTimeline.csv");
}

#[test]
fn url_substitutes_the_keyword() {
    let url = explore_url("rust");
    assert_eq!(
        url,
        "https://trends.google.com/trends/explore?date=all&geo=US&hl=en-US&q=rust"
    );
    assert!(url.contains("q=rust"));
}

#[test]
fn url_percent_encodes_the_keyword() {
    assert!(explore_url("rust lang").ends_with("q=rust%20lang"));
    assert!(explore_url("c++").ends_with("q=c%2B%2B"));
}

#[test]
fn first_action_is_always_stale_file_removal() {
    let plan = QueryPlan::new("/tmp/dl", "rust");
    match plan.current_action() {
        QueryAction::RemoveStale(path) => assert_eq!(path, "/tmp/dl/multiTimeline.csv"),
        other => panic!("expected the stale-file removal first, got {:?}", other),
    }
}

#[test]
fn failed_stale_removal_aborts_the_query() {
    let mut plan = QueryPlan::new("/tmp/dl", "rust");
    assert_eq!(plan.advance(false), Err(QueryError::StaleFileRemoval));
    // The plan has not moved on: polling is still out of reach.
    match plan.current_action() {
        QueryAction::RemoveStale(_) => {},
        other => panic!("expected the plan to stand still, got {:?}", other),
    }
}

#[test]
fn failed_navigation_is_a_navigation_error() {
    let mut plan = QueryPlan::new("/tmp/dl", "rust");
    plan.advance(true).unwrap();
    assert_eq!(plan.advance(false), Err(QueryError::Navigation));
}

#[test]
fn invisible_control_is_ui_element_unavailable() {
    let mut plan = QueryPlan::new("/tmp/dl", "rust");
    plan.advance(true).unwrap();
    plan.advance(true).unwrap();
    assert_eq!(plan.advance(false), Err(QueryError::UiElementUnavailable));
}

#[test]
fn timed_out_poll_still_proceeds_to_the_read() {
    let mut plan = QueryPlan::new("/tmp/dl", "rust");
    for _ in 0..4 {
        plan.advance(true).unwrap();
    }
    // The watcher timed out; the plan still asks for the read, and a
    // failed read surfaces as the download timeout.
    plan.advance(false).unwrap();
    match plan.current_action() {
        QueryAction::ReadDownload(path) => assert_eq!(path, "/tmp/dl/multiTimeline.csv"),
        other => panic!("expected the read, got {:?}", other),
    }
    assert_eq!(plan.advance(false), Err(QueryError::DownloadTimeout));
}

#[test]
fn malformed_export_surfaces_the_parse_error() {
    let mut plan = QueryPlan::new("/tmp/dl", "rust");
    for _ in 0..5 {
        plan.advance(true).unwrap();
    }
    let r = plan.complete(b"Month,kw\n2020-01,abc\n");
    assert!(matches!(r, Err(QueryError::Parse(_))));
}

#[test]
fn whole_query_for_rust_yields_its_report() {
    let mut plan = QueryPlan::new("/tmp/dl", "rust");

    match plan.current_action() {
        QueryAction::RemoveStale(path) => assert_eq!(path, "/tmp/dl/multiTimeline.csv"),
        other => panic!("unexpected action {:?}", other),
    }
    plan.advance(true).unwrap();

    match plan.current_action() {
        QueryAction::NavigateTo(url) => assert!(url.contains("q=rust")),
        other => panic!("unexpected action {:?}", other),
    }
    plan.advance(true).unwrap();

    match plan.current_action() {
        QueryAction::AwaitControl(locator) => assert_eq!(locator, LOCATOR),
        other => panic!("unexpected action {:?}", other),
    }
    plan.advance(true).unwrap();

    match plan.current_action() {
        QueryAction::ClickControl(locator) => assert_eq!(locator, LOCATOR),
        other => panic!("unexpected action {:?}", other),
    }
    plan.advance(true).unwrap();

    match plan.current_action() {
        QueryAction::PollDownload(path) => assert_eq!(path, "/tmp/dl/multiTimeline.csv"),
        other => panic!("unexpected action {:?}", other),
    }
    plan.advance(true).unwrap();

    match plan.current_action() {
        QueryAction::ReadDownload(path) => assert_eq!(path, "/tmp/dl/multiTimeline.csv"),
        other => panic!("unexpected action {:?}", other),
    }

    let report = plan.complete(b"Month,rust: (United States)\n2023-01,45\n2023-02,60\n").unwrap();
    assert_eq!(report.keyword, "rust");
    assert_eq!(
        report.timestamps,
        vec![
            (Date { year: 2023, month: 1, day: 1 }, 45),
            (Date { year: 2023, month: 2, day: 1 }, 60),
        ]
    );
}
