//! End-to-end crawls against a scripted site, link extraction through the
//! real HTML parser, and the final report.

use linkcheck::engine::{check_urls, run_crawl, SiteEntry, SiteModel};
use linkcheck::extract::collect_hrefs;
use linkcheck::fetch::{default_policy, AttemptOutcome};
use linkcheck::report::{render_failure, summarize_results};
use linkcheck::result::{CheckResult, Reason};

fn healthy_attempts() -> Vec<AttemptOutcome> {
    (0..5).map(|_| AttemptOutcome::Status(200)).collect()
}

fn status_attempts(status: u16) -> Vec<AttemptOutcome> {
    (0..5).map(|_| AttemptOutcome::Status(status)).collect()
}

fn timeout_attempts() -> Vec<AttemptOutcome> {
    (0..5)
        .map(|_| AttemptOutcome::TransportFailure("timed out".to_string()))
        .collect()
}

fn entry(url: &str, attempts: Vec<AttemptOutcome>, hrefs: &[&str]) -> SiteEntry {
    SiteEntry {
        url: url.to_string(),
        attempts,
        hrefs: hrefs.iter().map(|h| h.to_string()).collect(),
    }
}

#[test]
fn crawl_of_a_healthy_site_visits_pages_and_links_once() {
    let model = SiteModel {
        entries: vec![
            entry("http://a.test", healthy_attempts(), &["/b", "https://ext.test/x"]),
            entry("http://a.test/b", healthy_attempts(), &[]),
            entry("https://ext.test/x", healthy_attempts(), &[]),
        ],
    };
    let policy = default_policy();
    let state = run_crawl(&model, &policy, &"http://a.test/".to_string());
    assert!(state.to_be_checked_pages.is_empty());
    assert_eq!(state.checked_pages, vec!["http://a.test", "http://a.test/b"]);
    assert_eq!(state.checked_links, vec!["https://ext.test/x"]);
    let summary = summarize_results(&state);
    assert!(summary.success);
    assert_eq!(summary.page_count, 2);
    assert_eq!(summary.link_count, 1);
    assert!(summary.failure_lines.is_empty());
    for result in &state.check_results {
        assert!(matches!(result, CheckResult::Healthy { .. }));
    }
}

#[test]
fn a_broken_link_is_reported_with_page_and_status() {
    let model = SiteModel {
        entries: vec![
            entry("http://a.test", healthy_attempts(), &["https://ext.test/bad"]),
            entry("https://ext.test/bad", status_attempts(404), &[]),
        ],
    };
    let policy = default_policy();
    let state = run_crawl(&model, &policy, &"http://a.test/".to_string());
    let summary = summarize_results(&state);
    assert!(!summary.success);
    assert_eq!(summary.failure_lines.len(), 1);
    assert_eq!(
        summary.failure_lines[0],
        "https://ext.test/bad on http://a.test gave status 404"
    );
    let failed: Vec<&CheckResult> = state
        .check_results
        .iter()
        .filter(|c| matches!(c, CheckResult::Failed { .. }))
        .collect();
    assert_eq!(failed.len(), 1);
    match failed[0] {
        CheckResult::Failed { url, context_page, reason } => {
            assert_eq!(url, "https://ext.test/bad");
            assert_eq!(context_page, "http://a.test");
            assert!(matches!(reason, Reason::Status(404)));
        },
        CheckResult::Healthy { .. } => unreachable!(),
    }
}

#[test]
fn a_link_timing_out_every_attempt_fails_and_the_crawl_goes_on() {
    let model = SiteModel {
        entries: vec![
            entry(
                "http://a.test",
                healthy_attempts(),
                &["https://slow.test/x", "/b"],
            ),
            entry("http://a.test/b", healthy_attempts(), &[]),
            entry("https://slow.test/x", timeout_attempts(), &[]),
        ],
    };
    let policy = default_policy();
    let state = run_crawl(&model, &policy, &"http://a.test/".to_string());
    // The slow link is recorded broken with its transport error...
    let summary = summarize_results(&state);
    assert!(!summary.success);
    assert_eq!(summary.failure_lines.len(), 1);
    assert_eq!(
        summary.failure_lines[0],
        "https://slow.test/x on http://a.test gave error timed out"
    );
    // ...while the rest of the site is still crawled and healthy.
    assert_eq!(state.checked_pages, vec!["http://a.test", "http://a.test/b"]);
    let healthy: Vec<&CheckResult> = state
        .check_results
        .iter()
        .filter(|c| matches!(c, CheckResult::Healthy { .. }))
        .collect();
    assert_eq!(healthy.len(), 1);
}

#[test]
fn a_url_without_an_entry_fails_as_unreachable() {
    let model = SiteModel {
        entries: vec![entry("http://a.test", healthy_attempts(), &["/missing"])],
    };
    let policy = default_policy();
    let state = run_crawl(&model, &policy, &"http://a.test".to_string());
    assert_eq!(
        state.checked_pages,
        vec!["http://a.test", "http://a.test/missing"]
    );
    let summary = summarize_results(&state);
    assert!(!summary.success);
    assert_eq!(summary.failure_lines.len(), 1);
    assert_eq!(
        summary.failure_lines[0],
        "http://a.test/missing on http://a.test gave error no response"
    );
}

#[test]
fn cycles_do_not_crawl_a_page_twice() {
    let model = SiteModel {
        entries: vec![
            entry("http://a.test", healthy_attempts(), &["/b"]),
            entry("http://a.test/b", healthy_attempts(), &["/", "/b", "/c"]),
            entry("http://a.test/c", healthy_attempts(), &["/b", "/"]),
        ],
    };
    let policy = default_policy();
    let state = run_crawl(&model, &policy, &"http://a.test/".to_string());
    assert_eq!(
        state.checked_pages,
        vec!["http://a.test", "http://a.test/b", "http://a.test/c"]
    );
    let summary = summarize_results(&state);
    assert!(summary.success);
}

#[test]
fn check_urls_returns_one_outcome_per_url_in_order() {
    let model = SiteModel {
        entries: vec![
            entry("http://a.test/ok", healthy_attempts(), &[]),
            entry("http://a.test/bad", status_attempts(500), &[]),
        ],
    };
    let policy = default_policy();
    let urls = vec!["http://a.test/ok".to_string(), "http://a.test/bad".to_string()];
    let results = check_urls(&model, &policy, &"http://a.test".to_string(), &urls);
    assert_eq!(results.len(), 2);
    assert!(matches!(&results[0], CheckResult::Healthy { url } if url == "http://a.test/ok"));
    match &results[1] {
        CheckResult::Failed { url, reason, .. } => {
            assert_eq!(url, "http://a.test/bad");
            assert!(matches!(reason, Reason::Status(500)));
        },
        CheckResult::Healthy { .. } => panic!("expected a failure"),
    }
}

#[test]
fn collect_hrefs_reads_anchors_in_document_order() {
    let body = "<html><body>\
        <a href=\"/b\">b</a>\
        <a href=\"https://ext.test/x\">x</a>\
        <a>no attribute</a>\
        <a href=\"/b\">again</a>\
        </body></html>";
    let hrefs = collect_hrefs(body);
    assert_eq!(hrefs, vec!["/b", "https://ext.test/x", ""]);
}

#[test]
fn collect_hrefs_ignores_other_elements() {
    let body = "<html><body><p>text</p><img src=\"/i.png\"><div>x</div></body></html>";
    let hrefs = collect_hrefs(body);
    assert!(hrefs.is_empty());
}

#[test]
fn render_failure_formats_status_and_transport_reasons() {
    let by_status = CheckResult::Failed {
        url: "http://u.test".to_string(),
        context_page: "http://p.test".to_string(),
        reason: Reason::Status(502),
    };
    assert_eq!(
        render_failure(&by_status),
        "http://u.test on http://p.test gave status 502"
    );
    let by_transport = CheckResult::Failed {
        url: "http://u.test".to_string(),
        context_page: "http://p.test".to_string(),
        reason: Reason::Transport("dns failure".to_string()),
    };
    assert_eq!(
        render_failure(&by_transport),
        "http://u.test on http://p.test gave error dns failure"
    );
}
