//! Frontier state operations: set-insertion and one-result-per-URL
//! recording.

use linkcheck::result::{CheckResult, Reason};
use linkcheck::state::{
    insert_newlinks_into_checkedlinks, insert_newpages_into_tobecheckedpages, record_result,
    results_contain_url, State,
};

fn strings(items: &[&str]) -> Vec<String> {
    items.iter().map(|s| s.to_string()).collect()
}

#[test]
fn inserting_new_pages_keeps_set_semantics_and_order() {
    let mut pending = strings(&["http://a.test/one"]);
    let new_pages = strings(&["http://a.test/two", "http://a.test/one", "http://a.test/three"]);
    insert_newpages_into_tobecheckedpages(&mut pending, &new_pages);
    assert_eq!(
        pending,
        strings(&["http://a.test/one", "http://a.test/two", "http://a.test/three"])
    );
}

#[test]
fn inserting_new_links_skips_those_already_checked() {
    let mut checked_links = strings(&["https://ext.test/x"]);
    let new_links = strings(&["https://ext.test/x", "https://ext.test/y"]);
    insert_newlinks_into_checkedlinks(&mut checked_links, &new_links);
    assert_eq!(checked_links, strings(&["https://ext.test/x", "https://ext.test/y"]));
}

#[test]
fn a_url_gets_at_most_one_result() {
    let mut results: Vec<CheckResult> = Vec::new();
    record_result(
        &mut results,
        CheckResult::Healthy { url: "http://a.test/b".to_string() },
    );
    // A second outcome for the same URL is not recorded.
    record_result(
        &mut results,
        CheckResult::Failed {
            url: "http://a.test/b".to_string(),
            context_page: "http://a.test".to_string(),
            reason: Reason::Status(404),
        },
    );
    record_result(
        &mut results,
        CheckResult::Healthy { url: "http://a.test/c".to_string() },
    );
    assert_eq!(results.len(), 2);
    assert!(matches!(&results[0], CheckResult::Healthy { url } if url == "http://a.test/b"));
    assert!(matches!(&results[1], CheckResult::Healthy { url } if url == "http://a.test/c"));
    assert!(results_contain_url(&results, &"http://a.test/b".to_string()));
    assert!(!results_contain_url(&results, &"http://a.test/z".to_string()));
}

#[test]
fn a_new_state_is_empty() {
    let s = State::new();
    assert!(s.to_be_checked_pages.is_empty());
    assert!(s.checked_pages.is_empty());
    assert!(s.checked_links.is_empty());
    assert!(s.check_results.is_empty());
}
