//! Classifier behaviour: partitioning discovered references into new pages
//! and new links, with deduplication against the crawl state.

use linkcheck::classify::{get_new_links, get_new_pages};
use linkcheck::state::State;

fn state_with(
    pending: &[&str],
    checked_pages: &[&str],
    checked_links: &[&str],
) -> State {
    let mut s = State::new();
    for p in pending {
        s.to_be_checked_pages.push(p.to_string());
    }
    for p in checked_pages {
        s.checked_pages.push(p.to_string());
    }
    for l in checked_links {
        s.checked_links.push(l.to_string());
    }
    s
}

fn strings(items: &[&str]) -> Vec<String> {
    items.iter().map(|s| s.to_string()).collect()
}

#[test]
fn partitions_same_origin_and_external() {
    let base = "http://a.test".to_string();
    let page = "http://a.test".to_string();
    let state = state_with(&[], &[], &[]);
    let hrefs = strings(&["/b", "https://ext.test/x"]);
    let new_pages = get_new_pages(&base, &state, &page, &hrefs);
    let new_links = get_new_links(&base, &state, &page, &hrefs);
    assert_eq!(new_pages, strings(&["http://a.test/b"]));
    assert_eq!(new_links, strings(&["https://ext.test/x"]));
}

#[test]
fn discards_mailto_javascript_and_empty() {
    let base = "http://a.test".to_string();
    let page = "http://a.test".to_string();
    let state = state_with(&[], &[], &[]);
    let hrefs = strings(&["mailto:someone@b.test", "javascript:void(0)", ""]);
    let new_pages = get_new_pages(&base, &state, &page, &hrefs);
    let new_links = get_new_links(&base, &state, &page, &hrefs);
    assert!(new_pages.is_empty());
    assert!(new_links.is_empty());
}

#[test]
fn deduplicates_within_the_batch() {
    let base = "http://a.test".to_string();
    let page = "http://a.test".to_string();
    let state = state_with(&[], &[], &[]);
    let hrefs = strings(&["/b", "/b/", "http://a.test/b", "https://ext.test/x", "https://ext.test/x/"]);
    let new_pages = get_new_pages(&base, &state, &page, &hrefs);
    let new_links = get_new_links(&base, &state, &page, &hrefs);
    assert_eq!(new_pages, strings(&["http://a.test/b"]));
    assert_eq!(new_links, strings(&["https://ext.test/x"]));
}

#[test]
fn never_readds_a_seen_reference() {
    // Re-running the classifier on references already present in the state's
    // sets adds nothing new.
    let base = "http://a.test".to_string();
    let page = "http://a.test".to_string();
    let state = state_with(
        &["http://a.test/pending"],
        &["http://a.test/b"],
        &["https://ext.test/x"],
    );
    let hrefs = strings(&["/b", "/pending", "https://ext.test/x"]);
    let new_pages = get_new_pages(&base, &state, &page, &hrefs);
    let new_links = get_new_links(&base, &state, &page, &hrefs);
    assert!(new_pages.is_empty());
    assert!(new_links.is_empty());
}

#[test]
fn skips_the_page_being_checked() {
    let base = "http://a.test".to_string();
    let page = "http://a.test/self".to_string();
    let state = state_with(&[], &[], &[]);
    let hrefs = strings(&["/self", "/self/"]);
    let new_pages = get_new_pages(&base, &state, &page, &hrefs);
    assert!(new_pages.is_empty());
}

#[test]
fn external_origin_decides_page_versus_link() {
    let base = "http://a.test".to_string();
    let page = "http://a.test".to_string();
    let state = state_with(&[], &[], &[]);
    let hrefs = strings(&["http://a.test/inside", "http://b.test/outside"]);
    let new_pages = get_new_pages(&base, &state, &page, &hrefs);
    let new_links = get_new_links(&base, &state, &page, &hrefs);
    assert_eq!(new_pages, strings(&["http://a.test/inside"]));
    assert_eq!(new_links, strings(&["http://b.test/outside"]));
}
