use relobo::{Article, Tracker};

fn article(id: i64, data: i64) -> Article {
    Article {
        id,
        url: format!("https://shikimori.one/forum/news/{}", id),
        title: format!("title {}", id),
        text: String::from("body"),
        poster_url: None,
        data,
    }
}

#[test]
fn first_iteration_delivers_all_in_publish_order() {
    let mut tracker = Tracker::new();
    // Source returns newest-first; delivery must be oldest-first.
    let fetched = vec![article(1, 2_000), article(2, 1_000)];
    let fresh = tracker.filter_new(fetched);
    assert_eq!(fresh.len(), 2);
    assert_eq!(fresh[0].id, 2);
    assert_eq!(fresh[0].data, 1_000);
    assert_eq!(fresh[1].id, 1);
    assert_eq!(fresh[1].data, 2_000);
    assert_eq!(tracker.watermark(), Some(2_000));
}

#[test]
fn second_iteration_with_same_input_is_empty() {
    let mut tracker = Tracker::new();
    let fresh = tracker.filter_new(vec![article(1, 2_000), article(2, 1_000)]);
    assert_eq!(fresh.len(), 2);
    let again = tracker.filter_new(vec![article(1, 2_000), article(2, 1_000)]);
    assert!(again.is_empty());
    assert_eq!(tracker.watermark(), Some(2_000));
}

#[test]
fn nothing_at_or_below_the_watermark_comes_back() {
    let mut tracker = Tracker::new();
    tracker.filter_new(vec![article(1, 5_000)]);
    assert_eq!(tracker.watermark(), Some(5_000));
    // Unseen identifiers, but at or below the watermark: not new.
    let fresh = tracker.filter_new(vec![article(2, 5_000), article(3, 4_999), article(4, 5_001)]);
    assert_eq!(fresh.len(), 1);
    assert_eq!(fresh[0].id, 4);
    assert_eq!(tracker.watermark(), Some(5_001));
}

#[test]
fn watermark_stays_when_nothing_qualifies() {
    let mut tracker = Tracker::new();
    tracker.filter_new(vec![article(1, 5_000)]);
    let fresh = tracker.filter_new(vec![article(2, 1_000)]);
    assert!(fresh.is_empty());
    assert_eq!(tracker.watermark(), Some(5_000));
}

#[test]
fn ties_are_broken_by_ascending_identifier() {
    let mut tracker = Tracker::new();
    let fresh = tracker.filter_new(vec![article(9, 1_000), article(3, 1_000), article(7, 1_000)]);
    let ids: Vec<i64> = fresh.iter().map(|a| a.id).collect();
    assert_eq!(ids, vec![3, 7, 9]);
    assert_eq!(tracker.watermark(), Some(1_000));
}

#[test]
fn every_fetched_identifier_is_recorded_even_when_filtered_out() {
    let mut tracker = Tracker::new();
    tracker.filter_new(vec![article(1, 5_000)]);
    // Identifier 2 arrives with a timestamp below the watermark: filtered out,
    // but recorded, so it is not fetched again.
    tracker.filter_new(vec![article(2, 1_000)]);
    assert!(tracker.contains_id(1));
    assert!(tracker.contains_id(2));
    let to_fetch = tracker.unseen_ids(&vec![1, 2, 5]);
    assert_eq!(to_fetch, vec![5]);
}

#[test]
fn failed_detail_fetch_is_retried_next_iteration() {
    // Iteration one: the source lists identifiers 1 and 2, but the detail
    // fetch of 2 fails, so only article 1 reaches the tracker.
    let mut tracker = Tracker::new();
    let to_fetch = tracker.unseen_ids(&vec![1, 2]);
    assert_eq!(to_fetch, vec![1, 2]);
    let fresh = tracker.filter_new(vec![article(1, 1_000)]);
    assert_eq!(fresh.len(), 1);
    // The failed identifier was never recorded as seen...
    assert!(!tracker.contains_id(2));
    // ...so the next iteration fetches it again.
    let to_fetch = tracker.unseen_ids(&vec![1, 2]);
    assert_eq!(to_fetch, vec![2]);
}

#[test]
fn duplicate_identifiers_in_one_batch_are_delivered_once() {
    let mut tracker = Tracker::new();
    let first = article(1, 1_000);
    let mut second = article(1, 2_000);
    second.title = String::from("other copy");
    let fresh = tracker.filter_new(vec![first, second]);
    assert_eq!(fresh.len(), 1);
    assert_eq!(fresh[0].id, 1);
    // The first batch occurrence wins.
    assert_eq!(fresh[0].data, 1_000);
    assert_eq!(tracker.watermark(), Some(1_000));
}

#[test]
fn unseen_ids_returns_each_identifier_once() {
    let mut tracker = Tracker::new();
    tracker.filter_new(vec![article(3, 10)]);
    let to_fetch = tracker.unseen_ids(&vec![1, 3, 1, 2, 2]);
    assert_eq!(to_fetch, vec![1, 2]);
}

#[test]
fn empty_input_changes_nothing() {
    let mut tracker = Tracker::new();
    let fresh = tracker.filter_new(Vec::new());
    assert!(fresh.is_empty());
    assert_eq!(tracker.watermark(), None);
}
