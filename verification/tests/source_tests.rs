use relobo::{article_from_json, decode_ids, decode_topic, Article, Error, Tracker};

#[test]
fn id_list_is_decoded() {
    let ids = decode_ids("[{\"id\": 5}, {\"id\": 7, \"other\": null}]").unwrap();
    assert_eq!(ids, vec![5, 7]);
}

#[test]
fn empty_id_list_is_decoded() {
    let ids = decode_ids("[]").unwrap();
    assert!(ids.is_empty());
}

#[test]
fn invalid_json_id_list_is_source_malformed() {
    assert!(matches!(decode_ids("not json"), Err(Error::SourceMalformed(_))));
}

#[test]
fn non_array_id_list_is_source_malformed() {
    assert!(matches!(decode_ids("{\"id\": 5}"), Err(Error::SourceMalformed(_))));
}

#[test]
fn non_integer_id_is_source_malformed() {
    assert!(matches!(decode_ids("[{\"id\": \"five\"}]"), Err(Error::SourceMalformed(_))));
}

#[test]
fn entry_without_id_is_source_malformed() {
    assert!(matches!(decode_ids("[{\"key\": 1}]"), Err(Error::SourceMalformed(_))));
}

fn topic_body(id: i64, created_at: &str) -> String {
    format!(
        "{{\"topic_title\": \"News {id}\", \"html_body\": \"<p>text {id}</p>\", \
         \"created_at\": \"{created_at}\", \"forum\": {{\"url\": \"/forum/news\"}}, \
         \"linked\": {{\"image\": {{\"original\": \"/poster/{id}.png\"}}}}}}"
    )
}

#[test]
fn topic_payload_is_decoded() {
    let raw = decode_topic(&topic_body(3, "2024-01-01T00:00:00Z")).unwrap();
    assert_eq!(raw.topic_title, "News 3");
    assert_eq!(raw.html_body, "<p>text 3</p>");
    assert_eq!(raw.created_at, "2024-01-01T00:00:00Z");
    assert_eq!(raw.forum_url, "/forum/news");
    assert_eq!(raw.image_original.as_deref(), Some("/poster/3.png"));
}

#[test]
fn topic_without_title_is_source_malformed() {
    let body = "{\"html_body\": \"x\", \"created_at\": \"2024-01-01T00:00:00Z\", \
                \"forum\": {\"url\": \"/forum/news\"}}";
    assert!(matches!(decode_topic(body), Err(Error::SourceMalformed(_))));
}

#[test]
fn topic_without_image_has_none() {
    let body = "{\"topic_title\": \"t\", \"html_body\": \"b\", \
                \"created_at\": \"2024-01-01T00:00:00Z\", \"forum\": {\"url\": \"/forum/news\"}}";
    let raw = decode_topic(body).unwrap();
    assert_eq!(raw.image_original, None);
}

#[test]
fn article_round_trips_through_a_synthetic_payload() {
    let a = article_from_json(3, &topic_body(3, "2024-01-01T00:00:00Z")).unwrap();
    assert_eq!(a.id, 3);
    assert_eq!(a.data, 1_704_067_200_000);
    assert_eq!(a.url, "https://shikimori.one/forum/news/3");
    assert_eq!(a.poster_url.as_deref(), Some("https://shikimori.one/poster/3.png"));
}

fn deliver(tracker: &mut Tracker, fetched: Vec<Article>) -> Vec<(i64, String)> {
    tracker
        .filter_new(fetched)
        .iter()
        .map(|a| (a.id, a.message().title.clone()))
        .collect()
}

#[test]
fn two_new_articles_are_delivered_once_in_timestamp_order() {
    // The source lists identifiers [1, 2]; both publish instants lie after
    // the (unset) watermark. Identifier 2 published first.
    let mut tracker = Tracker::new();
    let to_fetch = tracker.unseen_ids(&vec![1, 2]);
    assert_eq!(to_fetch, vec![1, 2]);
    let fetched: Vec<Article> = to_fetch
        .iter()
        .map(|&id| {
            let created = if id == 1 { "2024-01-02T00:00:00Z" } else { "2024-01-01T00:00:00Z" };
            article_from_json(id, &topic_body(id, created)).unwrap()
        })
        .collect();
    let sent = deliver(&mut tracker, fetched);
    assert_eq!(
        sent,
        vec![(2, String::from("News 2")), (1, String::from("News 1"))]
    );
    // The watermark is the later of the two instants.
    assert_eq!(tracker.watermark(), Some(1_704_153_600_000));

    // The second iteration sees the same identifiers: nothing is fetched,
    // and even a re-fetch would deliver nothing.
    assert!(tracker.unseen_ids(&vec![1, 2]).is_empty());
    let refetched: Vec<Article> = vec![
        article_from_json(1, &topic_body(1, "2024-01-02T00:00:00Z")).unwrap(),
        article_from_json(2, &topic_body(2, "2024-01-01T00:00:00Z")).unwrap(),
    ];
    assert!(deliver(&mut tracker, refetched).is_empty());
    assert_eq!(tracker.watermark(), Some(1_704_153_600_000));
}

#[test]
fn message_carries_the_articles_content() {
    let a = article_from_json(3, &topic_body(3, "2024-01-01T00:00:00Z")).unwrap();
    let m = a.message();
    assert_eq!(m.username, "Relobo");
    assert_eq!(m.avatar_url, "https://vlobo.site/1-64.png");
    assert_eq!(m.title, "News 3");
    assert_eq!(m.color, "6316287");
    assert_eq!(m.footer_text, "Оригинал: https://shikimori.one/forum/news/3");
    assert_eq!(m.image_url.as_deref(), Some("https://shikimori.one/poster/3.png"));
    assert!(m.description.contains("text 3"));
}

#[test]
fn long_titles_are_truncated_to_the_limit() {
    let long_title = "t".repeat(300);
    let body = format!(
        "{{\"topic_title\": \"{long_title}\", \"html_body\": \"b\", \
         \"created_at\": \"2024-01-01T00:00:00Z\", \"forum\": {{\"url\": \"/forum/news\"}}}}"
    );
    let a = article_from_json(9, &body).unwrap();
    let m = a.message();
    assert_eq!(m.title.chars().count(), 256);
    assert!(m.title.ends_with('…'));
}
