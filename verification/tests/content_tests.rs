use relobo::{
    build_article, complete_url, parse_timestamp, resolve_links, resolve_one, truncate_text,
    Error, TopicPayload,
};

#[test]
fn absolute_url_is_kept_unchanged() {
    let r = complete_url("https://example.com/a/b/", "https://other.org/x?q=1").unwrap();
    assert_eq!(r, "https://other.org/x?q=1");
}

#[test]
fn relative_url_is_joined_against_the_base() {
    // Standard URL resolution: `..` strips the last path segment `b`.
    let r = complete_url("https://example.com/a/b", "../img.png").unwrap();
    assert_eq!(r, "https://example.com/img.png");
}

#[test]
fn a_trailing_slash_keeps_the_last_segment_as_a_directory() {
    let r = complete_url("https://example.com/a/b/", "../img.png").unwrap();
    assert_eq!(r, "https://example.com/a/img.png");
}

#[test]
fn unparseable_base_with_relative_target_is_a_parse_failure() {
    let r = complete_url("not a base", "../img.png");
    assert!(matches!(r, Err(Error::ParseFailure(_))));
}

#[test]
fn resolve_one_keeps_a_malformed_target_unchanged() {
    let href = String::from("../img.png");
    let r = resolve_one("not a base", &href);
    assert_eq!(r, "../img.png");
}

#[test]
fn links_in_markdown_are_resolved() {
    let text = "intro [pic](../img.png) and [site](https://other.org/) end";
    let r = resolve_links(text, "https://example.com/a/b");
    assert_eq!(
        r,
        "intro [pic](https://example.com/img.png) and [site](https://other.org/) end"
    );
}

#[test]
fn text_without_links_is_unchanged() {
    let text = "no links here, just [brackets] and (parens)\nsecond line";
    let r = resolve_links(text, "https://example.com/");
    assert_eq!(r, text);
}

#[test]
fn link_label_may_contain_a_lone_bracket() {
    // The label ends at the first `](`, so a `]` not followed by `(` belongs
    // to the label.
    let r = resolve_links("[a]b](x) tail", "https://example.com/");
    assert_eq!(r, "[a]b](https://example.com/x) tail");
}

#[test]
fn empty_text_stays_empty() {
    assert_eq!(resolve_links("", "https://example.com/"), "");
}

#[test]
fn every_link_on_a_line_is_resolved() {
    let r = resolve_links("[a](x) [b](y)\n[c](z)", "https://example.com/");
    assert_eq!(
        r,
        "[a](https://example.com/x) [b](https://example.com/y)\n[c](https://example.com/z)"
    );
}

#[test]
fn a_link_does_not_span_lines() {
    let text = "[label\n](x)";
    let r = resolve_links(text, "https://example.com/");
    assert_eq!(r, text);
}

#[test]
fn timestamp_parses_to_the_exact_instant() {
    assert_eq!(parse_timestamp("2024-01-01T00:00:00Z").unwrap(), 1_704_067_200_000);
}

#[test]
fn timestamp_with_offset_parses_to_utc() {
    assert_eq!(parse_timestamp("2024-01-01T03:00:00+03:00").unwrap(), 1_704_067_200_000);
}

#[test]
fn malformed_timestamp_is_a_parse_failure() {
    assert!(matches!(parse_timestamp("yesterday"), Err(Error::ParseFailure(_))));
}

#[test]
fn truncation_cuts_hard_and_marks_the_cut() {
    assert_eq!(truncate_text(&String::from("abcdef"), 4), "abc…");
    assert_eq!(truncate_text(&String::from("abcd"), 4), "abcd");
    assert_eq!(truncate_text(&String::from(""), 4), "");
}

#[test]
fn truncation_counts_characters_not_bytes() {
    assert_eq!(truncate_text(&String::from("ααααα"), 3), "αα…");
}

fn payload() -> TopicPayload {
    TopicPayload {
        topic_title: String::from("A headline"),
        html_body: String::from("<p>hello <a href=\"/animes/1\">link</a></p>"),
        created_at: String::from("2024-01-01T00:00:00Z"),
        forum_url: String::from("/forum/news"),
        image_original: Some(String::from("/system/poster.png")),
    }
}

#[test]
fn article_is_built_from_a_payload() {
    let a = build_article(123, &payload()).unwrap();
    assert_eq!(a.id, 123);
    assert_eq!(a.url, "https://shikimori.one/forum/news/123");
    assert_eq!(a.title, "A headline");
    assert_eq!(a.data, 1_704_067_200_000);
    assert_eq!(a.poster_url.as_deref(), Some("https://shikimori.one/system/poster.png"));
    // The HTML is gone and the relative link target was made absolute.
    assert!(!a.text.contains("<p>"));
    assert!(a.text.contains("hello"));
    assert!(a.text.contains("(https://shikimori.one/animes/1)"));
}

#[test]
fn identifiers_render_in_decimal_in_the_url() {
    let a = build_article(0, &payload()).unwrap();
    assert_eq!(a.url, "https://shikimori.one/forum/news/0");
    let a = build_article(i64::MAX, &payload()).unwrap();
    assert_eq!(a.url, "https://shikimori.one/forum/news/9223372036854775807");
    let a = build_article(-17, &payload()).unwrap();
    assert!(a.url.ends_with("/forum/news/-17"));
}

#[test]
fn article_without_an_image_has_no_poster() {
    let mut p = payload();
    p.image_original = None;
    let a = build_article(7, &p).unwrap();
    assert_eq!(a.poster_url, None);
}

#[test]
fn empty_body_after_stripping_is_valid() {
    let mut p = payload();
    p.html_body = String::from("");
    let a = build_article(7, &p).unwrap();
    assert_eq!(a.text, "");
}

#[test]
fn bad_datetime_in_a_payload_is_a_parse_failure() {
    let mut p = payload();
    p.created_at = String::from("not a datetime");
    assert!(matches!(build_article(7, &p), Err(Error::ParseFailure(_))));
}

#[test]
fn error_describe_names_the_kind() {
    let e = Error::ParseFailure(String::from("x"));
    assert_eq!(e.describe(), "parse failure: x");
    let e = Error::DeliveryFailure(String::from("status 500"));
    assert_eq!(e.describe(), "delivery failure: status 500");
    let e = Error::SourceUnavailable(String::from("timeout"));
    assert_eq!(e.describe(), "source unavailable: timeout");
    let e = Error::SourceMalformed(String::from("no id"));
    assert_eq!(e.describe(), "source malformed: no id");
}
