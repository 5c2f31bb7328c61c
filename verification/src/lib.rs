//! A news-forwarding library: it decides which fetched forum articles are new
//! relative to a seen set and a watermark timestamp, rewrites their content
//! (relative links made absolute, HTML turned into markdown), and builds the
//! outbound webhook message for each new article.

mod article;
mod content;
mod error;
mod json;
mod links;
mod source;
mod text;
mod tracker;
mod urls;

pub use article::Article;
pub use article::OutboundMessage;
pub use article::truncate_text;
pub use article::truncated;
pub use article::DESCRIPTION_LIMIT;
pub use article::FOOTER_LIMIT;
pub use article::TITLE_LIMIT;
pub use content::TopicPayload;
pub use content::article_path;
pub use content::base_url;
pub use content::build_article;
pub use content::dec_digits;
pub use content::dec_of_i64;
pub use content::digit_char;
pub use content::markdown_of;
pub use content::parse_timestamp;
pub use content::push_dec_i64;
pub use content::rfc3339_millis;
pub use content::spec_base_url;
pub use error::Error;
pub use links::resolve_links;
pub use links::rewrite_links;
pub use links::rewrite_from;
pub use links::link_parts;
pub use links::find_label_end;
pub use links::find_close;
pub use links::all_targets_absolute;
pub use links::lemma_rewrite_links_noop;
pub use json::json_doc_of;
pub use json::lookup;
pub use json::spec_lookup;
pub use json::spec_lookup_from;
pub use json::str_field;
pub use json::Json;
pub use source::article_from_json;
pub use source::decode_ids;
pub use source::decode_topic;
pub use source::doc_fields;
pub use source::id_of_entry;
pub use source::spec_article_ok;
pub use source::spec_forum_url;
pub use source::spec_ids;
pub use source::spec_image;
pub use source::spec_topic_ok;
pub use tracker::Tracker;
pub use tracker::lemma_filter_new_idempotent;
pub use urls::complete_url;
pub use urls::resolve_one;
pub use urls::lemma_resolve_absolute_noop;
pub use urls::resolve_target;
pub use urls::spec_complete_url;
pub use urls::spec_url_join;
pub use urls::spec_url_parses;
pub use tracker::ids_of;
pub use tracker::key_le;
pub use tracker::qualifies;
pub use tracker::sorted_by_key;
pub use tracker::spec_filter_new;
pub use tracker::spec_unseen;
