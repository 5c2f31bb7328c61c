use vstd::prelude::*;
use vstd::string::StringExecFns;

use crate::article::Article;
use crate::content::article_path;
use crate::content::build_article;
use crate::content::markdown_of;
use crate::content::rfc3339_millis;
use crate::content::spec_base_url;
use crate::content::TopicPayload;
use crate::error::Error;
use crate::json::json_doc_of;
use crate::json::lookup;
use crate::json::parse_json;
use crate::json::spec_lookup;
use crate::json::str_field;
use crate::json::Json;
use crate::links::rewrite_links;
use crate::urls::spec_complete_url;
use crate::urls::spec_url_parses;

verus! {

/// The identifier of one entry of the topics list: the entry must be a JSON
/// object whose `id` holds an integer.
pub open spec fn id_of_entry(e: Json) -> Option<i64> {
    match e {
        Json::Object(fields) => match spec_lookup(fields@, "id"@) {
            Some(Json::Int(n)) => Some(n),
            _ => None,
        },
        _ => None,
    }
}

/// What the id-list decoder owes: when the document is a JSON array whose
/// every entry carries an integer `id`, the ids, one per entry, in source
/// order; `None` otherwise.
pub open spec fn spec_ids(doc: Option<Json>) -> Option<Seq<i64>> {
    match doc {
        Some(Json::Array(arr)) => if forall|i: int|
            0 <= i < arr@.len() ==> (#[trigger] id_of_entry(arr@[i])) is Some {
            Some(Seq::new(arr@.len(), |i: int| id_of_entry(arr@[i])->0))
        } else {
            None
        },
        _ => None,
    }
}

/// Decodes the identifier list the topics endpoint answers with. Succeeds
/// exactly when the body is a JSON array whose every entry is an object
/// carrying an integer `id`, and then returns those ids in source order;
/// fails with `SourceMalformed`, and never with another kind.
pub fn decode_ids(body: &str) -> (r: Result<Vec<i64>, Error>)
    ensures
        r is Ok <==> spec_ids(json_doc_of(body@)) is Some,
        r is Ok ==> r->Ok_0@ == spec_ids(json_doc_of(body@))->0,
        r is Err ==> r->Err_0 matches Error::SourceMalformed(_),
{
    let doc = match parse_json(body) {
        Some(d) => d,
        None => {
            return Err(Error::SourceMalformed(String::from_str("the body is not valid JSON")));
        },
    };
    let ghost gdoc = doc;
    let arr = match doc {
        Json::Array(a) => a,
        _ => {
            return Err(Error::SourceMalformed(String::from_str("the body is not a JSON array")));
        },
    };
    proof {
        assert(gdoc == Json::Array(arr));
    }
    let ghost entries = arr@;
    let key_id = String::from_str("id");
    let mut ids: Vec<i64> = Vec::new();
    let mut k: usize = 0;
    while k < arr.len()
        invariant
            k <= arr@.len(),
            arr@ == entries,
            json_doc_of(body@) == Some(gdoc),
            gdoc == Json::Array(arr),
            key_id@ == "id"@,
            ids@.len() == k as int,
            forall|i: int| 0 <= i < k ==> (#[trigger] id_of_entry(entries[i])) is Some,
            forall|i: int| 0 <= i < k ==> ids@[i] == id_of_entry(#[trigger] entries[i])->0,
        decreases arr@.len() - k,
    {
        let n = match &arr[k] {
            Json::Object(fields) => match lookup(fields, &key_id) {
                Some(j) => match j {
                    Json::Int(n) => *n,
                    _ => {
                        proof {
                            lemma_bad_entry(gdoc, entries, k as int, body@);
                        }
                        return Err(
                            Error::SourceMalformed(
                                String::from_str("an id is not an integer"),
                            ),
                        );
                    },
                },
                None => {
                    proof {
                        lemma_bad_entry(gdoc, entries, k as int, body@);
                    }
                    return Err(
                        Error::SourceMalformed(String::from_str("an entry carries no id")),
                    );
                },
            },
            _ => {
                proof {
                    lemma_bad_entry(gdoc, entries, k as int, body@);
                }
                return Err(
                    Error::SourceMalformed(String::from_str("an entry is not an object")),
                );
            },
        };
        proof {
            assert(id_of_entry(entries[k as int]) == Some(n));
        }
        ids.push(n);
        k = k + 1;
    }
    proof {
        assert(ids@ =~= Seq::new(entries.len(), |i: int| id_of_entry(entries[i])->0));
    }
    Ok(ids)
}

/// When one entry of the array carries no integer `id`, the decoder owes
/// nothing: the required shape is missing.
proof fn lemma_bad_entry(gdoc: Json, entries: Seq<Json>, k: int, body: Seq<char>)
    requires
        json_doc_of(body) == Some(gdoc),
        gdoc matches Json::Array(arr) && arr@ == entries,
        0 <= k < entries.len(),
        id_of_entry(entries[k]) is None,
    ensures
        spec_ids(json_doc_of(body)) is None,
{
}

/// The fields of a topic document, when it is a JSON object.
pub open spec fn doc_fields(doc: Option<Json>) -> Seq<(String, Json)> {
    match doc {
        Some(Json::Object(fields)) => fields@,
        _ => Seq::empty(),
    }
}

/// The forum's path: the string under `forum.url`.
pub open spec fn spec_forum_url(fields: Seq<(String, Json)>) -> Option<Seq<char>> {
    match spec_lookup(fields, "forum"@) {
        Some(Json::Object(forum)) => str_field(forum@, "url"@),
        _ => None,
    }
}

/// The optional image: the string under `linked.image.original`.
pub open spec fn spec_image(fields: Seq<(String, Json)>) -> Option<Seq<char>> {
    match spec_lookup(fields, "linked"@) {
        Some(Json::Object(linked)) => match spec_lookup(linked@, "image"@) {
            Some(Json::Object(image)) => str_field(image@, "original"@),
            _ => None,
        },
        _ => None,
    }
}

/// Whether a topic document carries everything required: it is an object
/// with strings under `topic_title`, `html_body` and `created_at`, and a
/// string under `forum.url`.
pub open spec fn spec_topic_ok(doc: Option<Json>) -> bool {
    &&& doc matches Some(Json::Object(_))
    &&& str_field(doc_fields(doc), "topic_title"@) is Some
    &&& str_field(doc_fields(doc), "html_body"@) is Some
    &&& str_field(doc_fields(doc), "created_at"@) is Some
    &&& spec_forum_url(doc_fields(doc)) is Some
}

/// A required string field of a topic object.
fn required_str(fields: &Vec<(String, Json)>, key: &String, what: &str) -> (r: Result<
    String,
    Error,
>)
    ensures
        r is Ok <==> str_field(fields@, key@) is Some,
        r is Ok ==> r->Ok_0@ == str_field(fields@, key@)->0,
        r is Err ==> r->Err_0 matches Error::SourceMalformed(_),
{
    match lookup(fields, key) {
        Some(j) => match j {
            Json::Text(s) => Ok(s.clone()),
            _ => Err(Error::SourceMalformed(what.to_owned())),
        },
        None => Err(Error::SourceMalformed(what.to_owned())),
    }
}

/// Decodes one topic body into its plain fields: `topic_title`, `html_body`,
/// `created_at` and `forum.url` are required, the image under
/// `linked.image.original` is optional. Succeeds exactly when the body is a
/// JSON object carrying the four required strings, and then returns them
/// unchanged; fails with `SourceMalformed`, and never with another kind.
pub fn decode_topic(body: &str) -> (r: Result<TopicPayload, Error>)
    ensures
        r is Ok <==> spec_topic_ok(json_doc_of(body@)),
        r is Ok ==> ({
            let fields = doc_fields(json_doc_of(body@));
            let raw = r->Ok_0;
            &&& raw.topic_title@ == str_field(fields, "topic_title"@)->0
            &&& raw.html_body@ == str_field(fields, "html_body"@)->0
            &&& raw.created_at@ == str_field(fields, "created_at"@)->0
            &&& raw.forum_url@ == spec_forum_url(fields)->0
            &&& (raw.image_original is Some <==> spec_image(fields) is Some)
            &&& (spec_image(fields) is Some ==> raw.image_original->0@ == spec_image(fields)->0)
        }),
        r is Err ==> r->Err_0 matches Error::SourceMalformed(_),
{
    let doc = match parse_json(body) {
        Some(d) => d,
        None => {
            return Err(Error::SourceMalformed(String::from_str("the body is not valid JSON")));
        },
    };
    let ghost gdoc = doc;
    let fields = match doc {
        Json::Object(fields) => fields,
        _ => {
            return Err(Error::SourceMalformed(String::from_str("the body is not a JSON object")));
        },
    };
    proof {
        assert(gdoc == Json::Object(fields));
    }
    let topic_title = match required_str(&fields, &String::from_str("topic_title"), "no topic title") {
        Ok(s) => s,
        Err(e) => {
            return Err(e);
        },
    };
    let html_body = match required_str(&fields, &String::from_str("html_body"), "no HTML body") {
        Ok(s) => s,
        Err(e) => {
            return Err(e);
        },
    };
    let created_at = match required_str(
        &fields,
        &String::from_str("created_at"),
        "no creation datetime",
    ) {
        Ok(s) => s,
        Err(e) => {
            return Err(e);
        },
    };
    let forum_url = match lookup(&fields, &String::from_str("forum")) {
        Some(f) => match f {
            Json::Object(forum) => match required_str(forum, &String::from_str("url"), "no forum URL") {
                Ok(s) => s,
                Err(e) => {
                    return Err(e);
                },
            },
            _ => {
                return Err(Error::SourceMalformed(String::from_str("the forum is not an object")));
            },
        },
        None => {
            return Err(Error::SourceMalformed(String::from_str("no forum object")));
        },
    };
    let image_original: Option<String> = match lookup(&fields, &String::from_str("linked")) {
        Some(l) => match l {
            Json::Object(linked) => match lookup(linked, &String::from_str("image")) {
                Some(im) => match im {
                    Json::Object(image) => match lookup(image, &String::from_str("original")) {
                        Some(o) => match o {
                            Json::Text(s) => Some(s.clone()),
                            _ => None,
                        },
                        None => None,
                    },
                    _ => None,
                },
                None => None,
            },
            _ => None,
        },
        None => None,
    };
    Ok(TopicPayload { topic_title, html_body, created_at, forum_url, image_original })
}

/// Whether a topic body yields an article under the given identifier: it
/// carries the required fields, the canonical and poster URLs resolve, and
/// the creation datetime parses.
pub open spec fn spec_article_ok(id: int, doc: Option<Json>) -> bool {
    &&& spec_topic_ok(doc)
    &&& spec_complete_url(
        spec_base_url(),
        article_path(spec_forum_url(doc_fields(doc))->0, id),
    ) is Some
    &&& (spec_image(doc_fields(doc)) is Some ==> spec_complete_url(
        spec_base_url(),
        spec_image(doc_fields(doc))->0,
    ) is Some)
    &&& rfc3339_millis(str_field(doc_fields(doc), "created_at"@)->0) is Some
}

/// Decodes a topic body and builds its normalized `Article` under the given
/// identifier: what one detail fetch yields. Succeeds exactly when the body
/// decodes and its URLs and datetime resolve; fails with `SourceMalformed`
/// exactly when the body does not decode, else with `ParseFailure`, and never
/// with another kind.
pub fn article_from_json(id: i64, body: &str) -> (r: Result<Article, Error>)
    ensures
        r is Ok <==> spec_article_ok(id as int, json_doc_of(body@)),
        r is Ok ==> ({
            let fields = doc_fields(json_doc_of(body@));
            let a = r->Ok_0;
            &&& a.id == id
            &&& a.url@ == spec_complete_url(
                spec_base_url(),
                article_path(spec_forum_url(fields)->0, id as int),
            )->0
            &&& a.title@ == str_field(fields, "topic_title"@)->0
            &&& a.text@ == rewrite_links(
                markdown_of(str_field(fields, "html_body"@)->0),
                spec_base_url(),
            )
            &&& (a.poster_url is Some <==> spec_image(fields) is Some)
            &&& (spec_image(fields) is Some ==> a.poster_url->0@ == spec_complete_url(
                spec_base_url(),
                spec_image(fields)->0,
            )->0)
            &&& Some(a.data) == rfc3339_millis(str_field(fields, "created_at"@)->0)
            &&& spec_url_parses(a.url@)
            &&& (a.poster_url is Some ==> spec_url_parses(a.poster_url->0@))
        }),
        r is Err ==> (r->Err_0 matches Error::SourceMalformed(_) <==> !spec_topic_ok(
            json_doc_of(body@),
        )),
        r is Err ==> (r->Err_0 matches Error::SourceMalformed(_) || r->Err_0 matches Error::ParseFailure(_)),
{
    let raw = match decode_topic(body) {
        Ok(raw) => raw,
        Err(e) => {
            return Err(e);
        },
    };
    build_article(id, &raw)
}

} // verus!
