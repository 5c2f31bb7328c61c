use vstd::prelude::*;
use vstd::string::StringExecFns;

use crate::article::Article;
use crate::error::Error;
use crate::links::resolve_links;
use crate::links::rewrite_links;
use crate::urls::complete_url;
use crate::urls::spec_complete_url;

verus! {

/// The base URL of the news source; every relative link is resolved against it.
pub open spec fn spec_base_url() -> Seq<char> {
    "https://shikimori.one/"@
}

pub fn base_url() -> (r: &'static str)
    ensures
        r@ == spec_base_url(),
{
    "https://shikimori.one/"
}

pub open spec fn digit_char(d: nat) -> char {
    if d == 0 {
        '0'
    } else if d == 1 {
        '1'
    } else if d == 2 {
        '2'
    } else if d == 3 {
        '3'
    } else if d == 4 {
        '4'
    } else if d == 5 {
        '5'
    } else if d == 6 {
        '6'
    } else if d == 7 {
        '7'
    } else if d == 8 {
        '8'
    } else {
        '9'
    }
}

/// The decimal digits of `n`, most significant first, no leading zeros
/// (except for `n == 0` itself).
pub open spec fn dec_digits(n: nat) -> Seq<char>
    decreases n,
{
    if n < 10 {
        seq![digit_char(n)]
    } else {
        dec_digits(n / 10).push(digit_char(n % 10))
    }
}

/// The decimal rendering of a signed number: a minus sign before the digits
/// of its magnitude when negative.
pub open spec fn dec_of_i64(n: int) -> Seq<char> {
    if n < 0 {
        seq!['-'] + dec_digits((-n) as nat)
    } else {
        dec_digits(n as nat)
    }
}

fn digit_char_exec(d: u64) -> (c: char)
    requires
        d < 10,
    ensures
        c == digit_char(d as nat),
{
    if d == 0 {
        '0'
    } else if d == 1 {
        '1'
    } else if d == 2 {
        '2'
    } else if d == 3 {
        '3'
    } else if d == 4 {
        '4'
    } else if d == 5 {
        '5'
    } else if d == 6 {
        '6'
    } else if d == 7 {
        '7'
    } else if d == 8 {
        '8'
    } else {
        '9'
    }
}

fn push_dec_u64(s: &mut String, m: u64)
    ensures
        final(s)@ == old(s)@ + dec_digits(m as nat),
    decreases m,
{
    if m < 10 {
        s.push(digit_char_exec(m));
        proof {
            assert(old(s)@.push(digit_char(m as nat)) =~= old(s)@ + dec_digits(m as nat));
        }
    } else {
        let ghost mid = old(s)@ + dec_digits((m / 10) as nat);
        push_dec_u64(s, m / 10);
        s.push(digit_char_exec(m % 10));
        proof {
            assert(mid.push(digit_char((m % 10) as nat)) =~= old(s)@ + dec_digits(m as nat));
        }
    }
}

/// Appends the decimal rendering of `n` to `s`.
pub fn push_dec_i64(s: &mut String, n: i64)
    ensures
        final(s)@ == old(s)@ + dec_of_i64(n as int),
{
    if n >= 0 {
        push_dec_u64(s, n as u64);
    } else {
        s.push('-');
        let mag: u64 = ((-(n + 1)) as u64) + 1;
        proof {
            assert(mag as int == -(n as int));
        }
        let ghost mid = old(s)@.push('-');
        push_dec_u64(s, mag);
        proof {
            assert(mid + dec_digits(mag as nat) =~= old(s)@ + dec_of_i64(n as int));
        }
    }
}

/// What an article's publish instant names: the number of non-leap
/// milliseconds since the Unix epoch that the datetime string denotes, or
/// `None` when the string is not a valid datetime. A function of the string
/// alone; named here rather than written out.
pub uninterp spec fn rfc3339_millis(s: Seq<char>) -> Option<i64>;

/// Relies on chrono's `FromStr` for `DateTime<Utc>` (a relaxed RFC 3339 form)
/// and `DateTime::timestamp_millis`: both are deterministic functions of the
/// string alone, independent of clock, locale and machine.
#[verifier::external_body]
fn parse_datetime_millis(s: &str) -> (r: Option<i64>)
    ensures
        r == rfc3339_millis(s@),
{
    match s.parse::<chrono::DateTime<chrono::Utc>>() {
        Ok(dt) => Some(dt.timestamp_millis()),
        Err(_) => None,
    }
}

/// Parses an ISO-8601/RFC-3339 datetime into epoch milliseconds; fails with
/// `ParseFailure` exactly on input that is no valid datetime.
pub fn parse_timestamp(s: &str) -> (r: Result<i64, Error>)
    ensures
        r is Ok <==> rfc3339_millis(s@) is Some,
        r is Ok ==> Some(r->Ok_0) == rfc3339_millis(s@),
        r is Err ==> r->Err_0 matches Error::ParseFailure(_),
{
    match parse_datetime_millis(s) {
        Some(v) => Ok(v),
        None => Err(Error::ParseFailure(String::from_str("malformed datetime"))),
    }
}

/// What the HTML-to-markdown conversion returns for a given HTML fragment.
/// A function of the fragment alone; named here rather than written out.
pub uninterp spec fn markdown_of(html: Seq<char>) -> Seq<char>;

/// Relies on `html2md::parse_html`: it strips presentation markup into
/// markdown, a deterministic function of the HTML text alone.
#[verifier::external_body]
fn html_to_markdown(html: &str) -> (r: String)
    ensures
        r@ == markdown_of(html@),
{
    html2md::parse_html(html)
}

/// The plain fields a topic payload carries, as the source API serves them:
/// required title, HTML body, creation datetime and forum path, and an
/// optional image URL (relative or absolute).
pub struct TopicPayload {
    pub topic_title: String,
    pub html_body: String,
    pub created_at: String,
    pub forum_url: String,
    pub image_original: Option<String>,
}

/// The site-relative path of an article: its forum's path, a slash, and the
/// article's identifier in decimal.
pub open spec fn article_path(forum_url: Seq<char>, id: int) -> Seq<char> {
    forum_url + seq!['/'] + dec_of_i64(id)
}

/// Builds the normalized `Article` for a topic payload: the canonical URL
/// from the forum path and the identifier, made absolute against the base
/// URL; the body converted from HTML to markdown with every link target made
/// absolute; the optional poster URL made absolute; and the publish instant
/// parsed from the creation datetime. Fails with `ParseFailure` exactly when
/// the canonical URL, the poster URL or the datetime does not resolve.
pub fn build_article(id: i64, raw: &TopicPayload) -> (r: Result<Article, Error>)
    ensures
        r is Ok <==> (spec_complete_url(spec_base_url(), article_path(raw.forum_url@, id as int))
            is Some && (raw.image_original is Some ==> spec_complete_url(
            spec_base_url(),
            raw.image_original->0@,
        ) is Some) && rfc3339_millis(raw.created_at@) is Some),
        r is Ok ==> ({
            let a = r->Ok_0;
            &&& a.id == id
            &&& a.url@ == spec_complete_url(
                spec_base_url(),
                article_path(raw.forum_url@, id as int),
            )->0
            &&& a.title@ == raw.topic_title@
            &&& a.text@ == rewrite_links(markdown_of(raw.html_body@), spec_base_url())
            &&& (a.poster_url is Some <==> raw.image_original is Some)
            &&& (raw.image_original is Some ==> a.poster_url->0@ == spec_complete_url(
                spec_base_url(),
                raw.image_original->0@,
            )->0)
            &&& Some(a.data) == rfc3339_millis(raw.created_at@)
        }),
        r is Ok ==> crate::urls::spec_url_parses(r->Ok_0.url@),
        r is Ok && r->Ok_0.poster_url is Some ==> crate::urls::spec_url_parses(
            r->Ok_0.poster_url->0@,
        ),
        r is Err ==> r->Err_0 matches Error::ParseFailure(_),
{
    let mut path = raw.forum_url.clone();
    path.push('/');
    push_dec_i64(&mut path, id);
    proof {
        assert(path@ =~= article_path(raw.forum_url@, id as int));
    }
    let url = match complete_url(base_url(), path.as_str()) {
        Ok(u) => u,
        Err(e) => {
            return Err(e);
        },
    };
    let md = html_to_markdown(raw.html_body.as_str());
    let text = resolve_links(md.as_str(), base_url());
    let poster_url = match &raw.image_original {
        Some(img) => match complete_url(base_url(), img.as_str()) {
            Ok(u) => Some(u),
            Err(e) => {
                return Err(e);
            },
        },
        None => None,
    };
    let data = match parse_timestamp(raw.created_at.as_str()) {
        Ok(v) => v,
        Err(e) => {
            return Err(e);
        },
    };
    Ok(Article { id, url, title: raw.topic_title.clone(), text, poster_url, data })
}

} // verus!
