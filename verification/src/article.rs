use vstd::prelude::*;
use vstd::string::StrSliceExecFns;
use vstd::string::StringExecFns;

verus! {

/// A normalized news article.
///
/// `url` and, when present, `poster_url` are absolute URLs: relative links
/// from the source are resolved against the source's base URL before an
/// `Article` is built. `data` is the publish instant, counted in
/// non-leap milliseconds since the Unix epoch, UTC.
pub struct Article {
    pub id: i64,
    pub url: String,
    pub title: String,
    pub text: String,
    pub poster_url: Option<String>,
    pub data: i64,
}

/// The message posted to the webhook, as plain fields: a sender identity and
/// one embed (title, description, footer, color, optional image).
pub struct OutboundMessage {
    pub username: String,
    pub avatar_url: String,
    pub title: String,
    pub description: String,
    pub footer_text: String,
    pub color: String,
    pub image_url: Option<String>,
}

/// The target platform's documented length limit for an embed title, in characters.
pub const TITLE_LIMIT: usize = 256;

/// The target platform's documented length limit for an embed description, in characters.
pub const DESCRIPTION_LIMIT: usize = 4096;

/// The target platform's documented length limit for an embed footer text, in characters.
pub const FOOTER_LIMIT: usize = 2048;

/// Truncation policy: text within the limit is kept unchanged; text over the
/// limit is cut hard to `limit - 1` characters and an ellipsis is appended,
/// so the result never exceeds `limit` characters.
pub open spec fn truncated(s: Seq<char>, limit: int) -> Seq<char> {
    if s.len() <= limit {
        s
    } else {
        s.subrange(0, limit - 1).push('…')
    }
}

/// Cuts `s` to at most `limit` characters, marking a cut with an ellipsis.
pub fn truncate_text(s: &String, limit: usize) -> (r: String)
    requires
        limit >= 1,
    ensures
        r@ == truncated(s@, limit as int),
{
    let n = s.as_str().unicode_len();
    if n <= limit {
        s.clone()
    } else {
        let head = s.as_str().substring_char(0, limit - 1);
        let mut r = head.to_owned();
        r.append("…");
        proof {
            reveal_strlit("…");
            assert(r@ =~= s@.subrange(0, limit - 1).push('…'));
        }
        r
    }
}

impl Article {
    /// Builds the outbound webhook message for this article: fixed sender
    /// identity and color, the article's title and body as the embed title
    /// and description (each truncated to the platform limit), a footer
    /// naming the original URL, and the poster image when there is one.
    pub fn message(&self) -> (m: OutboundMessage)
        ensures
            m.username@ == "Relobo"@,
            m.avatar_url@ == "https://vlobo.site/1-64.png"@,
            m.title@ == truncated(self.title@, TITLE_LIMIT as int),
            m.description@ == truncated(self.text@, DESCRIPTION_LIMIT as int),
            m.footer_text@ == truncated("Оригинал: "@ + self.url@, FOOTER_LIMIT as int),
            m.color@ == "6316287"@,
            m.image_url is Some <==> self.poster_url is Some,
            self.poster_url is Some ==> m.image_url->0@ == self.poster_url->0@,
    {
        let mut footer = String::from_str("Оригинал: ");
        footer.append(self.url.as_str());
        let image_url = match &self.poster_url {
            Some(u) => Some(u.clone()),
            None => None,
        };
        OutboundMessage {
            username: String::from_str("Relobo"),
            avatar_url: String::from_str("https://vlobo.site/1-64.png"),
            title: truncate_text(&self.title, TITLE_LIMIT),
            description: truncate_text(&self.text, DESCRIPTION_LIMIT),
            footer_text: truncate_text(&footer, FOOTER_LIMIT),
            color: String::from_str("6316287"),
            image_url,
        }
    }
}

} // verus!
