use vstd::prelude::*;
use vstd::string::StringExecFns;

use crate::error::Error;

verus! {

/// Whether the string parses as an absolute URL. What `url::Url::parse`
/// accepts is a function of the string alone; it is named here rather than
/// written out.
pub uninterp spec fn spec_url_parses(s: Seq<char>) -> bool;

/// The serialization of `rel` resolved against `base` by the standard URL
/// resolution rules (relative paths, `..`, scheme-relative forms), or `None`
/// when `base` does not parse or the resolution fails.
pub uninterp spec fn spec_url_join(base: Seq<char>, rel: Seq<char>) -> Option<Seq<char>>;

/// Relies on `url::Url::parse`: it parses an absolute URL from the string, a
/// deterministic function of the string alone.
#[verifier::external_body]
fn url_parses(s: &str) -> (r: bool)
    ensures
        r == spec_url_parses(s@),
{
    url::Url::parse(s).is_ok()
}

/// Relies on `url::Url::parse`, `url::Url::join` and the serialization that
/// `ToString` gives through `Display`: `rel` is resolved against the parsed
/// `base` by the URL standard's rules, a deterministic function of the two
/// strings alone; `None` exactly when parsing the base or joining fails. A
/// `Url` value is an absolute URL, and its serialization parses back, so a
/// returned string parses as an absolute URL.
#[verifier::external_body]
fn url_join(base: &str, rel: &str) -> (r: Option<String>)
    ensures
        r is Some <==> spec_url_join(base@, rel@) is Some,
        r is Some ==> r->0@ == spec_url_join(base@, rel@)->0,
        r is Some ==> spec_url_parses(r->0@),
{
    match url::Url::parse(base) {
        Ok(b) => match b.join(rel) {
            Ok(u) => Some(u.to_string()),
            Err(_) => None,
        },
        Err(_) => None,
    }
}

/// An already-absolute URL is kept unchanged; anything else is joined against
/// the base, when that succeeds.
pub open spec fn spec_complete_url(base: Seq<char>, s: Seq<char>) -> Option<Seq<char>> {
    if spec_url_parses(s) {
        Some(s)
    } else {
        spec_url_join(base, s)
    }
}

/// A link target after resolution against the base: an absolute URL stays as
/// it is, a resolvable relative one becomes absolute, and a malformed one is
/// left unchanged (graceful degradation, not an error).
pub open spec fn resolve_target(base: Seq<char>, href: Seq<char>) -> Seq<char> {
    match spec_complete_url(base, href) {
        Some(u) => u,
        None => href,
    }
}

/// Law: resolution is a no-op on an already-absolute URL.
pub proof fn lemma_resolve_absolute_noop(base: Seq<char>, href: Seq<char>)
    requires
        spec_url_parses(href),
    ensures
        resolve_target(base, href) == href,
{
}

/// Makes `s` absolute: kept unchanged when it already parses as an absolute
/// URL, otherwise joined against `base`. Fails exactly when `s` is relative
/// and the join fails; what it returns is always absolute.
pub fn complete_url(base: &str, s: &str) -> (r: Result<String, Error>)
    ensures
        r is Ok <==> spec_complete_url(base@, s@) is Some,
        r is Ok ==> r->Ok_0@ == spec_complete_url(base@, s@)->0,
        r is Ok ==> spec_url_parses(r->Ok_0@),
        r is Err ==> r->Err_0 matches Error::ParseFailure(_),
{
    if url_parses(s) {
        Ok(s.to_owned())
    } else {
        match url_join(base, s) {
            Some(u) => Ok(u),
            None => Err(Error::ParseFailure(String::from_str("unresolvable URL"))),
        }
    }
}

/// Resolves one link target: `complete_url`, with a malformed target kept
/// unchanged instead of failing.
pub fn resolve_one(base: &str, href: &String) -> (r: String)
    ensures
        r@ == resolve_target(base@, href@),
{
    match complete_url(base, href.as_str()) {
        Ok(u) => u,
        Err(_) => href.clone(),
    }
}

} // verus!
