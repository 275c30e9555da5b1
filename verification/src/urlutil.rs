//! URL reference resolution, through the outside URL parser.
use vstd::prelude::*;
use crate::error::{Error, ErrorKind};

verus! {

/// The absolute URL text that resolving the reference `rel` against
/// the absolute URL `base` yields, or `None` where `base` does not
/// parse or the reference cannot be resolved.
pub uninterp spec fn spec_url_join(base: Seq<char>, rel: Seq<char>) -> Option<Seq<char>>;

/// Relies on url::Url::parse and url::Url::join: parsing `base` as an
/// absolute URL and resolving `rel` against it; the result depends on
/// the two strings alone.
#[verifier::external_body]
fn url_join_raw(base: &str, rel: &str) -> (r: Option<String>)
    ensures
        r matches Some(u) ==> spec_url_join(base@, rel@) == Some(u@),
        r is None ==> spec_url_join(base@, rel@) is None,
{
    match url::Url::parse(base) {
        Ok(b) => match b.join(rel) {
            Ok(u) => Some(String::from(u.as_str())),
            Err(_) => None,
        },
        Err(_) => None,
    }
}

/// Resolves the reference `rel` against the absolute URL `base`, or
/// reports a URL error for a malformed or unresolvable reference.
pub fn join_url(base: &str, rel: &str) -> (r: Result<String, Error>)
    ensures
        spec_url_join(base@, rel@) matches Some(u) ==> (r matches Ok(s) && s@ == u),
        spec_url_join(base@, rel@) is None ==> (r matches Err(e) && e.spec_kind() == ErrorKind::Url),
{
    match url_join_raw(base, rel) {
        Some(u) => Ok(u),
        None => {
            let mut m = String::new();
            m.append("malformed or unresolvable URL reference: ");
            m.append(rel);
            m.append(" against ");
            m.append(base);
            Err(Error::Url(m))
        },
    }
}

} // verus!
