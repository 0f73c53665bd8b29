//! The URL normalizer: resolves a discovered hyperlink reference against the
//! page that contained it into one canonical absolute form.
//!
//! Resolution itself follows the scheme, authority and path composition rules
//! of RFC 3986 and is performed by the `url` crate; this module then strips a
//! single trailing slash, so that two URLs differing only by that slash
//! normalize identically. A reference that cannot be resolved yields `None`
//! rather than a sentinel string, and the classifier discards it.

use vstd::prelude::*;

verus! {

use vstd::string::StrSliceExecFns;
use crate::text::str_starts_with;

/// What RFC 3986 reference resolution returns for `reference` resolved
/// against `base`: `None` when resolution fails, otherwise the serialized
/// absolute URL. The value depends on the two strings alone.
pub uninterp spec fn resolved_ref(base: Seq<char>, reference: Seq<char>) -> Option<Seq<char>>;

/// Relies on `url::Url::parse` and `url::Url::join` (RFC 3986 reference
/// resolution) and on the `url::Url` serialization returned by `Display`:
/// all three are deterministic functions of the input strings.
#[verifier::external_body]
fn resolve_reference(base: &str, reference: &str) -> (r: Option<String>)
    ensures
        match r {
            Some(u) => resolved_ref(base@, reference@) == Some(u@),
            None => resolved_ref(base@, reference@) is None,
        },
{
    match url::Url::parse(base) {
        Ok(b) => match b.join(reference) {
            Ok(joined) => Some(joined.to_string()),
            Err(_) => None,
        },
        Err(_) => None,
    }
}

/// `s` with one trailing `/` removed, if it ends with one.
pub open spec fn spec_strip_slash(s: Seq<char>) -> Seq<char> {
    if s.len() > 0 && s.last() == '/' {
        s.drop_last()
    } else {
        s
    }
}

/// Removes a single trailing slash from a URL string.
pub fn strip_trailing_slash(url: &str) -> (r: String)
    ensures
        r@ == spec_strip_slash(url@),
{
    let n = url.unicode_len();
    if n > 0 && url.get_char(n - 1) == '/' {
        let stripped = url.substring_char(0, n - 1);
        proof {
            assert(stripped@ =~= url@.drop_last());
        }
        stripped.to_owned()
    } else {
        url.to_owned()
    }
}

/// Two serialized URLs that differ only by one trailing slash strip to the
/// same canonical form.
pub proof fn lemma_strip_slash_equates(u: Seq<char>)
    requires
        u.len() == 0 || u.last() != '/',
    ensures
        spec_strip_slash(u.push('/')) == spec_strip_slash(u),
{
    assert(u.push('/').drop_last() =~= u);
}

/// The canonical form of `reference` resolved against `page`: the resolved
/// absolute URL with one trailing slash stripped, or `None` when the
/// reference is malformed.
pub open spec fn spec_normalize(reference: Seq<char>, page: Seq<char>) -> Option<Seq<char>> {
    match resolved_ref(page, reference) {
        Some(u) => Some(spec_strip_slash(u)),
        None => None,
    }
}

/// Resolves `reference` against the URL of the page it was found on and
/// strips a trailing slash; `None` when the reference cannot be resolved.
pub fn normalize(reference: &str, page: &str) -> (r: Option<String>)
    ensures
        match r {
            Some(u) => spec_normalize(reference@, page@) == Some(u@),
            None => spec_normalize(reference@, page@) is None,
        },
{
    match resolve_reference(page, reference) {
        Some(u) => Some(strip_trailing_slash(u.as_str())),
        None => None,
    }
}

/// The site's own origin, as the classifier compares against it: the root
/// reference `/` resolved against the base URL, slash stripped.
pub open spec fn spec_origin(base: Seq<char>) -> Option<Seq<char>> {
    spec_normalize("/"@, base)
}

/// Computes the site origin of `base_url`, against which discovered
/// references are classified as internal or external.
pub fn site_origin(base_url: &str) -> (r: Option<String>)
    ensures
        match r {
            Some(u) => spec_origin(base_url@) == Some(u@),
            None => spec_origin(base_url@) is None,
        },
{
    normalize("/", base_url)
}

/// A character the root URL is allowed to contain: a letter, a digit, or one
/// of `.`, `:`, `/`.
pub open spec fn spec_root_char(c: char) -> bool {
    ('0' <= c && c <= '9') || ('A' <= c && c <= 'Z') || ('a' <= c && c <= 'z') || c == '.' || c
        == ':' || c == '/'
}

/// A well-formed root URL: it starts with `http://` or `https://`, has at
/// least one character after that prefix, and every character is a letter, a
/// digit, or one of `.`, `:`, `/`.
pub open spec fn spec_valid_root(s: Seq<char>) -> bool {
    &&& ("http://"@.is_prefix_of(s) && s.len() > 7) || ("https://"@.is_prefix_of(s) && s.len() > 8)
    &&& forall|i: int| 0 <= i < s.len() ==> spec_root_char(#[trigger] s[i])
}

fn root_char_ok(c: char) -> (r: bool)
    ensures
        r == spec_root_char(c),
{
    ('0' <= c && c <= '9') || ('A' <= c && c <= 'Z') || ('a' <= c && c <= 'z') || c == '.' || c
        == ':' || c == '/'
}

/// Checks that `base_url` is an acceptable root URL for a crawl: an absolute
/// HTTP or HTTPS URL made of letters, digits, dots, colons and slashes.
pub fn check_base_url(base_url: &str) -> (r: bool)
    ensures
        r == spec_valid_root(base_url@),
{
    let n = base_url.unicode_len();
    let http = str_starts_with(base_url, "http://");
    let https = str_starts_with(base_url, "https://");
    if !((http && n > 7) || (https && n > 8)) {
        return false;
    }
    let mut i: usize = 0;
    while i < n
        invariant
            n == base_url@.len(),
            i <= n,
            forall|j: int| 0 <= j < i ==> spec_root_char(#[trigger] base_url@[j]),
        decreases n - i,
    {
        if !root_char_ok(base_url.get_char(i)) {
            return false;
        }
        i = i + 1;
    }
    true
}

} // verus!
