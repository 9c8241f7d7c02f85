//! URL and header utilities: filename derivation from a URL path, the
//! `Accept-Ranges` check, and the trusted bridge to the URL parser and the
//! identifier generator.

use vstd::prelude::*;

verus! {

/// The plain-value projection of a parsed absolute URL: its normalized
/// serialization and its path component.
///
/// `has_segments` is false for URLs that carry no slash-separated path
/// (cannot-be-a-base URLs such as `mailto:` links); no filename can be
/// derived from those.
#[derive(Debug, Clone)]
pub struct ParsedUrl {
    pub full: String,
    pub path: String,
    pub has_segments: bool,
}

/// Whether `s` parses as an absolute URL.
pub uninterp spec fn url_parses(s: Seq<char>) -> bool;

/// The normalized serialization of the URL parsed from `s`.
pub uninterp spec fn url_string_of(s: Seq<char>) -> Seq<char>;

/// The path component of the URL parsed from `s`.
pub uninterp spec fn url_path_of(s: Seq<char>) -> Seq<char>;

/// Whether the URL parsed from `s` has slash-separated path segments.
pub uninterp spec fn url_has_segments(s: Seq<char>) -> bool;

/// Relies on `reqwest::Url::parse` for URL validity, on its `Display`
/// rendering for the normalized serialization, on `Url::path` for the path
/// component, and on `Url::cannot_be_a_base` for whether the path is made of
/// slash-separated segments. All four are functions of the input string
/// alone.
#[verifier::external_body]
pub(crate) fn parse_url(s: &str) -> (r: Option<ParsedUrl>)
    ensures
        r is Some <==> url_parses(s@),
        r matches Some(p) ==> {
            &&& p.full@ == url_string_of(s@)
            &&& p.path@ == url_path_of(s@)
            &&& p.has_segments == url_has_segments(s@)
        },
{
    match reqwest::Url::parse(s) {
        Ok(u) => {
            let has_segments = !u.cannot_be_a_base();
            let path = u.path().to_string();
            Some(ParsedUrl { full: u.to_string(), path, has_segments })
        },
        Err(_) => None,
    }
}

/// Relies on `uuid::Uuid::new_v4` for a fresh random identifier, taken as its
/// 128-bit big-endian value. Nothing is promised of the result.
#[verifier::external_body]
pub(crate) fn new_uuid() -> (r: u128) {
    uuid::Uuid::new_v4().as_u128()
}

/// The index where the final path segment of `p` begins: just past the last
/// `'/'`, or zero if there is none.
pub open spec fn filename_start(p: Seq<char>) -> int
    decreases p.len(),
{
    if p.len() == 0 {
        0
    } else if p.last() == '/' {
        p.len() as int
    } else {
        filename_start(p.drop_last())
    }
}

/// The filename the original URL path designates: its last path segment, or
/// nothing when that segment is empty.
pub open spec fn spec_parse_filename(p: Seq<char>) -> Option<Seq<char>> {
    if filename_start(p) == p.len() {
        None
    } else {
        Some(p.skip(filename_start(p)))
    }
}

proof fn lemma_filename_start_bounds(p: Seq<char>)
    ensures
        0 <= filename_start(p) <= p.len(),
    decreases p.len(),
{
    if p.len() > 0 && p.last() != '/' {
        lemma_filename_start_bounds(p.drop_last());
    }
}

proof fn lemma_filename_start_no_slash(p: Seq<char>, j: int)
    requires
        filename_start(p) <= j < p.len(),
    ensures
        p[j] != '/',
    decreases p.len(),
{
    lemma_filename_start_bounds(p);
    if p.len() > 0 && p.last() != '/' {
        if j == p.len() - 1 {
        } else {
            lemma_filename_start_no_slash(p.drop_last(), j);
        }
    }
}

proof fn lemma_filename_start_step(p: Seq<char>, i: int)
    requires
        0 <= i < p.len(),
    ensures
        filename_start(p.take(i + 1)) == if p[i] == '/' {
            i + 1
        } else {
            filename_start(p.take(i))
        },
{
    let q = p.take(i + 1);
    assert(q.last() == p[i]);
    assert(q.drop_last() =~= p.take(i));
}

/// Derives the filename for a download from the path component of its URL:
/// the last slash-separated segment. Returns nothing when that segment is
/// empty (a path ending in `'/'`, or an empty path). The result never
/// contains a separator.
pub fn parse_filename(path: &str) -> (r: Option<String>)
    ensures
        r is Some <==> spec_parse_filename(path@) is Some,
        r matches Some(name) ==> {
            &&& Some(name@) == spec_parse_filename(path@)
            &&& forall|j: int| 0 <= j < name@.len() ==> name@[j] != '/'
        },
{
    let len = path.unicode_len();
    let mut start: usize = 0;
    let mut i: usize = 0;
    proof {
        assert(path@.take(0) =~= Seq::<char>::empty());
    }
    while i < len
        invariant
            0 <= i <= len,
            len == path@.len(),
            start == filename_start(path@.take(i as int)),
            start <= i,
        decreases len - i,
    {
        let c = path.get_char(i);
        proof {
            lemma_filename_start_step(path@, i as int);
        }
        if c == '/' {
            start = i + 1;
        }
        i = i + 1;
    }
    proof {
        assert(path@.take(len as int) =~= path@);
    }
    if start == len {
        None
    } else {
        let name = path.substring_char(start, len).to_owned();
        proof {
            assert(name@ =~= path@.skip(start as int));
            assert forall|j: int| 0 <= j < name@.len() implies name@[j] != '/' by {
                lemma_filename_start_no_slash(path@, start + j);
            }
        }
        Some(name)
    }
}

/// Whether two string slices hold the same characters.
pub fn str_eq(a: &str, b: &str) -> (r: bool)
    ensures
        r == (a@ == b@),
{
    let alen = a.unicode_len();
    let blen = b.unicode_len();
    if alen != blen {
        return false;
    }
    let mut i: usize = 0;
    while i < alen
        invariant
            0 <= i <= alen,
            alen == a@.len(),
            alen == b@.len(),
            forall|j: int| 0 <= j < i ==> a@[j] == b@[j],
        decreases alen - i,
    {
        if a.get_char(i) != b.get_char(i) {
            return false;
        }
        i = i + 1;
    }
    proof {
        assert(a@ =~= b@);
    }
    true
}

/// Whether a creation response says the origin supports byte ranges: its
/// `Accept-Ranges` header is present and holds exactly `bytes`.
pub fn supports_byte_ranges(accept_ranges: Option<&str>) -> (r: bool)
    ensures
        r == (accept_ranges matches Some(v) && v@ == "bytes"@),
{
    match accept_ranges {
        Some(v) => str_eq(v, "bytes"),
        None => false,
    }
}

} // verus!
