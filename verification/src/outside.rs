//! What the session takes from other crates and from `std::path`: pattern
//! matching, URL parsing, base64 and path joining. Each function here makes
//! the call and converts; what it promises is stated, not proved.

use vstd::prelude::*;

verus! {

#[verifier::external_type_specification]
#[verifier::external_body]
pub struct ExRegex(regex::Regex);

/// Whether a text compiles as a pattern, for one build target: the limit on
/// the size of a compiled pattern counts bytes, and they depend on the width
/// of a pointer.
pub uninterp spec fn pattern_compiles(pattern: Seq<char>) -> bool;

/// Whether a pattern, once compiled, matches somewhere in a text.
pub uninterp spec fn pattern_matches(pattern: Seq<char>, haystack: Seq<char>) -> bool;

/// Whether a compiled pattern matches somewhere in a text.
pub uninterp spec fn regex_matches(re: regex::Regex, haystack: Seq<char>) -> bool;

/// The serialization of the URL that a text parses to, if it parses.
pub uninterp spec fn url_serialization(input: Seq<char>) -> Option<Seq<char>>;

/// Bytes as base64 text in the standard alphabet, without padding.
pub uninterp spec fn base64_text(bytes: Seq<u8>) -> Seq<char>;

/// The bytes that unpadded base64 text in the standard alphabet stands for,
/// if the text is well formed.
pub uninterp spec fn base64_bytes(text: Seq<char>) -> Option<Seq<u8>>;

/// The scheme of the URL that a text parses to, and the pairs of key and
/// value that its query holds, in order; nothing if the text does not parse.
pub uninterp spec fn url_scheme_and_query(input: Seq<char>) -> Option<
    (Seq<char>, Seq<(Seq<char>, Seq<char>)>),
>;

/// The views of a list of pairs of strings.
pub open spec fn pairs_view(pairs: Seq<(String, String)>) -> Seq<(Seq<char>, Seq<char>)> {
    pairs.map_values(|pair: (String, String)| (pair.0@, pair.1@))
}

/// `sub` joined under `base`, as the build target joins paths.
pub uninterp spec fn joined_path(base: Seq<char>, sub: Seq<char>) -> Seq<char>;

/// The last component of a path without its extension, as the build target
/// reads paths, if the path has a last component.
pub uninterp spec fn path_stem(path: Seq<char>) -> Option<Seq<char>>;

/// `regex::Regex::new`: compiles a pattern; `None` when the pattern is
/// invalid or compiles to something larger than the crate's default limit.
/// Whether a pattern compiles, and what the compiled pattern matches, depends
/// on the pattern alone, for one build target.
#[verifier::external_body]
pub(crate) fn regex_new(pattern: &str) -> (r: Option<regex::Regex>)
    ensures
        r.is_some() == pattern_compiles(pattern@),
        r matches Some(re) ==> forall|haystack: Seq<char>| #[trigger]
            regex_matches(re, haystack) == pattern_matches(pattern@, haystack),
{
    regex::Regex::new(pattern).ok()
}

/// `regex::Regex::is_match`: whether the pattern matches anywhere in the
/// text. The answer depends on the compiled pattern and the text alone.
#[verifier::external_body]
pub(crate) fn regex_is_match(re: &regex::Regex, haystack: &str) -> (b: bool)
    ensures
        b == regex_matches(*re, haystack@),
{
    re.is_match(haystack)
}

/// `url::Url::parse`, then the conversion of the URL into its serialization:
/// the normalized text of the URL, or `None` when the text is no absolute URL.
#[verifier::external_body]
pub(crate) fn parse_url(input: &str) -> (r: Option<String>)
    ensures
        match r {
            Some(s) => url_serialization(input@) == Some(s@),
            None => url_serialization(input@).is_none(),
        },
{
    url::Url::parse(input).ok().map(String::from)
}

/// `url::Url::parse`, then `Url::scheme` and `Url::query_pairs` of the URL:
/// the scheme in lower case without its colon, and the pairs of the query,
/// decoded, in order; `None` when the text is no absolute URL.
#[verifier::external_body]
pub(crate) fn parse_url_query(input: &str) -> (r: Option<(String, Vec<(String, String)>)>)
    ensures
        match r {
            Some((scheme, pairs)) => url_scheme_and_query(input@) == Some(
                (scheme@, pairs_view(pairs@)),
            ),
            None => url_scheme_and_query(input@).is_none(),
        },
{
    url::Url::parse(input).ok().map(
        |url| (url.scheme().to_owned(), url.query_pairs().into_owned().collect()),
    )
}

/// `Engine::encode` of `base64::engine::general_purpose::STANDARD_NO_PAD`.
#[verifier::external_body]
pub(crate) fn base64_encode(bytes: &[u8]) -> (text: String)
    ensures
        text@ == base64_text(bytes@),
{
    base64::Engine::encode(&base64::engine::general_purpose::STANDARD_NO_PAD, bytes)
}

/// `Engine::decode` of `base64::engine::general_purpose::STANDARD_NO_PAD`.
#[verifier::external_body]
pub(crate) fn base64_decode(text: &str) -> (r: Option<Vec<u8>>)
    ensures
        match r {
            Some(bytes) => base64_bytes(text@) == Some(bytes@),
            None => base64_bytes(text@).is_none(),
        },
{
    base64::Engine::decode(&base64::engine::general_purpose::STANDARD_NO_PAD, text).ok()
}

/// `std::path::Path::join`: `sub` appended to `base` as the platform joins
/// paths, as text. Joining looks at the two texts alone, so for one build
/// target the result is a function of them.
#[verifier::external_body]
pub(crate) fn join_path(base: &str, sub: &str) -> (r: String)
    ensures
        r@ == joined_path(base@, sub@),
{
    std::path::Path::new(base).join(sub).to_string_lossy().into_owned()
}

/// `std::path::Path::file_stem`: the last component of a path without its
/// extension, as the platform reads paths; `None` when the path has no last
/// component. The stem is read off the text alone, so for one build target
/// the result is a function of it.
#[verifier::external_body]
pub(crate) fn file_stem(path: &str) -> (r: Option<String>)
    ensures
        match r {
            Some(stem) => path_stem(path@) == Some(stem@),
            None => path_stem(path@).is_none(),
        },
{
    std::path::Path::new(path).file_stem().and_then(|stem| stem.to_str()).map(String::from)
}

} // verus!
